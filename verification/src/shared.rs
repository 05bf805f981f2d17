//! Small helpers shared by the function-object families: handle sharing for
//! `Rc` and `Arc`, and the abstract view of an optional display name.
use vstd::prelude::*;
use std::rc::Rc;
use std::sync::Arc;
use vstd::string::StringExecFns;

verus! {

/// A record of calls after one more call `e`: `e` appended where a record is
/// kept, still no record where none is.
pub open spec fn record<X>(h: Option<Seq<X>>, e: X) -> Option<Seq<X>> {
    match h {
        Some(s) => Some(s.push(e)),
        None => None,
    }
}

/// Abstract view of an optional name: the characters of the name, if any.
pub open spec fn name_view(name: Option<String>) -> Option<Seq<char>> {
    match name {
        Some(s) => Some(s@),
        None => None,
    }
}

/// `Rc::clone`: a second handle to the same allocation, so the value seen
/// through it is the value seen through `this`.
#[verifier::external_body]
pub(crate) fn rc_share<T>(this: &Rc<T>) -> (res: Rc<T>)
    ensures
        res == *this,
{
    Rc::clone(this)
}

/// `Arc::clone`: a second handle to the same allocation, so the value seen
/// through it is the value seen through `this`.
#[verifier::external_body]
pub(crate) fn arc_share<T>(this: &Arc<T>) -> (res: Arc<T>)
    ensures
        res == *this,
{
    Arc::clone(this)
}

/// Copies an optional name, keeping its characters.
pub(crate) fn copy_name(name: &Option<String>) -> (res: Option<String>)
    ensures
        name_view(res) == name_view(*name),
{
    match name {
        Some(s) => Some(s.clone()),
        None => None,
    }
}

/// Borrows an optional name as an optional string slice.
pub(crate) fn name_as_str(name: &Option<String>) -> (res: Option<&str>)
    ensures
        match res {
            Some(s) => name_view(*name) == Some(s@),
            None => name_view(*name) is None,
        },
{
    match name {
        Some(s) => Some(s.as_str()),
        None => None,
    }
}

/// Turns a string slice into an owned name.
pub(crate) fn owned_name(name: &str) -> (res: Option<String>)
    ensures
        name_view(res) == Some(name@),
{
    Some(name.to_owned())
}

/// `String::from` on a string slice: a string with the slice's characters.
pub assume_specification<'a>[ <String as From<&'a str>>::from ](s: &str) -> (res: String)
    ensures
        res@ == s@,
;

/// How an object of kind `kind` shows itself where an unnamed one is shown
/// as `unnamed`: `kind(name)` or `kind(unnamed)`.
pub open spec fn shown_with_default(kind: Seq<char>, name: Option<Seq<char>>) -> Seq<char> {
    match name {
        Some(n) => kind + "("@ + n + ")"@,
        None => kind + "(unnamed)"@,
    }
}

/// How an object of kind `kind` shows itself where an unnamed one is shown
/// by its kind alone: `kind(name)` or `kind`.
pub open spec fn shown_if_named(kind: Seq<char>, name: Option<Seq<char>>) -> Seq<char> {
    match name {
        Some(n) => kind + "("@ + n + ")"@,
        None => kind,
    }
}

/// The text `kind(name)`, or `kind(unnamed)` without a name.
pub(crate) fn show_with_default(kind: &str, name: &Option<String>) -> (res: String)
    ensures
        res@ == shown_with_default(kind@, name_view(*name)),
{
    let mut s = kind.to_owned();
    match name {
        Some(n) => {
            s.append("(");
            s.append(n.as_str());
            s.append(")");
        },
        None => {
            s.append("(unnamed)");
        },
    }
    s
}

/// The text `kind(name)`, or `kind` alone without a name.
pub(crate) fn show_if_named(kind: &str, name: &Option<String>) -> (res: String)
    ensures
        res@ == shown_if_named(kind@, name_view(*name)),
{
    let mut s = kind.to_owned();
    match name {
        Some(n) => {
            s.append("(");
            s.append(n.as_str());
            s.append(")");
        },
        None => {},
    }
    s
}

} // verus!
