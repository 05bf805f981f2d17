//! Predicates: read-only tests `&T -> bool`, in three ownership flavours
//! (`BoxPredicate`, `RcPredicate`, `ArcPredicate`) with logical composition.
//!
//! The behaviour of a predicate is modelled as a relation: `test_requires(v)`
//! says on which values it may be tested, and `test_ensures(v, r)` says which
//! results `r` it may give for `v`. A deterministic predicate relates each
//! value to exactly one result.
use vstd::prelude::*;
use std::rc::Rc;
use std::sync::Arc;
use crate::shared::{name_view, rc_share, arc_share, copy_name, name_as_str, owned_name, show_with_default, shown_with_default};

verus! {

/// Name given to the predicates built by `always_true`.
pub const ALWAYS_TRUE_NAME: &'static str = "always_true";

/// Name given to the predicates built by `always_false`.
pub const ALWAYS_FALSE_NAME: &'static str = "always_false";

/// A read-only test on values of type `T`.
pub trait Predicate<T> {
    /// Values on which the predicate may be tested.
    spec fn test_requires(&self, value: T) -> bool;

    /// Results the predicate may give for a value.
    spec fn test_ensures(&self, value: T, result: bool) -> bool;

    /// Tests `value`.
    fn test(&self, value: &T) -> (result: bool)
        requires
            self.test_requires(*value),
        ensures
            self.test_ensures(*value, result),
    ;

}

/// Two predicates accept the same values and may give the same results.
pub open spec fn same_predicate<T, P: Predicate<T>, Q: Predicate<T>>(p: P, q: Q) -> bool {
    &&& forall|v: T| #[trigger] p.test_requires(v) == q.test_requires(v)
    &&& forall|v: T, r: bool| #[trigger] p.test_ensures(v, r) == q.test_ensures(v, r)
}

/// When `p.and(q)` may be tested on `v`: `q` is only tested when `p` held.
pub open spec fn and_requires<T, P: Predicate<T>, Q: Predicate<T>>(p: P, q: Q, v: T) -> bool {
    p.test_requires(v) && (p.test_ensures(v, true) ==> q.test_requires(v))
}

/// Results of `p.and(q)` on `v` (short-circuit conjunction).
pub open spec fn and_ensures<T, P: Predicate<T>, Q: Predicate<T>>(p: P, q: Q, v: T, r: bool) -> bool {
    if r {
        p.test_ensures(v, true) && q.test_ensures(v, true)
    } else {
        p.test_ensures(v, false) || (p.test_ensures(v, true) && q.test_ensures(v, false))
    }
}

/// When `p.or(q)` may be tested on `v`: `q` is only tested when `p` failed.
pub open spec fn or_requires<T, P: Predicate<T>, Q: Predicate<T>>(p: P, q: Q, v: T) -> bool {
    p.test_requires(v) && (p.test_ensures(v, false) ==> q.test_requires(v))
}

/// Results of `p.or(q)` on `v` (short-circuit disjunction).
pub open spec fn or_ensures<T, P: Predicate<T>, Q: Predicate<T>>(p: P, q: Q, v: T, r: bool) -> bool {
    if r {
        p.test_ensures(v, true) || (p.test_ensures(v, false) && q.test_ensures(v, true))
    } else {
        p.test_ensures(v, false) && q.test_ensures(v, false)
    }
}

/// When `p.xor(q)` may be tested on `v`: both are always tested.
pub open spec fn xor_requires<T, P: Predicate<T>, Q: Predicate<T>>(p: P, q: Q, v: T) -> bool {
    p.test_requires(v) && q.test_requires(v)
}

/// Results of `p.xor(q)` on `v`.
pub open spec fn xor_ensures<T, P: Predicate<T>, Q: Predicate<T>>(p: P, q: Q, v: T, r: bool) -> bool {
    if r {
        (p.test_ensures(v, true) && q.test_ensures(v, false)) || (p.test_ensures(v, false) && q.test_ensures(v, true))
    } else {
        (p.test_ensures(v, true) && q.test_ensures(v, true)) || (p.test_ensures(v, false) && q.test_ensures(v, false))
    }
}

/// A predicate with a fixed answer.
struct ConstantPredicate {
    answer: bool,
}

impl<T> Predicate<T> for ConstantPredicate {
    closed spec fn test_requires(&self, value: T) -> bool {
        true
    }

    closed spec fn test_ensures(&self, value: T, result: bool) -> bool {
        result == self.answer
    }

    fn test(&self, value: &T) -> (result: bool) {
        self.answer
    }
}

/// Short-circuit conjunction of two predicates.
struct AndPredicate<P, Q> {
    first: P,
    second: Q,
}

impl<T, P: Predicate<T>, Q: Predicate<T>> Predicate<T> for AndPredicate<P, Q> {
    closed spec fn test_requires(&self, value: T) -> bool {
        and_requires(self.first, self.second, value)
    }

    closed spec fn test_ensures(&self, value: T, result: bool) -> bool {
        and_ensures(self.first, self.second, value, result)
    }

    fn test(&self, value: &T) -> (result: bool) {
        self.first.test(value) && self.second.test(value)
    }
}

/// Short-circuit disjunction of two predicates.
struct OrPredicate<P, Q> {
    first: P,
    second: Q,
}

impl<T, P: Predicate<T>, Q: Predicate<T>> Predicate<T> for OrPredicate<P, Q> {
    closed spec fn test_requires(&self, value: T) -> bool {
        or_requires(self.first, self.second, value)
    }

    closed spec fn test_ensures(&self, value: T, result: bool) -> bool {
        or_ensures(self.first, self.second, value, result)
    }

    fn test(&self, value: &T) -> (result: bool) {
        self.first.test(value) || self.second.test(value)
    }
}

/// Negation of a predicate.
struct NotPredicate<P> {
    inner: P,
}

impl<T, P: Predicate<T>> Predicate<T> for NotPredicate<P> {
    closed spec fn test_requires(&self, value: T) -> bool {
        self.inner.test_requires(value)
    }

    closed spec fn test_ensures(&self, value: T, result: bool) -> bool {
        self.inner.test_ensures(value, !result)
    }

    fn test(&self, value: &T) -> (result: bool) {
        !self.inner.test(value)
    }
}

/// Negated short-circuit conjunction.
struct NandPredicate<P, Q> {
    first: P,
    second: Q,
}

impl<T, P: Predicate<T>, Q: Predicate<T>> Predicate<T> for NandPredicate<P, Q> {
    closed spec fn test_requires(&self, value: T) -> bool {
        and_requires(self.first, self.second, value)
    }

    closed spec fn test_ensures(&self, value: T, result: bool) -> bool {
        and_ensures(self.first, self.second, value, !result)
    }

    fn test(&self, value: &T) -> (result: bool) {
        !(self.first.test(value) && self.second.test(value))
    }
}

/// Exclusive or: both predicates are always tested.
struct XorPredicate<P, Q> {
    first: P,
    second: Q,
}

impl<T, P: Predicate<T>, Q: Predicate<T>> Predicate<T> for XorPredicate<P, Q> {
    closed spec fn test_requires(&self, value: T) -> bool {
        xor_requires(self.first, self.second, value)
    }

    closed spec fn test_ensures(&self, value: T, result: bool) -> bool {
        xor_ensures(self.first, self.second, value, result)
    }

    fn test(&self, value: &T) -> (result: bool) {
        let a = self.first.test(value);
        let b = self.second.test(value);
        a ^ b
    }
}

/// Negated short-circuit disjunction.
struct NorPredicate<P, Q> {
    first: P,
    second: Q,
}

impl<T, P: Predicate<T>, Q: Predicate<T>> Predicate<T> for NorPredicate<P, Q> {
    closed spec fn test_requires(&self, value: T) -> bool {
        or_requires(self.first, self.second, value)
    }

    closed spec fn test_ensures(&self, value: T, result: bool) -> bool {
        or_ensures(self.first, self.second, value, !result)
    }

    fn test(&self, value: &T) -> (result: bool) {
        !(self.first.test(value) || self.second.test(value))
    }
}

/// A predicate that may be shared between threads: the same behaviour as a
/// `Predicate`, for values that are `Send + Sync`.
pub trait SharedPredicate<T>: Send + Sync {
    /// Values on which the predicate may be tested.
    spec fn shared_test_requires(&self, value: T) -> bool;

    /// Results the predicate may give for a value.
    spec fn shared_test_ensures(&self, value: T, result: bool) -> bool;

    /// Tests `value`.
    fn shared_test(&self, value: &T) -> (result: bool)
        requires
            self.shared_test_requires(*value),
        ensures
            self.shared_test_ensures(*value, result),
    ;
}

impl<T, P: Predicate<T> + Send + Sync> SharedPredicate<T> for P {
    open spec fn shared_test_requires(&self, value: T) -> bool {
        self.test_requires(value)
    }

    open spec fn shared_test_ensures(&self, value: T, result: bool) -> bool {
        self.test_ensures(value, result)
    }

    fn shared_test(&self, value: &T) -> (result: bool) {
        self.test(value)
    }
}

/// A predicate with single ownership.
#[verifier::reject_recursive_types(T)]
pub struct BoxPredicate<T> {
    function: Box<dyn Predicate<T>>,
    name: Option<String>,
}

impl<T> BoxPredicate<T> {
    /// The predicate's name, as characters.
    pub closed spec fn name_spec(&self) -> Option<Seq<char>> {
        name_view(self.name)
    }
}

impl<T: 'static> BoxPredicate<T> {
    /// Wraps any predicate, without a name.
    pub(crate) fn wrap<P>(p: P) -> (res: Self)
        where P: Predicate<T> + 'static
        ensures
            same_predicate(res, p),
    {
        BoxPredicate { function: Box::new(p), name: None }
    }

    /// Wraps a closure.
    pub fn new<F>(f: F) -> (res: Self)
        where F: Fn(&T) -> bool + 'static
        ensures
            forall|v: T| #[trigger] res.test_requires(v) == f.requires((&v,)),
            forall|v: T, r: bool| #[trigger] res.test_ensures(v, r) == f.ensures((&v,), r),
            res.name_spec() is None,
    {
        BoxPredicate { function: Box::new(f), name: None }
    }

    /// Wraps a closure and names it.
    pub fn new_with_name<F>(name: &str, f: F) -> (res: Self)
        where F: Fn(&T) -> bool + 'static
        ensures
            forall|v: T| #[trigger] res.test_requires(v) == f.requires((&v,)),
            forall|v: T, r: bool| #[trigger] res.test_ensures(v, r) == f.ensures((&v,), r),
            res.name_spec() == Some(name@),
    {
        BoxPredicate { function: Box::new(f), name: owned_name(name) }
    }

    /// A predicate that accepts every value.
    pub fn always_true() -> (res: Self)
        ensures
            forall|v: T| #[trigger] res.test_requires(v),
            forall|v: T, r: bool| #[trigger] res.test_ensures(v, r) == r,
            res.name_spec() == Some(ALWAYS_TRUE_NAME@),
    {
        BoxPredicate { function: Box::new(ConstantPredicate { answer: true }), name: owned_name(ALWAYS_TRUE_NAME) }
    }

    /// A predicate that rejects every value.
    pub fn always_false() -> (res: Self)
        ensures
            forall|v: T| #[trigger] res.test_requires(v),
            forall|v: T, r: bool| #[trigger] res.test_ensures(v, r) == !r,
            res.name_spec() == Some(ALWAYS_FALSE_NAME@),
    {
        BoxPredicate { function: Box::new(ConstantPredicate { answer: false }), name: owned_name(ALWAYS_FALSE_NAME) }
    }

    /// The predicate's name, if it has one.
    pub fn name(&self) -> (res: Option<&str>)
        ensures
            match res {
                Some(s) => self.name_spec() == Some(s@),
                None => self.name_spec() is None,
            },
    {
        name_as_str(&self.name)
    }

    /// The text that shows the predicate: `BoxPredicate(name)`, or `BoxPredicate(unnamed)`
    /// when it has no name.
    pub fn to_string(&self) -> (res: String)
        ensures
            res@ == shown_with_default("BoxPredicate"@, self.name_spec()),
    {
        show_with_default("BoxPredicate", &self.name)
    }

    /// Names the predicate.
    pub fn set_name(&mut self, name: &str)
        ensures
            final(self).name_spec() == Some(name@),
            same_predicate(*final(self), *old(self)),
    {
        self.name = owned_name(name);
    }

    /// Short-circuit conjunction with `other`.
    pub fn and<P>(self, other: P) -> (res: BoxPredicate<T>)
        where P: Predicate<T> + 'static
        ensures
            forall|v: T| #[trigger] res.test_requires(v) == and_requires(self, other, v),
            forall|v: T, r: bool| #[trigger] res.test_ensures(v, r) == and_ensures(self, other, v, r),
            res.name_spec() is None,
    {
        BoxPredicate { function: Box::new(AndPredicate { first: self, second: other }), name: None }
    }

    /// Short-circuit disjunction with `other`.
    pub fn or<P>(self, other: P) -> (res: BoxPredicate<T>)
        where P: Predicate<T> + 'static
        ensures
            forall|v: T| #[trigger] res.test_requires(v) == or_requires(self, other, v),
            forall|v: T, r: bool| #[trigger] res.test_ensures(v, r) == or_ensures(self, other, v, r),
            res.name_spec() is None,
    {
        BoxPredicate { function: Box::new(OrPredicate { first: self, second: other }), name: None }
    }

    /// Negation.
    pub fn not(self) -> (res: BoxPredicate<T>)
        ensures
            forall|v: T| #[trigger] res.test_requires(v) == self.test_requires(v),
            forall|v: T, r: bool| #[trigger] res.test_ensures(v, r) == self.test_ensures(v, !r),
            res.name_spec() is None,
    {
        BoxPredicate { function: Box::new(NotPredicate { inner: self }), name: None }
    }

    /// Negated conjunction with `other`.
    pub fn nand<P>(self, other: P) -> (res: BoxPredicate<T>)
        where P: Predicate<T> + 'static
        ensures
            forall|v: T| #[trigger] res.test_requires(v) == and_requires(self, other, v),
            forall|v: T, r: bool| #[trigger] res.test_ensures(v, r) == and_ensures(self, other, v, !r),
            res.name_spec() is None,
    {
        BoxPredicate { function: Box::new(NandPredicate { first: self, second: other }), name: None }
    }

    /// Exclusive or with `other`.
    pub fn xor<P>(self, other: P) -> (res: BoxPredicate<T>)
        where P: Predicate<T> + 'static
        ensures
            forall|v: T| #[trigger] res.test_requires(v) == xor_requires(self, other, v),
            forall|v: T, r: bool| #[trigger] res.test_ensures(v, r) == xor_ensures(self, other, v, r),
            res.name_spec() is None,
    {
        BoxPredicate { function: Box::new(XorPredicate { first: self, second: other }), name: None }
    }

    /// Negated disjunction with `other`.
    pub fn nor<P>(self, other: P) -> (res: BoxPredicate<T>)
        where P: Predicate<T> + 'static
        ensures
            forall|v: T| #[trigger] res.test_requires(v) == or_requires(self, other, v),
            forall|v: T, r: bool| #[trigger] res.test_ensures(v, r) == or_ensures(self, other, v, !r),
            res.name_spec() is None,
    {
        BoxPredicate { function: Box::new(NorPredicate { first: self, second: other }), name: None }
    }
}

impl<T: 'static> Predicate<T> for BoxPredicate<T> {
    closed spec fn test_requires(&self, value: T) -> bool {
        self.function.test_requires(value)
    }

    closed spec fn test_ensures(&self, value: T, result: bool) -> bool {
        self.function.test_ensures(value, result)
    }

    fn test(&self, value: &T) -> (result: bool) {
        self.function.test(value)
    }


}

/// A predicate with shared single-threaded ownership; clones share it.
#[verifier::reject_recursive_types(T)]
pub struct RcPredicate<T> {
    function: Rc<Box<dyn Predicate<T>>>,
    name: Option<String>,
}

impl<T> RcPredicate<T> {
    /// The predicate's name, as characters.
    pub closed spec fn name_spec(&self) -> Option<Seq<char>> {
        name_view(self.name)
    }
}

impl<T> Clone for RcPredicate<T> {
    /// Another handle to the same predicate, with the same name.
    fn clone(&self) -> (res: Self)
        ensures
            same_predicate(res, *self),
            res.name_spec() == self.name_spec(),
    {
        RcPredicate { function: rc_share(&self.function), name: copy_name(&self.name) }
    }
}

impl<T: 'static> RcPredicate<T> {
    /// Another handle to the same predicate, without a name.
    fn handle(&self) -> (res: Self)
        ensures
            same_predicate(res, *self),
    {
        RcPredicate { function: rc_share(&self.function), name: None }
    }

    /// Wraps any predicate, without a name.
    pub(crate) fn wrap<P>(p: P) -> (res: Self)
        where P: Predicate<T> + 'static
        ensures
            same_predicate(res, p),
    {
        let b: Box<dyn Predicate<T>> = Box::new(p);
        RcPredicate { function: Rc::new(b), name: None }
    }

    /// Wraps a closure.
    pub fn new<F>(f: F) -> (res: Self)
        where F: Fn(&T) -> bool + 'static
        ensures
            forall|v: T| #[trigger] res.test_requires(v) == f.requires((&v,)),
            forall|v: T, r: bool| #[trigger] res.test_ensures(v, r) == f.ensures((&v,), r),
            res.name_spec() is None,
    {
        let b: Box<dyn Predicate<T>> = Box::new(f);
        RcPredicate { function: Rc::new(b), name: None }
    }

    /// Wraps a closure and names it.
    pub fn new_with_name<F>(name: &str, f: F) -> (res: Self)
        where F: Fn(&T) -> bool + 'static
        ensures
            forall|v: T| #[trigger] res.test_requires(v) == f.requires((&v,)),
            forall|v: T, r: bool| #[trigger] res.test_ensures(v, r) == f.ensures((&v,), r),
            res.name_spec() == Some(name@),
    {
        let b: Box<dyn Predicate<T>> = Box::new(f);
        RcPredicate { function: Rc::new(b), name: owned_name(name) }
    }

    /// A predicate that accepts every value.
    pub fn always_true() -> (res: Self)
        ensures
            forall|v: T| #[trigger] res.test_requires(v),
            forall|v: T, r: bool| #[trigger] res.test_ensures(v, r) == r,
            res.name_spec() == Some(ALWAYS_TRUE_NAME@),
    {
        let b: Box<dyn Predicate<T>> = Box::new(ConstantPredicate { answer: true });
        RcPredicate { function: Rc::new(b), name: owned_name(ALWAYS_TRUE_NAME) }
    }

    /// A predicate that rejects every value.
    pub fn always_false() -> (res: Self)
        ensures
            forall|v: T| #[trigger] res.test_requires(v),
            forall|v: T, r: bool| #[trigger] res.test_ensures(v, r) == !r,
            res.name_spec() == Some(ALWAYS_FALSE_NAME@),
    {
        let b: Box<dyn Predicate<T>> = Box::new(ConstantPredicate { answer: false });
        RcPredicate { function: Rc::new(b), name: owned_name(ALWAYS_FALSE_NAME) }
    }

    /// The predicate's name, if it has one.
    pub fn name(&self) -> (res: Option<&str>)
        ensures
            match res {
                Some(s) => self.name_spec() == Some(s@),
                None => self.name_spec() is None,
            },
    {
        name_as_str(&self.name)
    }

    /// The text that shows the predicate: `RcPredicate(name)`, or `RcPredicate(unnamed)`
    /// when it has no name.
    pub fn to_string(&self) -> (res: String)
        ensures
            res@ == shown_with_default("RcPredicate"@, self.name_spec()),
    {
        show_with_default("RcPredicate", &self.name)
    }

    /// Names the predicate.
    pub fn set_name(&mut self, name: &str)
        ensures
            final(self).name_spec() == Some(name@),
            same_predicate(*final(self), *old(self)),
    {
        self.name = owned_name(name);
    }

    /// Short-circuit conjunction with `other`; `self` stays usable.
    pub fn and<P>(&self, other: P) -> (res: RcPredicate<T>)
        where P: Predicate<T> + 'static
        ensures
            forall|v: T| #[trigger] res.test_requires(v) == and_requires(*self, other, v),
            forall|v: T, r: bool| #[trigger] res.test_ensures(v, r) == and_ensures(*self, other, v, r),
            res.name_spec() is None,
    {
        let b: Box<dyn Predicate<T>> = Box::new(AndPredicate { first: self.handle(), second: other });
        RcPredicate { function: Rc::new(b), name: None }
    }

    /// Short-circuit disjunction with `other`; `self` stays usable.
    pub fn or<P>(&self, other: P) -> (res: RcPredicate<T>)
        where P: Predicate<T> + 'static
        ensures
            forall|v: T| #[trigger] res.test_requires(v) == or_requires(*self, other, v),
            forall|v: T, r: bool| #[trigger] res.test_ensures(v, r) == or_ensures(*self, other, v, r),
            res.name_spec() is None,
    {
        let b: Box<dyn Predicate<T>> = Box::new(OrPredicate { first: self.handle(), second: other });
        RcPredicate { function: Rc::new(b), name: None }
    }

    /// Negation; `self` stays usable.
    pub fn not(&self) -> (res: RcPredicate<T>)
        ensures
            forall|v: T| #[trigger] res.test_requires(v) == self.test_requires(v),
            forall|v: T, r: bool| #[trigger] res.test_ensures(v, r) == self.test_ensures(v, !r),
            res.name_spec() is None,
    {
        let b: Box<dyn Predicate<T>> = Box::new(NotPredicate { inner: self.handle() });
        RcPredicate { function: Rc::new(b), name: None }
    }

    /// Negated conjunction with `other`; `self` stays usable.
    pub fn nand<P>(&self, other: P) -> (res: RcPredicate<T>)
        where P: Predicate<T> + 'static
        ensures
            forall|v: T| #[trigger] res.test_requires(v) == and_requires(*self, other, v),
            forall|v: T, r: bool| #[trigger] res.test_ensures(v, r) == and_ensures(*self, other, v, !r),
            res.name_spec() is None,
    {
        let b: Box<dyn Predicate<T>> = Box::new(NandPredicate { first: self.handle(), second: other });
        RcPredicate { function: Rc::new(b), name: None }
    }

    /// Exclusive or with `other`; `self` stays usable.
    pub fn xor<P>(&self, other: P) -> (res: RcPredicate<T>)
        where P: Predicate<T> + 'static
        ensures
            forall|v: T| #[trigger] res.test_requires(v) == xor_requires(*self, other, v),
            forall|v: T, r: bool| #[trigger] res.test_ensures(v, r) == xor_ensures(*self, other, v, r),
            res.name_spec() is None,
    {
        let b: Box<dyn Predicate<T>> = Box::new(XorPredicate { first: self.handle(), second: other });
        RcPredicate { function: Rc::new(b), name: None }
    }

    /// Negated disjunction with `other`; `self` stays usable.
    pub fn nor<P>(&self, other: P) -> (res: RcPredicate<T>)
        where P: Predicate<T> + 'static
        ensures
            forall|v: T| #[trigger] res.test_requires(v) == or_requires(*self, other, v),
            forall|v: T, r: bool| #[trigger] res.test_ensures(v, r) == or_ensures(*self, other, v, !r),
            res.name_spec() is None,
    {
        let b: Box<dyn Predicate<T>> = Box::new(NorPredicate { first: self.handle(), second: other });
        RcPredicate { function: Rc::new(b), name: None }
    }

    /// A `BoxPredicate` sharing this predicate, with the same name.
    pub fn to_box(&self) -> (res: BoxPredicate<T>)
        ensures
            same_predicate(res, *self),
            res.name_spec() == self.name_spec(),
    {
        BoxPredicate { function: Box::new(self.handle()), name: copy_name(&self.name) }
    }

    /// A closure sharing this predicate.
    pub fn to_fn(&self) -> (res: impl Fn(&T) -> bool)
        ensures
            forall|v: T| self.test_requires(v) ==> #[trigger] res.requires((&v,)),
            forall|v: T, r: bool| #[trigger] res.ensures((&v,), r) ==> self.test_ensures(v, r),
    {
        let p = self.handle();
        move |value: &T| -> (r: bool)
            requires
                p.test_requires(*value),
            ensures
                p.test_ensures(*value, r),
        {
            p.test(value)
        }
    }
}

impl<T: 'static> Predicate<T> for RcPredicate<T> {
    closed spec fn test_requires(&self, value: T) -> bool {
        self.function.test_requires(value)
    }

    closed spec fn test_ensures(&self, value: T, result: bool) -> bool {
        self.function.test_ensures(value, result)
    }

    fn test(&self, value: &T) -> (result: bool) {
        self.function.test(value)
    }


}

/// A predicate with shared, thread-safe ownership; clones share it.
#[verifier::reject_recursive_types(T)]
pub struct ArcPredicate<T> {
    function: Arc<Box<dyn SharedPredicate<T>>>,
    name: Option<String>,
}

impl<T> ArcPredicate<T> {
    /// The predicate's name, as characters.
    pub closed spec fn name_spec(&self) -> Option<Seq<char>> {
        name_view(self.name)
    }
}

impl<T> Clone for ArcPredicate<T> {
    /// Another handle to the same predicate, with the same name.
    fn clone(&self) -> (res: Self)
        ensures
            same_predicate(res, *self),
            res.name_spec() == self.name_spec(),
    {
        ArcPredicate { function: arc_share(&self.function), name: copy_name(&self.name) }
    }
}

impl<T: 'static> ArcPredicate<T> {
    /// Another handle to the same predicate, without a name.
    fn handle(&self) -> (res: Self)
        ensures
            same_predicate(res, *self),
    {
        ArcPredicate { function: arc_share(&self.function), name: None }
    }

    /// Wraps any thread-safe predicate, without a name.
    pub(crate) fn wrap<P>(p: P) -> (res: Self)
        where P: Predicate<T> + Send + Sync + 'static
        ensures
            same_predicate(res, p),
    {
        let b: Box<dyn SharedPredicate<T>> = Box::new(p);
        ArcPredicate { function: Arc::new(b), name: None }
    }

    /// Wraps a thread-safe closure.
    pub fn new<F>(f: F) -> (res: Self)
        where F: Fn(&T) -> bool + Send + Sync + 'static
        ensures
            forall|v: T| #[trigger] res.test_requires(v) == f.requires((&v,)),
            forall|v: T, r: bool| #[trigger] res.test_ensures(v, r) == f.ensures((&v,), r),
            res.name_spec() is None,
    {
        let b: Box<dyn SharedPredicate<T>> = Box::new(f);
        ArcPredicate { function: Arc::new(b), name: None }
    }

    /// Wraps a thread-safe closure and names it.
    pub fn new_with_name<F>(name: &str, f: F) -> (res: Self)
        where F: Fn(&T) -> bool + Send + Sync + 'static
        ensures
            forall|v: T| #[trigger] res.test_requires(v) == f.requires((&v,)),
            forall|v: T, r: bool| #[trigger] res.test_ensures(v, r) == f.ensures((&v,), r),
            res.name_spec() == Some(name@),
    {
        let b: Box<dyn SharedPredicate<T>> = Box::new(f);
        ArcPredicate { function: Arc::new(b), name: owned_name(name) }
    }

    /// A predicate that accepts every value.
    pub fn always_true() -> (res: Self)
        ensures
            forall|v: T| #[trigger] res.test_requires(v),
            forall|v: T, r: bool| #[trigger] res.test_ensures(v, r) == r,
            res.name_spec() == Some(ALWAYS_TRUE_NAME@),
    {
        let b: Box<dyn SharedPredicate<T>> = Box::new(ConstantPredicate { answer: true });
        ArcPredicate { function: Arc::new(b), name: owned_name(ALWAYS_TRUE_NAME) }
    }

    /// A predicate that rejects every value.
    pub fn always_false() -> (res: Self)
        ensures
            forall|v: T| #[trigger] res.test_requires(v),
            forall|v: T, r: bool| #[trigger] res.test_ensures(v, r) == !r,
            res.name_spec() == Some(ALWAYS_FALSE_NAME@),
    {
        let b: Box<dyn SharedPredicate<T>> = Box::new(ConstantPredicate { answer: false });
        ArcPredicate { function: Arc::new(b), name: owned_name(ALWAYS_FALSE_NAME) }
    }

    /// The predicate's name, if it has one.
    pub fn name(&self) -> (res: Option<&str>)
        ensures
            match res {
                Some(s) => self.name_spec() == Some(s@),
                None => self.name_spec() is None,
            },
    {
        name_as_str(&self.name)
    }

    /// The text that shows the predicate: `ArcPredicate(name)`, or `ArcPredicate(unnamed)`
    /// when it has no name.
    pub fn to_string(&self) -> (res: String)
        ensures
            res@ == shown_with_default("ArcPredicate"@, self.name_spec()),
    {
        show_with_default("ArcPredicate", &self.name)
    }

    /// Names the predicate.
    pub fn set_name(&mut self, name: &str)
        ensures
            final(self).name_spec() == Some(name@),
            same_predicate(*final(self), *old(self)),
    {
        self.name = owned_name(name);
    }

    /// Short-circuit conjunction with `other`; `self` stays usable.
    pub fn and<P>(&self, other: P) -> (res: ArcPredicate<T>)
        where T: Send + Sync, P: Predicate<T> + Send + Sync + 'static
        ensures
            forall|v: T| #[trigger] res.test_requires(v) == and_requires(*self, other, v),
            forall|v: T, r: bool| #[trigger] res.test_ensures(v, r) == and_ensures(*self, other, v, r),
            res.name_spec() is None,
    {
        let b: Box<dyn SharedPredicate<T>> = Box::new(AndPredicate { first: self.handle(), second: other });
        ArcPredicate { function: Arc::new(b), name: None }
    }

    /// Short-circuit disjunction with `other`; `self` stays usable.
    pub fn or<P>(&self, other: P) -> (res: ArcPredicate<T>)
        where T: Send + Sync, P: Predicate<T> + Send + Sync + 'static
        ensures
            forall|v: T| #[trigger] res.test_requires(v) == or_requires(*self, other, v),
            forall|v: T, r: bool| #[trigger] res.test_ensures(v, r) == or_ensures(*self, other, v, r),
            res.name_spec() is None,
    {
        let b: Box<dyn SharedPredicate<T>> = Box::new(OrPredicate { first: self.handle(), second: other });
        ArcPredicate { function: Arc::new(b), name: None }
    }

    /// Negation; `self` stays usable.
    pub fn not(&self) -> (res: ArcPredicate<T>)
        where T: Send + Sync
        ensures
            forall|v: T| #[trigger] res.test_requires(v) == self.test_requires(v),
            forall|v: T, r: bool| #[trigger] res.test_ensures(v, r) == self.test_ensures(v, !r),
            res.name_spec() is None,
    {
        let b: Box<dyn SharedPredicate<T>> = Box::new(NotPredicate { inner: self.handle() });
        ArcPredicate { function: Arc::new(b), name: None }
    }

    /// Negated conjunction with `other`; `self` stays usable.
    pub fn nand<P>(&self, other: P) -> (res: ArcPredicate<T>)
        where T: Send + Sync, P: Predicate<T> + Send + Sync + 'static
        ensures
            forall|v: T| #[trigger] res.test_requires(v) == and_requires(*self, other, v),
            forall|v: T, r: bool| #[trigger] res.test_ensures(v, r) == and_ensures(*self, other, v, !r),
            res.name_spec() is None,
    {
        let b: Box<dyn SharedPredicate<T>> = Box::new(NandPredicate { first: self.handle(), second: other });
        ArcPredicate { function: Arc::new(b), name: None }
    }

    /// Exclusive or with `other`; `self` stays usable.
    pub fn xor<P>(&self, other: P) -> (res: ArcPredicate<T>)
        where T: Send + Sync, P: Predicate<T> + Send + Sync + 'static
        ensures
            forall|v: T| #[trigger] res.test_requires(v) == xor_requires(*self, other, v),
            forall|v: T, r: bool| #[trigger] res.test_ensures(v, r) == xor_ensures(*self, other, v, r),
            res.name_spec() is None,
    {
        let b: Box<dyn SharedPredicate<T>> = Box::new(XorPredicate { first: self.handle(), second: other });
        ArcPredicate { function: Arc::new(b), name: None }
    }

    /// Negated disjunction with `other`; `self` stays usable.
    pub fn nor<P>(&self, other: P) -> (res: ArcPredicate<T>)
        where T: Send + Sync, P: Predicate<T> + Send + Sync + 'static
        ensures
            forall|v: T| #[trigger] res.test_requires(v) == or_requires(*self, other, v),
            forall|v: T, r: bool| #[trigger] res.test_ensures(v, r) == or_ensures(*self, other, v, !r),
            res.name_spec() is None,
    {
        let b: Box<dyn SharedPredicate<T>> = Box::new(NorPredicate { first: self.handle(), second: other });
        ArcPredicate { function: Arc::new(b), name: None }
    }

    /// A `BoxPredicate` sharing this predicate, with the same name.
    pub fn to_box(&self) -> (res: BoxPredicate<T>)
        ensures
            same_predicate(res, *self),
            res.name_spec() == self.name_spec(),
    {
        BoxPredicate { function: Box::new(self.handle()), name: copy_name(&self.name) }
    }

    /// An `RcPredicate` sharing this predicate, with the same name.
    pub fn to_rc(&self) -> (res: RcPredicate<T>)
        ensures
            same_predicate(res, *self),
            res.name_spec() == self.name_spec(),
    {
        let b: Box<dyn Predicate<T>> = Box::new(self.handle());
        RcPredicate { function: Rc::new(b), name: copy_name(&self.name) }
    }

    /// A closure sharing this predicate.
    pub fn to_fn(&self) -> (res: impl Fn(&T) -> bool)
        where T: Send + Sync
        ensures
            forall|v: T| self.test_requires(v) ==> #[trigger] res.requires((&v,)),
            forall|v: T, r: bool| #[trigger] res.ensures((&v,), r) ==> self.test_ensures(v, r),
    {
        let p = self.handle();
        move |value: &T| -> (r: bool)
            requires
                p.test_requires(*value),
            ensures
                p.test_ensures(*value, r),
        {
            p.test(value)
        }
    }
}

impl<T: 'static> Predicate<T> for ArcPredicate<T> {
    closed spec fn test_requires(&self, value: T) -> bool {
        self.function.shared_test_requires(value)
    }

    closed spec fn test_ensures(&self, value: T, result: bool) -> bool {
        self.function.shared_test_ensures(value, result)
    }

    fn test(&self, value: &T) -> (result: bool) {
        self.function.shared_test(value)
    }



}

/// A closure's behaviour as a predicate is its own precondition and
/// postcondition. Call this where a concrete closure is used, so that its
/// relation unfolds.
pub proof fn lemma_closure_predicate<T, F: Fn(&T) -> bool>(f: F)
    ensures
        forall|v: T| #[trigger] f.test_requires(v) == f.requires((&v,)),
        forall|v: T, r: bool| #[trigger] f.test_ensures(v, r) == f.ensures((&v,), r),
{
}

/// Every closure `Fn(&T) -> bool` is a predicate, with the closure's own
/// precondition and postcondition.
impl<T, F> Predicate<T> for F
    where F: Fn(&T) -> bool
{
    open spec fn test_requires(&self, value: T) -> bool {
        self.requires((&value,))
    }

    open spec fn test_ensures(&self, value: T, result: bool) -> bool {
        self.ensures((&value,), result)
    }

    fn test(&self, value: &T) -> (result: bool) {
        self(value)
    }
}

/// Composition methods on closures, producing `BoxPredicate`s.
pub trait FnPredicateOps<T>: Predicate<T> + Sized + 'static {
    /// Short-circuit conjunction with `other`.
    fn and<P>(self, other: P) -> (res: BoxPredicate<T>)
        where P: Predicate<T> + 'static, T: 'static
        ensures
            forall|v: T| #[trigger] res.test_requires(v) == and_requires(self, other, v),
            forall|v: T, r: bool| #[trigger] res.test_ensures(v, r) == and_ensures(self, other, v, r),
            res.name_spec() is None,
    ;

    /// Short-circuit disjunction with `other`.
    fn or<P>(self, other: P) -> (res: BoxPredicate<T>)
        where P: Predicate<T> + 'static, T: 'static
        ensures
            forall|v: T| #[trigger] res.test_requires(v) == or_requires(self, other, v),
            forall|v: T, r: bool| #[trigger] res.test_ensures(v, r) == or_ensures(self, other, v, r),
            res.name_spec() is None,
    ;

    /// Negation.
    fn not(self) -> (res: BoxPredicate<T>)
        where T: 'static
        ensures
            forall|v: T| #[trigger] res.test_requires(v) == self.test_requires(v),
            forall|v: T, r: bool| #[trigger] res.test_ensures(v, r) == self.test_ensures(v, !r),
            res.name_spec() is None,
    ;

    /// Negated conjunction with `other`.
    fn nand<P>(self, other: P) -> (res: BoxPredicate<T>)
        where P: Predicate<T> + 'static, T: 'static
        ensures
            forall|v: T| #[trigger] res.test_requires(v) == and_requires(self, other, v),
            forall|v: T, r: bool| #[trigger] res.test_ensures(v, r) == and_ensures(self, other, v, !r),
            res.name_spec() is None,
    ;

    /// Exclusive or with `other`.
    fn xor<P>(self, other: P) -> (res: BoxPredicate<T>)
        where P: Predicate<T> + 'static, T: 'static
        ensures
            forall|v: T| #[trigger] res.test_requires(v) == xor_requires(self, other, v),
            forall|v: T, r: bool| #[trigger] res.test_ensures(v, r) == xor_ensures(self, other, v, r),
            res.name_spec() is None,
    ;

    /// Negated disjunction with `other`.
    fn nor<P>(self, other: P) -> (res: BoxPredicate<T>)
        where P: Predicate<T> + 'static, T: 'static
        ensures
            forall|v: T| #[trigger] res.test_requires(v) == or_requires(self, other, v),
            forall|v: T, r: bool| #[trigger] res.test_ensures(v, r) == or_ensures(self, other, v, !r),
            res.name_spec() is None,
    ;
}



impl<T, F> FnPredicateOps<T> for F where F: Fn(&T) -> bool + 'static {
    fn and<P>(self, other: P) -> (res: BoxPredicate<T>)
        where P: Predicate<T> + 'static, T: 'static
    {
        BoxPredicate { function: Box::new(AndPredicate { first: self, second: other }), name: None }
    }

    fn or<P>(self, other: P) -> (res: BoxPredicate<T>)
        where P: Predicate<T> + 'static, T: 'static
    {
        BoxPredicate { function: Box::new(OrPredicate { first: self, second: other }), name: None }
    }

    fn not(self) -> (res: BoxPredicate<T>)
        where T: 'static
    {
        BoxPredicate { function: Box::new(NotPredicate { inner: self }), name: None }
    }

    fn nand<P>(self, other: P) -> (res: BoxPredicate<T>)
        where P: Predicate<T> + 'static, T: 'static
    {
        BoxPredicate { function: Box::new(NandPredicate { first: self, second: other }), name: None }
    }

    fn xor<P>(self, other: P) -> (res: BoxPredicate<T>)
        where P: Predicate<T> + 'static, T: 'static
    {
        BoxPredicate { function: Box::new(XorPredicate { first: self, second: other }), name: None }
    }

    fn nor<P>(self, other: P) -> (res: BoxPredicate<T>)
        where P: Predicate<T> + 'static, T: 'static
    {
        BoxPredicate { function: Box::new(NorPredicate { first: self, second: other }), name: None }
    }
}


/// Conversions of any predicate into the three ownership flavours, keeping
/// its behaviour.
pub trait IntoPredicate<T>: Predicate<T> + Sized + 'static {
    /// Converts into a `BoxPredicate` with the same behaviour.
    fn into_box(self) -> (res: BoxPredicate<T>)
        where T: 'static
        ensures
            same_predicate(res, self),
    ;

    /// Converts into an `RcPredicate` with the same behaviour.
    fn into_rc(self) -> (res: RcPredicate<T>)
        where T: 'static
        ensures
            same_predicate(res, self),
    ;

    /// Converts into an `ArcPredicate` with the same behaviour.
    fn into_arc(self) -> (res: ArcPredicate<T>)
        where Self: Send + Sync, T: Send + Sync + 'static
        ensures
            same_predicate(res, self),
    ;
}

/// Closures convert into unnamed predicates.
impl<T, F> IntoPredicate<T> for F where F: Fn(&T) -> bool + 'static {
    fn into_box(self) -> (res: BoxPredicate<T>)
        where T: 'static
    {
        BoxPredicate::new(self)
    }

    fn into_rc(self) -> (res: RcPredicate<T>)
        where T: 'static
    {
        RcPredicate::new(self)
    }

    fn into_arc(self) -> (res: ArcPredicate<T>)
        where Self: Send + Sync, T: Send + Sync + 'static
    {
        ArcPredicate::new(self)
    }
}

/// A `BoxPredicate` keeps its name through conversions.
impl<T: 'static> IntoPredicate<T> for BoxPredicate<T> {
    fn into_box(self) -> (res: BoxPredicate<T>)
        ensures
            res.name_spec() == self.name_spec(),
    {
        self
    }

    fn into_rc(self) -> (res: RcPredicate<T>)
        ensures
            res.name_spec() == self.name_spec(),
    {
        RcPredicate { function: Rc::new(self.function), name: self.name }
    }

    /// Only callable where the predicate is thread-safe, which a
    /// `BoxPredicate` never is.
    fn into_arc(self) -> (res: ArcPredicate<T>)
        where Self: Send + Sync, T: Send + Sync + 'static
    {
        let name = copy_name(&self.name);
        let b: Box<dyn SharedPredicate<T>> = Box::new(self);
        ArcPredicate { function: Arc::new(b), name: name }
    }
}

/// An `RcPredicate` keeps its name through conversions.
impl<T: 'static> IntoPredicate<T> for RcPredicate<T> {
    fn into_box(self) -> (res: BoxPredicate<T>)
        ensures
            res.name_spec() == self.name_spec(),
    {
        BoxPredicate { function: Box::new(self.handle()), name: self.name }
    }

    fn into_rc(self) -> (res: RcPredicate<T>)
        ensures
            res.name_spec() == self.name_spec(),
    {
        self
    }

    /// Only callable where the predicate is thread-safe, which an
    /// `RcPredicate` never is.
    fn into_arc(self) -> (res: ArcPredicate<T>)
        where Self: Send + Sync, T: Send + Sync + 'static
    {
        let name = copy_name(&self.name);
        let b: Box<dyn SharedPredicate<T>> = Box::new(self);
        ArcPredicate { function: Arc::new(b), name: name }
    }
}

/// An `ArcPredicate` keeps its name through conversions.
impl<T: 'static> IntoPredicate<T> for ArcPredicate<T> {
    fn into_box(self) -> (res: BoxPredicate<T>)
        ensures
            res.name_spec() == self.name_spec(),
    {
        BoxPredicate { function: Box::new(self.handle()), name: self.name }
    }

    fn into_rc(self) -> (res: RcPredicate<T>)
        ensures
            res.name_spec() == self.name_spec(),
    {
        let b: Box<dyn Predicate<T>> = Box::new(self.handle());
        RcPredicate { function: Rc::new(b), name: self.name }
    }

    fn into_arc(self) -> (res: ArcPredicate<T>)
        where Self: Send + Sync, T: Send + Sync + 'static
        ensures
            res.name_spec() == self.name_spec(),
    {
        self
    }
}


/// `n` behaves as the negation of `p`, as `p.not()` does.
pub open spec fn is_negation<T, N: Predicate<T>, P: Predicate<T>>(n: N, p: P) -> bool {
    &&& forall|v: T| #[trigger] n.test_requires(v) == p.test_requires(v)
    &&& forall|v: T, r: bool| #[trigger] n.test_ensures(v, r) == p.test_ensures(v, !r)
}

/// `c` behaves as the short-circuit conjunction of `p` and `q`, as
/// `p.and(q)` does.
pub open spec fn is_conjunction<T, C: Predicate<T>, P: Predicate<T>, Q: Predicate<T>>(c: C, p: P, q: Q) -> bool {
    &&& forall|v: T| #[trigger] c.test_requires(v) == and_requires(p, q, v)
    &&& forall|v: T, r: bool| #[trigger] c.test_ensures(v, r) == and_ensures(p, q, v, r)
}

/// `d` behaves as the short-circuit disjunction of `p` and `q`, as
/// `p.or(q)` does.
pub open spec fn is_disjunction<T, D: Predicate<T>, P: Predicate<T>, Q: Predicate<T>>(d: D, p: P, q: Q) -> bool {
    &&& forall|v: T| #[trigger] d.test_requires(v) == or_requires(p, q, v)
    &&& forall|v: T, r: bool| #[trigger] d.test_ensures(v, r) == or_ensures(p, q, v, r)
}

/// `p` may be tested on every value and gives `answer`, as `always_true`
/// and `always_false` do.
pub open spec fn is_constant<T, P: Predicate<T>>(p: P, answer: bool) -> bool {
    &&& forall|v: T| #[trigger] p.test_requires(v)
    &&& forall|v: T, r: bool| #[trigger] p.test_ensures(v, r) == (r == answer)
}

/// `p` gives at most one result for each value.
pub open spec fn is_deterministic<T, P: Predicate<T>>(p: P) -> bool {
    forall|v: T, a: bool, b: bool| #![trigger p.test_ensures(v, a), p.test_ensures(v, b)]
        p.test_ensures(v, a) && p.test_ensures(v, b) ==> a == b
}

/// Negating twice gives back the predicate it started from.
pub proof fn law_double_negation<T, P: Predicate<T>, N: Predicate<T>, M: Predicate<T>>(p: P, n: N, nn: M)
    requires
        is_negation(n, p),
        is_negation(nn, n),
    ensures
        same_predicate(nn, p),
{
    assert forall|v: T, r: bool| #[trigger] nn.test_ensures(v, r) == p.test_ensures(v, r) by {
        assert(nn.test_ensures(v, r) == n.test_ensures(v, !r));
        assert(n.test_ensures(v, !r) == p.test_ensures(v, !!r));
    }
}

/// `p.nand(q)` behaves as `p.and(q).not()`.
pub proof fn law_nand_is_negated_and<T, P: Predicate<T>, Q: Predicate<T>, C: Predicate<T>, N: Predicate<T>>(p: P, q: Q, c: C, n: N)
    requires
        is_conjunction(c, p, q),
        is_negation(n, c),
    ensures
        forall|v: T| #[trigger] n.test_requires(v) == and_requires(p, q, v),
        forall|v: T, r: bool| #[trigger] n.test_ensures(v, r) == and_ensures(p, q, v, !r),
{
    assert forall|v: T, r: bool| #[trigger] n.test_ensures(v, r) == and_ensures(p, q, v, !r) by {
        assert(n.test_ensures(v, r) == c.test_ensures(v, !r));
    }
}

/// `p.nor(q)` behaves as `p.or(q).not()`.
pub proof fn law_nor_is_negated_or<T, P: Predicate<T>, Q: Predicate<T>, D: Predicate<T>, N: Predicate<T>>(p: P, q: Q, d: D, n: N)
    requires
        is_disjunction(d, p, q),
        is_negation(n, d),
    ensures
        forall|v: T| #[trigger] n.test_requires(v) == or_requires(p, q, v),
        forall|v: T, r: bool| #[trigger] n.test_ensures(v, r) == or_ensures(p, q, v, !r),
{
    assert forall|v: T, r: bool| #[trigger] n.test_ensures(v, r) == or_ensures(p, q, v, !r) by {
        assert(n.test_ensures(v, r) == d.test_ensures(v, !r));
    }
}

/// De Morgan: `p.and(q).not()` behaves as `p.not().or(q.not())`.
pub proof fn law_de_morgan_and<T, P: Predicate<T>, Q: Predicate<T>, C: Predicate<T>, NC: Predicate<T>, NP: Predicate<T>, NQ: Predicate<T>, D: Predicate<T>>(
    p: P,
    q: Q,
    c: C,
    nc: NC,
    np: NP,
    nq: NQ,
    d: D,
)
    requires
        is_conjunction(c, p, q),
        is_negation(nc, c),
        is_negation(np, p),
        is_negation(nq, q),
        is_disjunction(d, np, nq),
    ensures
        same_predicate(nc, d),
{
    assert forall|v: T| #[trigger] nc.test_requires(v) == d.test_requires(v) by {
        assert(np.test_ensures(v, false) == p.test_ensures(v, true));
    }
    assert forall|v: T, r: bool| #[trigger] nc.test_ensures(v, r) == d.test_ensures(v, r) by {
        assert(nc.test_ensures(v, r) == c.test_ensures(v, !r));
        assert(np.test_ensures(v, true) == p.test_ensures(v, false));
        assert(np.test_ensures(v, false) == p.test_ensures(v, true));
        assert(nq.test_ensures(v, true) == q.test_ensures(v, false));
        assert(nq.test_ensures(v, false) == q.test_ensures(v, true));
    }
}

/// De Morgan: `p.or(q).not()` behaves as `p.not().and(q.not())`.
pub proof fn law_de_morgan_or<T, P: Predicate<T>, Q: Predicate<T>, D: Predicate<T>, ND: Predicate<T>, NP: Predicate<T>, NQ: Predicate<T>, C: Predicate<T>>(
    p: P,
    q: Q,
    d: D,
    nd: ND,
    np: NP,
    nq: NQ,
    c: C,
)
    requires
        is_disjunction(d, p, q),
        is_negation(nd, d),
        is_negation(np, p),
        is_negation(nq, q),
        is_conjunction(c, np, nq),
    ensures
        same_predicate(nd, c),
{
    assert forall|v: T| #[trigger] nd.test_requires(v) == c.test_requires(v) by {
        assert(np.test_ensures(v, true) == p.test_ensures(v, false));
    }
    assert forall|v: T, r: bool| #[trigger] nd.test_ensures(v, r) == c.test_ensures(v, r) by {
        assert(nd.test_ensures(v, r) == d.test_ensures(v, !r));
        assert(np.test_ensures(v, true) == p.test_ensures(v, false));
        assert(np.test_ensures(v, false) == p.test_ensures(v, true));
        assert(nq.test_ensures(v, true) == q.test_ensures(v, false));
        assert(nq.test_ensures(v, false) == q.test_ensures(v, true));
    }
}

/// A predicate that is always true is a unit of `and`: `p.and(t)` behaves
/// as `p`.
pub proof fn law_and_true_unit<T, P: Predicate<T>, U: Predicate<T>, C: Predicate<T>>(p: P, t: U, c: C)
    requires
        is_constant(t, true),
        is_conjunction(c, p, t),
    ensures
        same_predicate(c, p),
{
    assert forall|v: T, r: bool| #[trigger] c.test_ensures(v, r) == p.test_ensures(v, r) by {
        assert(t.test_ensures(v, true));
        assert(!t.test_ensures(v, false));
    }
}

/// A predicate that is always false is a unit of `or`: `p.or(f)` behaves
/// as `p`.
pub proof fn law_or_false_unit<T, P: Predicate<T>, U: Predicate<T>, D: Predicate<T>>(p: P, f: U, d: D)
    requires
        is_constant(f, false),
        is_disjunction(d, p, f),
    ensures
        same_predicate(d, p),
{
    assert forall|v: T, r: bool| #[trigger] d.test_ensures(v, r) == p.test_ensures(v, r) by {
        assert(f.test_ensures(v, false));
        assert(!f.test_ensures(v, true));
    }
}

/// `and` short-circuits: when the first predicate is always false, the
/// conjunction is always false and the second predicate is never needed.
pub proof fn law_false_and_short_circuits<T, U: Predicate<T>, Q: Predicate<T>, C: Predicate<T>>(f: U, q: Q, c: C)
    requires
        is_constant(f, false),
        is_conjunction(c, f, q),
    ensures
        is_constant(c, false),
{
    assert forall|v: T, r: bool| #[trigger] c.test_ensures(v, r) == (r == false) by {
        assert(f.test_ensures(v, false));
        assert(!f.test_ensures(v, true));
    }
}

/// A deterministic predicate is never different from itself: `p.xor(p)`
/// never gives `true`.
pub proof fn law_xor_self_is_false<T, P: Predicate<T>, X: Predicate<T>>(p: P, x: X)
    requires
        is_deterministic(p),
        forall|v: T, r: bool| #[trigger] x.test_ensures(v, r) == xor_ensures(p, p, v, r),
    ensures
        forall|v: T| !(#[trigger] x.test_ensures(v, true)),
{
    assert forall|v: T| !(#[trigger] x.test_ensures(v, true)) by {
        if p.test_ensures(v, true) && p.test_ensures(v, false) {
            assert(false);
        }
    }
}

} // verus!
