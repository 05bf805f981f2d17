//! Read-only suppliers: closures `Fn() -> T` that produce values without
//! taking input, in three ownership flavours with `map`, `filter` and `zip`.
//!
//! A supplier's behaviour is modelled as a relation: `get_requires()` says
//! whether it may be called, and `get_ensures(v)` which values `v` it may
//! produce. A supplier that always returns the same value relates to exactly
//! that value.
use vstd::prelude::*;
use std::rc::Rc;
use std::sync::Arc;

use crate::predicate::Predicate;
use crate::shared::{rc_share, arc_share};
use crate::transformer::Transformer;

verus! {

/// A producer of values of type `T` that does not change when called.
pub trait ReadonlySupplier<T> {
    /// Whether the supplier may be called.
    spec fn get_requires(&self) -> bool;

    /// Values the supplier may produce.
    spec fn get_ensures(&self, value: T) -> bool;

    /// Produces a value.
    fn get(&self) -> (value: T)
        requires
            self.get_requires(),
        ensures
            self.get_ensures(value),
    ;
}

/// Two suppliers may be called alike and may produce the same values.
pub open spec fn same_readonly_supplier<T, A: ReadonlySupplier<T>, B: ReadonlySupplier<T>>(a: A, b: B) -> bool {
    &&& a.get_requires() == b.get_requires()
    &&& forall|v: T| #[trigger] a.get_ensures(v) == b.get_ensures(v)
}

/// When `s.map(m)` may be called: `m` accepts every value `s` may produce.
pub open spec fn map_requires<T, U, S: ReadonlySupplier<T>, M: Transformer<T, U>>(s: S, m: M) -> bool {
    &&& s.get_requires()
    &&& forall|v: T| #[trigger] s.get_ensures(v) ==> m.transform_requires(v)
}

/// Values of `s.map(m)`: `m` applied to a value of `s`.
pub open spec fn map_ensures<T, U, S: ReadonlySupplier<T>, M: Transformer<T, U>>(s: S, m: M, u: U) -> bool {
    exists|v: T| #[trigger] s.get_ensures(v) && m.transform_ensures(v, u)
}

/// When `s.filter(p)` may be called: `p` accepts every value `s` may produce.
pub open spec fn filter_requires<T, S: ReadonlySupplier<T>, P: Predicate<T>>(s: S, p: P) -> bool {
    &&& s.get_requires()
    &&& forall|v: T| #[trigger] s.get_ensures(v) ==> p.test_requires(v)
}

/// Values of `s.filter(p)`: a value of `s` that passed `p`, or `None` when a
/// value of `s` failed it.
pub open spec fn filter_ensures<T, S: ReadonlySupplier<T>, P: Predicate<T>>(s: S, p: P, o: Option<T>) -> bool {
    match o {
        Some(v) => s.get_ensures(v) && p.test_ensures(v, true),
        None => exists|v: T| #[trigger] s.get_ensures(v) && p.test_ensures(v, false),
    }
}

/// When `a.zip(b)` may be called.
pub open spec fn zip_requires<T, U, A: ReadonlySupplier<T>, B: ReadonlySupplier<U>>(a: A, b: B) -> bool {
    a.get_requires() && b.get_requires()
}

/// Values of `a.zip(b)`: a value of `a` paired with a value of `b`.
pub open spec fn zip_ensures<T, U, A: ReadonlySupplier<T>, B: ReadonlySupplier<U>>(a: A, b: B, pair: (T, U)) -> bool {
    a.get_ensures(pair.0) && b.get_ensures(pair.1)
}


/// `t` accepts every input and returns it unchanged.
pub open spec fn is_identity_transformer<T, M: Transformer<T, T>>(t: M) -> bool {
    &&& forall|x: T| #[trigger] t.transform_requires(x)
    &&& forall|x: T, y: T| #[trigger] t.transform_ensures(x, y) == (y == x)
}

/// Mapping with the identity changes nothing: `s.map(identity)` behaves as
/// `s`.
pub proof fn law_map_identity<T, S: ReadonlySupplier<T>, I: Transformer<T, T>, R: ReadonlySupplier<T>>(s: S, i: I, r: R)
    requires
        is_identity_transformer(i),
        r.get_requires() == map_requires(s, i),
        forall|v: T| #[trigger] r.get_ensures(v) == map_ensures(s, i, v),
    ensures
        same_readonly_supplier(r, s),
{
    assert forall|v: T| #[trigger] r.get_ensures(v) == s.get_ensures(v) by {
        if s.get_ensures(v) {
            assert(i.transform_ensures(v, v));
        }
    }
}

/// Filtering with a predicate that accepts every value never gives `None`,
/// and gives exactly the values of the source.
pub proof fn law_filter_accept_all<T, S: ReadonlySupplier<T>, P: Predicate<T>, R: ReadonlySupplier<Option<T>>>(s: S, p: P, r: R)
    requires
        forall|v: T| #[trigger] p.test_requires(v),
        forall|v: T, b: bool| #[trigger] p.test_ensures(v, b) == b,
        r.get_requires() == filter_requires(s, p),
        forall|o: Option<T>| #[trigger] r.get_ensures(o) == filter_ensures(s, p, o),
    ensures
        r.get_requires() == s.get_requires(),
        !r.get_ensures(None),
        forall|v: T| #[trigger] r.get_ensures(Some(v)) == s.get_ensures(v),
{
    assert(!r.get_ensures(None)) by {
        if r.get_ensures(None) {
            let v = choose|v: T| #[trigger] s.get_ensures(v) && p.test_ensures(v, false);
            assert(p.test_ensures(v, false) == false);
        }
    }
    assert forall|v: T| #[trigger] r.get_ensures(Some(v)) == s.get_ensures(v) by {
        assert(p.test_ensures(v, true));
    }
}

/// `s` may be called and gives exactly `v`.
pub open spec fn gives_only<T, S: ReadonlySupplier<T>>(s: S, v: T) -> bool {
    &&& s.get_requires()
    &&& forall|w: T| #[trigger] s.get_ensures(w) == (w == v)
}

/// Filtering a supplier that gives exactly `v` with a predicate that
/// answers exactly `keep` on `v` gives exactly `Some(v)` when `keep` holds
/// and `None` otherwise.
pub proof fn law_filter_single<T, S: ReadonlySupplier<T>, P: Predicate<T>, R: ReadonlySupplier<Option<T>>>(s: S, p: P, r: R, v: T, keep: bool)
    requires
        gives_only(s, v),
        p.test_requires(v),
        forall|b: bool| #[trigger] p.test_ensures(v, b) == (b == keep),
        r.get_requires() == filter_requires(s, p),
        forall|o: Option<T>| #[trigger] r.get_ensures(o) == filter_ensures(s, p, o),
    ensures
        gives_only(r, if keep { Some(v) } else { None }),
{
    assert(p.test_ensures(v, keep));
    assert(s.get_ensures(v));
    assert forall|o: Option<T>| #[trigger] r.get_ensures(o) == (o == if keep { Some(v) } else { None }) by {
        match o {
            Some(w) => {
                if r.get_ensures(o) {
                    assert(s.get_ensures(w));
                    assert(w == v);
                }
            },
            None => {
                if r.get_ensures(o) {
                    let x = choose|x: T| #[trigger] s.get_ensures(x) && p.test_ensures(x, false);
                    assert(x == v);
                }
            },
        }
    }
}

/// A supplier of clones of one value.
struct ConstantSupplier<T> {
    value: T,
}

impl<T: Clone> ReadonlySupplier<T> for ConstantSupplier<T> {
    closed spec fn get_requires(&self) -> bool {
        true
    }

    closed spec fn get_ensures(&self, value: T) -> bool {
        cloned(self.value, value)
    }

    fn get(&self) -> (value: T) {
        self.value.clone()
    }
}

/// A supplier followed by a transformer.
struct MappedSupplier<T, S, M> {
    source: S,
    mapper: M,
    input: Ghost<Option<T>>,
}

impl<T, U, S: ReadonlySupplier<T>, M: Transformer<T, U>> ReadonlySupplier<U> for MappedSupplier<T, S, M> {
    closed spec fn get_requires(&self) -> bool {
        map_requires(self.source, self.mapper)
    }

    closed spec fn get_ensures(&self, value: U) -> bool {
        map_ensures(self.source, self.mapper, value)
    }

    fn get(&self) -> (value: U) {
        let v = self.source.get();
        self.mapper.apply(v)
    }
}

/// A supplier whose values are kept only when a predicate accepts them.
struct FilteredSupplier<S, P> {
    source: S,
    predicate: P,
}

impl<T, S: ReadonlySupplier<T>, P: Predicate<T>> ReadonlySupplier<Option<T>> for FilteredSupplier<S, P> {
    closed spec fn get_requires(&self) -> bool {
        filter_requires(self.source, self.predicate)
    }

    closed spec fn get_ensures(&self, value: Option<T>) -> bool {
        filter_ensures(self.source, self.predicate, value)
    }

    fn get(&self) -> (value: Option<T>) {
        let v = self.source.get();
        if self.predicate.test(&v) {
            Some(v)
        } else {
            None
        }
    }
}

/// Two suppliers called in turn.
struct ZippedSupplier<A, B> {
    first: A,
    second: B,
}

impl<T, U, A: ReadonlySupplier<T>, B: ReadonlySupplier<U>> ReadonlySupplier<(T, U)> for ZippedSupplier<A, B> {
    closed spec fn get_requires(&self) -> bool {
        zip_requires(self.first, self.second)
    }

    closed spec fn get_ensures(&self, value: (T, U)) -> bool {
        zip_ensures(self.first, self.second, value)
    }

    fn get(&self) -> (value: (T, U)) {
        let a = self.first.get();
        let b = self.second.get();
        (a, b)
    }
}

/// A supplier that may be shared between threads.
pub trait SharedReadonlySupplier<T>: Send + Sync {
    /// Whether the supplier may be called.
    spec fn shared_get_requires(&self) -> bool;

    /// Values the supplier may produce.
    spec fn shared_get_ensures(&self, value: T) -> bool;

    /// Produces a value.
    fn shared_get(&self) -> (value: T)
        requires
            self.shared_get_requires(),
        ensures
            self.shared_get_ensures(value),
    ;
}

impl<T, S: ReadonlySupplier<T> + Send + Sync> SharedReadonlySupplier<T> for S {
    open spec fn shared_get_requires(&self) -> bool {
        self.get_requires()
    }

    open spec fn shared_get_ensures(&self, value: T) -> bool {
        self.get_ensures(value)
    }

    fn shared_get(&self) -> (value: T) {
        self.get()
    }
}

/// A closure's behaviour as a read-only supplier is its own precondition and
/// postcondition. Call this where a concrete closure is used, so that its
/// relation unfolds.
pub proof fn lemma_closure_readonly_supplier<T, F: Fn() -> T>(f: F)
    ensures
        f.get_requires() == f.requires(()),
        forall|v: T| #[trigger] f.get_ensures(v) == f.ensures((), v),
{
}

/// Every closure `Fn() -> T` is a read-only supplier, with the closure's own
/// precondition and postcondition.
impl<T, F> ReadonlySupplier<T> for F where F: Fn() -> T {
    open spec fn get_requires(&self) -> bool {
        self.requires(())
    }

    open spec fn get_ensures(&self, value: T) -> bool {
        self.ensures((), value)
    }

    fn get(&self) -> (value: T) {
        self()
    }
}

/// A read-only supplier with single ownership.
#[verifier::reject_recursive_types(T)]
pub struct BoxReadonlySupplier<T> {
    function: Box<dyn ReadonlySupplier<T>>,
}

impl<T: 'static> BoxReadonlySupplier<T> {
    /// Wraps a closure.
    pub fn new<F>(f: F) -> (res: Self)
        where F: Fn() -> T + 'static
        ensures
            res.get_requires() == f.requires(()),
            forall|v: T| #[trigger] res.get_ensures(v) == f.ensures((), v),
    {
        BoxReadonlySupplier { function: Box::new(f) }
    }

    /// A supplier of clones of `value`.
    pub fn constant(value: T) -> (res: Self)
        where T: Clone
        ensures
            res.get_requires(),
            forall|v: T| #[trigger] res.get_ensures(v) == cloned(value, v),
    {
        BoxReadonlySupplier { function: Box::new(ConstantSupplier { value }) }
    }

    /// The values of this supplier passed through `mapper`.
    pub fn map<U, M>(self, mapper: M) -> (res: BoxReadonlySupplier<U>)
        where M: Transformer<T, U> + 'static, U: 'static
        ensures
            res.get_requires() == map_requires(self, mapper),
            forall|u: U| #[trigger] res.get_ensures(u) == map_ensures(self, mapper, u),
    {
        BoxReadonlySupplier { function: Box::new(MappedSupplier { source: self, mapper, input: Ghost(None) }) }
    }

    /// The values of this supplier that pass `predicate`, `None` otherwise.
    pub fn filter<P>(self, predicate: P) -> (res: BoxReadonlySupplier<Option<T>>)
        where P: Fn(&T) -> bool + 'static
        ensures
            res.get_requires() == filter_requires(self, predicate),
            forall|o: Option<T>| #[trigger] res.get_ensures(o) == filter_ensures(self, predicate, o),
    {
        BoxReadonlySupplier { function: Box::new(FilteredSupplier { source: self, predicate }) }
    }

    /// Pairs of a value of this supplier and a value of `other`.
    pub fn zip<U>(self, other: BoxReadonlySupplier<U>) -> (res: BoxReadonlySupplier<(T, U)>)
        where U: 'static
        ensures
            res.get_requires() == zip_requires(self, other),
            forall|p: (T, U)| #[trigger] res.get_ensures(p) == zip_ensures(self, other, p),
    {
        BoxReadonlySupplier { function: Box::new(ZippedSupplier { first: self, second: other }) }
    }
}

impl<T: 'static> ReadonlySupplier<T> for BoxReadonlySupplier<T> {
    closed spec fn get_requires(&self) -> bool {
        self.function.get_requires()
    }

    closed spec fn get_ensures(&self, value: T) -> bool {
        self.function.get_ensures(value)
    }

    fn get(&self) -> (value: T) {
        self.function.get()
    }
}

/// A read-only supplier with shared single-threaded ownership; clones share it.
#[verifier::reject_recursive_types(T)]
pub struct RcReadonlySupplier<T> {
    function: Rc<Box<dyn ReadonlySupplier<T>>>,
}

impl<T> Clone for RcReadonlySupplier<T> {
    /// Another handle to the same supplier.
    fn clone(&self) -> (res: Self)
        ensures
            res == *self,
    {
        RcReadonlySupplier { function: rc_share(&self.function) }
    }
}

impl<T: 'static> RcReadonlySupplier<T> {
    /// Wraps a closure.
    pub fn new<F>(f: F) -> (res: Self)
        where F: Fn() -> T + 'static
        ensures
            res.get_requires() == f.requires(()),
            forall|v: T| #[trigger] res.get_ensures(v) == f.ensures((), v),
    {
        let b: Box<dyn ReadonlySupplier<T>> = Box::new(f);
        RcReadonlySupplier { function: Rc::new(b) }
    }

    /// A supplier of clones of `value`.
    pub fn constant(value: T) -> (res: Self)
        where T: Clone + 'static
        ensures
            res.get_requires(),
            forall|v: T| #[trigger] res.get_ensures(v) == cloned(value, v),
    {
        let b: Box<dyn ReadonlySupplier<T>> = Box::new(ConstantSupplier { value });
        RcReadonlySupplier { function: Rc::new(b) }
    }

    /// The values of this supplier passed through `mapper`; `self` stays
    /// usable.
    pub fn map<U, M>(&self, mapper: M) -> (res: RcReadonlySupplier<U>)
        where M: Transformer<T, U> + 'static, U: 'static
        ensures
            res.get_requires() == map_requires(*self, mapper),
            forall|u: U| #[trigger] res.get_ensures(u) == map_ensures(*self, mapper, u),
    {
        let b: Box<dyn ReadonlySupplier<U>> = Box::new(MappedSupplier { source: self.clone(), mapper, input: Ghost(None) });
        RcReadonlySupplier { function: Rc::new(b) }
    }

    /// The values of this supplier that pass `predicate`, `None` otherwise;
    /// `self` stays usable.
    pub fn filter<P>(&self, predicate: P) -> (res: RcReadonlySupplier<Option<T>>)
        where P: Fn(&T) -> bool + 'static
        ensures
            res.get_requires() == filter_requires(*self, predicate),
            forall|o: Option<T>| #[trigger] res.get_ensures(o) == filter_ensures(*self, predicate, o),
    {
        let b: Box<dyn ReadonlySupplier<Option<T>>> = Box::new(FilteredSupplier { source: self.clone(), predicate });
        RcReadonlySupplier { function: Rc::new(b) }
    }

    /// Pairs of a value of this supplier and a value of `other`; both stay
    /// usable.
    pub fn zip<U>(&self, other: &RcReadonlySupplier<U>) -> (res: RcReadonlySupplier<(T, U)>)
        where U: 'static
        ensures
            res.get_requires() == zip_requires(*self, *other),
            forall|p: (T, U)| #[trigger] res.get_ensures(p) == zip_ensures(*self, *other, p),
    {
        let b: Box<dyn ReadonlySupplier<(T, U)>> = Box::new(ZippedSupplier { first: self.clone(), second: other.clone() });
        RcReadonlySupplier { function: Rc::new(b) }
    }

    /// A `BoxReadonlySupplier` sharing this supplier.
    pub fn to_box(&self) -> (res: BoxReadonlySupplier<T>)
        ensures
            same_readonly_supplier(res, *self),
    {
        BoxReadonlySupplier { function: Box::new(self.clone()) }
    }

}

impl<T: 'static> ReadonlySupplier<T> for RcReadonlySupplier<T> {
    closed spec fn get_requires(&self) -> bool {
        self.function.get_requires()
    }

    closed spec fn get_ensures(&self, value: T) -> bool {
        self.function.get_ensures(value)
    }

    fn get(&self) -> (value: T) {
        self.function.get()
    }
}

/// A read-only supplier with shared thread-safe ownership; clones share it.
#[verifier::reject_recursive_types(T)]
pub struct ArcReadonlySupplier<T> {
    function: Arc<Box<dyn SharedReadonlySupplier<T>>>,
}

impl<T> Clone for ArcReadonlySupplier<T> {
    /// Another handle to the same supplier.
    fn clone(&self) -> (res: Self)
        ensures
            res == *self,
    {
        ArcReadonlySupplier { function: arc_share(&self.function) }
    }
}

impl<T: 'static> ArcReadonlySupplier<T> {
    /// Wraps a closure.
    pub fn new<F>(f: F) -> (res: Self)
        where T: Send, F: Fn() -> T + Send + Sync + 'static
        ensures
            res.get_requires() == f.requires(()),
            forall|v: T| #[trigger] res.get_ensures(v) == f.ensures((), v),
    {
        let b: Box<dyn SharedReadonlySupplier<T>> = Box::new(f);
        ArcReadonlySupplier { function: Arc::new(b) }
    }

    /// A supplier of clones of `value`.
    pub fn constant(value: T) -> (res: Self)
        where T: Clone + Send + Sync + 'static
        ensures
            res.get_requires(),
            forall|v: T| #[trigger] res.get_ensures(v) == cloned(value, v),
    {
        let b: Box<dyn SharedReadonlySupplier<T>> = Box::new(ConstantSupplier { value });
        ArcReadonlySupplier { function: Arc::new(b) }
    }

    /// The values of this supplier passed through `mapper`; `self` stays
    /// usable.
    pub fn map<U, M>(&self, mapper: M) -> (res: ArcReadonlySupplier<U>)
        where T: Send, M: Transformer<T, U> + Send + Sync + 'static, U: Send + 'static
        ensures
            res.get_requires() == map_requires(*self, mapper),
            forall|u: U| #[trigger] res.get_ensures(u) == map_ensures(*self, mapper, u),
    {
        let b: Box<dyn SharedReadonlySupplier<U>> = Box::new(MappedSupplier { source: self.clone(), mapper, input: Ghost(None) });
        ArcReadonlySupplier { function: Arc::new(b) }
    }

    /// The values of this supplier that pass `predicate`, `None` otherwise;
    /// `self` stays usable.
    pub fn filter<P>(&self, predicate: P) -> (res: ArcReadonlySupplier<Option<T>>)
        where T: Send, P: Fn(&T) -> bool + Send + Sync + 'static
        ensures
            res.get_requires() == filter_requires(*self, predicate),
            forall|o: Option<T>| #[trigger] res.get_ensures(o) == filter_ensures(*self, predicate, o),
    {
        let b: Box<dyn SharedReadonlySupplier<Option<T>>> = Box::new(FilteredSupplier { source: self.clone(), predicate });
        ArcReadonlySupplier { function: Arc::new(b) }
    }

    /// Pairs of a value of this supplier and a value of `other`; both stay
    /// usable.
    pub fn zip<U>(&self, other: &ArcReadonlySupplier<U>) -> (res: ArcReadonlySupplier<(T, U)>)
        where T: Send, U: Send + 'static
        ensures
            res.get_requires() == zip_requires(*self, *other),
            forall|p: (T, U)| #[trigger] res.get_ensures(p) == zip_ensures(*self, *other, p),
    {
        let b: Box<dyn SharedReadonlySupplier<(T, U)>> = Box::new(ZippedSupplier { first: self.clone(), second: other.clone() });
        ArcReadonlySupplier { function: Arc::new(b) }
    }

    /// A `BoxReadonlySupplier` sharing this supplier.
    pub fn to_box(&self) -> (res: BoxReadonlySupplier<T>)
        ensures
            same_readonly_supplier(res, *self),
    {
        BoxReadonlySupplier { function: Box::new(self.clone()) }
    }

    /// An `RcReadonlySupplier` sharing this supplier.
    pub fn to_rc(&self) -> (res: RcReadonlySupplier<T>)
        ensures
            same_readonly_supplier(res, *self),
    {
        let b: Box<dyn ReadonlySupplier<T>> = Box::new(self.clone());
        RcReadonlySupplier { function: Rc::new(b) }
    }

}

impl<T: 'static> ReadonlySupplier<T> for ArcReadonlySupplier<T> {
    closed spec fn get_requires(&self) -> bool {
        self.function.shared_get_requires()
    }

    closed spec fn get_ensures(&self, value: T) -> bool {
        self.function.shared_get_ensures(value)
    }

    fn get(&self) -> (value: T) {
        self.function.shared_get()
    }
}

/// Conversions of a read-only supplier into the three ownership flavours,
/// keeping its behaviour.
pub trait IntoReadonlySupplier<T>: ReadonlySupplier<T> + Sized + 'static {
    /// Converts into a `BoxReadonlySupplier`.
    fn into_box(self) -> (res: BoxReadonlySupplier<T>)
        where T: 'static
        ensures
            same_readonly_supplier(res, self),
    ;

    /// Converts into an `RcReadonlySupplier`.
    fn into_rc(self) -> (res: RcReadonlySupplier<T>)
        where T: 'static
        ensures
            same_readonly_supplier(res, self),
    ;

    /// Converts into an `ArcReadonlySupplier`.
    fn into_arc(self) -> (res: ArcReadonlySupplier<T>)
        where Self: Send + Sync, T: Send + 'static
        ensures
            same_readonly_supplier(res, self),
    ;

    /// Converts a clone into a `BoxReadonlySupplier`; this one stays usable.
    fn to_box(&self) -> (res: BoxReadonlySupplier<T>)
        where Self: Clone, T: 'static
        ensures
            exists|c: Self| #[trigger] cloned(*self, c) && same_readonly_supplier(res, c),
    ;

    /// Converts a clone into an `RcReadonlySupplier`; this one stays usable.
    fn to_rc(&self) -> (res: RcReadonlySupplier<T>)
        where Self: Clone, T: 'static
        ensures
            exists|c: Self| #[trigger] cloned(*self, c) && same_readonly_supplier(res, c),
    ;

    /// Converts a clone into an `ArcReadonlySupplier`; this one stays usable.
    fn to_arc(&self) -> (res: ArcReadonlySupplier<T>)
        where Self: Clone + Send + Sync, T: Send + 'static
        ensures
            exists|c: Self| #[trigger] cloned(*self, c) && same_readonly_supplier(res, c),
    ;
}

/// Closures convert by being wrapped.
impl<T, F> IntoReadonlySupplier<T> for F where F: Fn() -> T + 'static {
    fn into_box(self) -> (res: BoxReadonlySupplier<T>)
        where T: 'static
    {
        BoxReadonlySupplier::new(self)
    }

    fn into_rc(self) -> (res: RcReadonlySupplier<T>)
        where T: 'static
    {
        RcReadonlySupplier::new(self)
    }

    fn into_arc(self) -> (res: ArcReadonlySupplier<T>)
        where Self: Send + Sync, T: Send + 'static
    {
        ArcReadonlySupplier::new(self)
    }

    fn to_box(&self) -> (res: BoxReadonlySupplier<T>)
        where Self: Clone, T: 'static
    {
        let c = self.clone();
        proof {
            assert(cloned(*self, c));
        }
        c.into_box()
    }

    fn to_rc(&self) -> (res: RcReadonlySupplier<T>)
        where Self: Clone, T: 'static
    {
        let c = self.clone();
        proof {
            assert(cloned(*self, c));
        }
        c.into_rc()
    }

    fn to_arc(&self) -> (res: ArcReadonlySupplier<T>)
        where Self: Clone + Send + Sync, T: Send + 'static
    {
        let c = self.clone();
        proof {
            assert(cloned(*self, c));
        }
        c.into_arc()
    }
}

impl<T: 'static> IntoReadonlySupplier<T> for BoxReadonlySupplier<T> {
    fn into_box(self) -> (res: BoxReadonlySupplier<T>) {
        self
    }

    fn into_rc(self) -> (res: RcReadonlySupplier<T>) {
        RcReadonlySupplier { function: Rc::new(self.function) }
    }

    /// Only callable where the supplier is thread-safe, which a
    /// `BoxReadonlySupplier` never is.
    fn into_arc(self) -> (res: ArcReadonlySupplier<T>)
        where Self: Send + Sync, T: Send + 'static
    {
        let b: Box<dyn SharedReadonlySupplier<T>> = Box::new(self);
        ArcReadonlySupplier { function: Arc::new(b) }
    }

    fn to_box(&self) -> (res: BoxReadonlySupplier<T>)
        where Self: Clone, T: 'static
    {
        let c = self.clone();
        proof {
            assert(cloned(*self, c));
        }
        c.into_box()
    }

    fn to_rc(&self) -> (res: RcReadonlySupplier<T>)
        where Self: Clone, T: 'static
    {
        let c = self.clone();
        proof {
            assert(cloned(*self, c));
        }
        c.into_rc()
    }

    fn to_arc(&self) -> (res: ArcReadonlySupplier<T>)
        where Self: Clone + Send + Sync, T: Send + 'static
    {
        let c = self.clone();
        proof {
            assert(cloned(*self, c));
        }
        c.into_arc()
    }
}

impl<T: 'static> IntoReadonlySupplier<T> for RcReadonlySupplier<T> {
    fn into_box(self) -> (res: BoxReadonlySupplier<T>) {
        BoxReadonlySupplier { function: Box::new(self) }
    }

    fn into_rc(self) -> (res: RcReadonlySupplier<T>) {
        self
    }

    /// Only callable where the supplier is thread-safe, which an
    /// `RcReadonlySupplier` never is.
    fn into_arc(self) -> (res: ArcReadonlySupplier<T>)
        where Self: Send + Sync, T: Send + 'static
    {
        let b: Box<dyn SharedReadonlySupplier<T>> = Box::new(self);
        ArcReadonlySupplier { function: Arc::new(b) }
    }

    fn to_box(&self) -> (res: BoxReadonlySupplier<T>)
        where Self: Clone, T: 'static
        ensures
            same_readonly_supplier(res, *self),
    {
        let c = self.clone();
        proof {
            assert(cloned(*self, c));
        }
        c.into_box()
    }

    fn to_rc(&self) -> (res: RcReadonlySupplier<T>)
        where Self: Clone, T: 'static
        ensures
            same_readonly_supplier(res, *self),
    {
        let c = self.clone();
        proof {
            assert(cloned(*self, c));
        }
        c.into_rc()
    }

    fn to_arc(&self) -> (res: ArcReadonlySupplier<T>)
        where Self: Clone + Send + Sync, T: Send + 'static
        ensures
            same_readonly_supplier(res, *self),
    {
        let c = self.clone();
        proof {
            assert(cloned(*self, c));
        }
        c.into_arc()
    }
}

impl<T: 'static> IntoReadonlySupplier<T> for ArcReadonlySupplier<T> {
    fn into_box(self) -> (res: BoxReadonlySupplier<T>) {
        BoxReadonlySupplier { function: Box::new(self) }
    }

    fn into_rc(self) -> (res: RcReadonlySupplier<T>) {
        let b: Box<dyn ReadonlySupplier<T>> = Box::new(self);
        RcReadonlySupplier { function: Rc::new(b) }
    }

    fn into_arc(self) -> (res: ArcReadonlySupplier<T>)
        where Self: Send + Sync, T: Send + 'static
    {
        self
    }

    fn to_box(&self) -> (res: BoxReadonlySupplier<T>)
        where Self: Clone, T: 'static
        ensures
            same_readonly_supplier(res, *self),
    {
        let c = self.clone();
        proof {
            assert(cloned(*self, c));
        }
        c.into_box()
    }

    fn to_rc(&self) -> (res: RcReadonlySupplier<T>)
        where Self: Clone, T: 'static
        ensures
            same_readonly_supplier(res, *self),
    {
        let c = self.clone();
        proof {
            assert(cloned(*self, c));
        }
        c.into_rc()
    }

    fn to_arc(&self) -> (res: ArcReadonlySupplier<T>)
        where Self: Clone + Send + Sync, T: Send + 'static
        ensures
            same_readonly_supplier(res, *self),
    {
        let c = self.clone();
        proof {
            assert(cloned(*self, c));
        }
        c.into_arc()
    }
}

} // verus!
