//! Read-only bi-consumers: closures `Fn(&T, &U)` that observe pairs of
//! values without changing them, in three ownership flavours with chaining.
//!
//! Such a consumer returns nothing, so its behaviour is modelled by where it
//! may be called: `accept_requires(a, b)`. What it does outside the values it
//! is given (printing, logging) is not modelled.
use vstd::prelude::*;
use std::rc::Rc;
use std::sync::Arc;
use crate::shared::{name_view, rc_share, arc_share, copy_name, name_as_str, show_if_named, shown_if_named};

verus! {

/// An observer of pairs of values that leaves them unchanged.
pub trait ReadonlyBiConsumer<T, U> {
    /// Where the bi-consumer may be called.
    spec fn accept_requires(&self, first: T, second: U) -> bool;

    /// The consumers this one runs on each pair of values, in the order it runs
    /// them, each given by where it may be called.
    spec fn steps(&self) -> Seq<spec_fn(T, U) -> bool>;

    /// Observes the pairs of values.
    fn accept(&self, first: &T, second: &U)
        requires
            self.accept_requires(*first, *second),
    ;
}

/// Two bi-consumers may be called on the same pairs of values.
pub open spec fn same_readonly_bi_consumer<T, U, A: ReadonlyBiConsumer<T, U>, B: ReadonlyBiConsumer<T, U>>(a: A, b: B) -> bool {
    forall|x: T, y: U| #[trigger] a.accept_requires(x, y) == b.accept_requires(x, y)
}


/// `c` may be called exactly where both `a` and `b` may, as `a.and_then(b)`.
pub open spec fn is_chained_readonly_bi_consumer<T, U, C: ReadonlyBiConsumer<T, U>, A: ReadonlyBiConsumer<T, U>, B: ReadonlyBiConsumer<T, U>>(c: C, a: A, b: B) -> bool {
    forall|x: T, y: U| #[trigger] c.accept_requires(x, y) == (a.accept_requires(x, y) && b.accept_requires(x, y))
}

/// The no-op is a unit of chaining: `a.and_then(noop())` may be called
/// exactly where `a` may.
pub proof fn law_then_noop<T, U, A: ReadonlyBiConsumer<T, U>, N: ReadonlyBiConsumer<T, U>, C: ReadonlyBiConsumer<T, U>>(a: A, n: N, c: C)
    requires
        forall|x: T, y: U| #[trigger] n.accept_requires(x, y),
        is_chained_readonly_bi_consumer(c, a, n),
    ensures
        same_readonly_bi_consumer(c, a),
{
    assert(forall|x: T, y: U| #[trigger] c.accept_requires(x, y) == a.accept_requires(x, y) && n.accept_requires(x, y));
}

/// Chaining is associative: `(a then b) then c` may be called exactly where
/// `a then (b then c)` may.
pub proof fn law_chain_associative<T, U, A: ReadonlyBiConsumer<T, U>, B: ReadonlyBiConsumer<T, U>, C: ReadonlyBiConsumer<T, U>, AB: ReadonlyBiConsumer<T, U>, LeftNested: ReadonlyBiConsumer<T, U>, BC: ReadonlyBiConsumer<T, U>, RightNested: ReadonlyBiConsumer<T, U>>(
    a: A,
    b: B,
    c: C,
    ab: AB,
    ab_c: LeftNested,
    bc: BC,
    a_bc: RightNested,
)
    requires
        is_chained_readonly_bi_consumer(ab, a, b),
        is_chained_readonly_bi_consumer(ab_c, ab, c),
        is_chained_readonly_bi_consumer(bc, b, c),
        is_chained_readonly_bi_consumer(a_bc, a, bc),
    ensures
        same_readonly_bi_consumer(ab_c, a_bc),
{
}

/// `a.and_then(b)` runs `a`'s consumers first and then `b`'s, each once, on
/// the same pair of values: the chain's steps are `a`'s steps followed by `b`'s.
pub proof fn law_and_then_runs_first_then_second<T, U, A: ReadonlyBiConsumer<T, U>, B: ReadonlyBiConsumer<T, U>, C: ReadonlyBiConsumer<T, U>>(a: A, b: B, c: C)
    requires
        c.steps() == a.steps() + b.steps(),
    ensures
        c.steps().len() == a.steps().len() + b.steps().len(),
        c.steps().subrange(0, a.steps().len() as int) == a.steps(),
        c.steps().subrange(a.steps().len() as int, c.steps().len() as int) == b.steps(),
{
    assert(c.steps().subrange(0, a.steps().len() as int) =~= a.steps());
    assert(c.steps().subrange(a.steps().len() as int, c.steps().len() as int) =~= b.steps());
}

/// Chaining runs the same consumers in the same order however it is
/// grouped: `(a then b) then c` and `a then (b then c)` have the same steps.
pub proof fn law_steps_associative<T, U, A: ReadonlyBiConsumer<T, U>, B: ReadonlyBiConsumer<T, U>, C: ReadonlyBiConsumer<T, U>, AB: ReadonlyBiConsumer<T, U>, LeftNested: ReadonlyBiConsumer<T, U>, BC: ReadonlyBiConsumer<T, U>, RightNested: ReadonlyBiConsumer<T, U>>(
    a: A,
    b: B,
    c: C,
    ab: AB,
    ab_c: LeftNested,
    bc: BC,
    a_bc: RightNested,
)
    requires
        ab.steps() == a.steps() + b.steps(),
        ab_c.steps() == ab.steps() + c.steps(),
        bc.steps() == b.steps() + c.steps(),
        a_bc.steps() == a.steps() + bc.steps(),
    ensures
        ab_c.steps() == a_bc.steps(),
{
    assert(ab_c.steps() =~= a_bc.steps());
}

/// A bi-consumer that does nothing.
struct NoopConsumer;

impl<T, U> ReadonlyBiConsumer<T, U> for NoopConsumer {
    closed spec fn accept_requires(&self, first: T, second: U) -> bool {
        true
    }

    closed spec fn steps(&self) -> Seq<spec_fn(T, U) -> bool> {
        Seq::empty()
    }

    fn accept(&self, first: &T, second: &U) {
    }
}

/// Two bi-consumers called in turn on the same pairs of values.
struct ChainedConsumer<A, B> {
    first: A,
    second: B,
}

impl<T, U, A: ReadonlyBiConsumer<T, U>, B: ReadonlyBiConsumer<T, U>> ReadonlyBiConsumer<T, U> for ChainedConsumer<A, B> {
    closed spec fn accept_requires(&self, first: T, second: U) -> bool {
        self.first.accept_requires(first, second) && self.second.accept_requires(first, second)
    }

    closed spec fn steps(&self) -> Seq<spec_fn(T, U) -> bool> {
        self.first.steps() + self.second.steps()
    }

    fn accept(&self, first: &T, second: &U) {
        self.first.accept(first, second);
        self.second.accept(first, second);
    }
}

/// A bi-consumer that may be shared between threads.
pub trait SharedReadonlyBiConsumer<T, U>: Send + Sync {
    /// Where the bi-consumer may be called.
    spec fn shared_accept_requires(&self, first: T, second: U) -> bool;

    /// The consumers this one runs, in order.
    spec fn shared_steps(&self) -> Seq<spec_fn(T, U) -> bool>;

    /// Observes the pairs of values.
    fn shared_accept(&self, first: &T, second: &U)
        requires
            self.shared_accept_requires(*first, *second),
    ;
}

impl<T, U, C: ReadonlyBiConsumer<T, U> + Send + Sync> SharedReadonlyBiConsumer<T, U> for C {
    open spec fn shared_accept_requires(&self, first: T, second: U) -> bool {
        self.accept_requires(first, second)
    }

    open spec fn shared_steps(&self) -> Seq<spec_fn(T, U) -> bool> {
        self.steps()
    }

    fn shared_accept(&self, first: &T, second: &U) {
        self.accept(first, second)
    }
}

/// A closure's behaviour as a read-only bi-consumer is its own precondition and
/// postcondition. Call this where a concrete closure is used, so that its
/// relation unfolds.
pub proof fn lemma_closure_readonly_bi_consumer<T, U, F: Fn(&T, &U)>(f: F)
    ensures
        forall|x: T, y: U| #[trigger] f.accept_requires(x, y) == f.requires((&x, &y)),
        f.steps() == seq![|x: T, y: U| f.requires((&x, &y))],
{
}

/// Every closure `Fn(&T, &U)` is a read-only bi-consumer, with the closure's own
/// precondition.
impl<T, U, F> ReadonlyBiConsumer<T, U> for F where F: Fn(&T, &U) {
    open spec fn accept_requires(&self, first: T, second: U) -> bool {
        self.requires((&first, &second))
    }

    open spec fn steps(&self) -> Seq<spec_fn(T, U) -> bool> {
        seq![|x: T, y: U| self.requires((&x, &y))]
    }

    fn accept(&self, first: &T, second: &U) {
        self(first, second)
    }
}

/// A read-only bi-consumer with single ownership.
#[verifier::reject_recursive_types(T)]
#[verifier::reject_recursive_types(U)]
pub struct BoxReadonlyBiConsumer<T, U> {
    function: Box<dyn ReadonlyBiConsumer<T, U>>,
    name: Option<String>,
}

impl<T, U> BoxReadonlyBiConsumer<T, U> {
    /// The bi-consumer's name, as characters.
    pub closed spec fn name_spec(&self) -> Option<Seq<char>> {
        name_view(self.name)
    }
}

impl<T, U> BoxReadonlyBiConsumer<T, U> where T: 'static, U: 'static {
    /// Wraps a closure.
    pub fn new<F>(f: F) -> (res: Self)
        where F: Fn(&T, &U) + 'static
        ensures
            forall|x: T, y: U| #[trigger] res.accept_requires(x, y) == f.requires((&x, &y)),
            res.steps() == f.steps(),
            res.name_spec() is None,
    {
        BoxReadonlyBiConsumer { function: Box::new(f), name: None }
    }

    /// A bi-consumer that does nothing.
    pub fn noop() -> (res: Self)
        ensures
            forall|x: T, y: U| #[trigger] res.accept_requires(x, y),
            res.steps() == Seq::<spec_fn(T, U) -> bool>::empty(),
            res.name_spec() is None,
    {
        BoxReadonlyBiConsumer { function: Box::new(NoopConsumer), name: None }
    }

    /// The bi-consumer's name, if it has one.
    pub fn name(&self) -> (res: Option<&str>)
        ensures
            match res {
                Some(s) => self.name_spec() == Some(s@),
                None => self.name_spec() is None,
            },
    {
        name_as_str(&self.name)
    }

    /// The text that shows the bi-consumer: `BoxReadonlyBiConsumer(name)`, or `BoxReadonlyBiConsumer` when it
    /// has no name.
    pub fn to_string(&self) -> (res: String)
        ensures
            res@ == shown_if_named("BoxReadonlyBiConsumer"@, self.name_spec()),
    {
        show_if_named("BoxReadonlyBiConsumer", &self.name)
    }

    /// Names the bi-consumer.
    pub fn set_name<N: Into<String>>(&mut self, name: N)
        ensures
            exists|s: String| #[trigger] call_ensures(<N as Into<String>>::into, (name,), s) && final(self).name_spec() == Some(s@),
            same_readonly_bi_consumer(*final(self), *old(self)),
    {
        self.name = Some(name.into());
    }

    /// This bi-consumer, then `next`, on the same pairs of values.
    pub fn and_then<C>(self, next: C) -> (res: Self)
        where C: ReadonlyBiConsumer<T, U> + 'static
        ensures
            forall|x: T, y: U| #[trigger] res.accept_requires(x, y) == (self.accept_requires(x, y) && next.accept_requires(x, y)),
            res.steps() == self.steps() + next.steps(),
            res.name_spec() is None,
    {
        BoxReadonlyBiConsumer { function: Box::new(ChainedConsumer { first: self, second: next }), name: None }
    }
}

impl<T, U> ReadonlyBiConsumer<T, U> for BoxReadonlyBiConsumer<T, U> where T: 'static, U: 'static {
    closed spec fn accept_requires(&self, first: T, second: U) -> bool {
        self.function.accept_requires(first, second)
    }

    closed spec fn steps(&self) -> Seq<spec_fn(T, U) -> bool> {
        self.function.steps()
    }

    fn accept(&self, first: &T, second: &U) {
        self.function.accept(first, second)
    }
}

/// A read-only bi-consumer with shared single-threaded ownership; clones share it.
#[verifier::reject_recursive_types(T)]
#[verifier::reject_recursive_types(U)]
pub struct RcReadonlyBiConsumer<T, U> {
    function: Rc<Box<dyn ReadonlyBiConsumer<T, U>>>,
    name: Option<String>,
}

impl<T, U> RcReadonlyBiConsumer<T, U> {
    /// The bi-consumer's name, as characters.
    pub closed spec fn name_spec(&self) -> Option<Seq<char>> {
        name_view(self.name)
    }
}

impl<T, U> Clone for RcReadonlyBiConsumer<T, U> {
    /// Another handle to the same bi-consumer, with the same name.
    fn clone(&self) -> (res: Self)
        ensures
            same_readonly_bi_consumer(res, *self),
            res.name_spec() == self.name_spec(),
    {
        RcReadonlyBiConsumer { function: rc_share(&self.function), name: copy_name(&self.name) }
    }
}

impl<T, U> RcReadonlyBiConsumer<T, U> where T: 'static, U: 'static {
    /// Another handle to the same bi-consumer, without a name.
    fn handle(&self) -> (res: Self)
        ensures
            same_readonly_bi_consumer(res, *self),
            res.steps() == self.steps(),
    {
        RcReadonlyBiConsumer { function: rc_share(&self.function), name: None }
    }
}

impl<T, U> RcReadonlyBiConsumer<T, U> where T: 'static, U: 'static {
    /// Wraps a closure.
    pub fn new<F>(f: F) -> (res: Self)
        where F: Fn(&T, &U) + 'static
        ensures
            forall|x: T, y: U| #[trigger] res.accept_requires(x, y) == f.requires((&x, &y)),
            res.steps() == f.steps(),
            res.name_spec() is None,
    {
        let b: Box<dyn ReadonlyBiConsumer<T, U>> = Box::new(f);
        RcReadonlyBiConsumer { function: Rc::new(b), name: None }
    }

    /// A bi-consumer that does nothing.
    pub fn noop() -> (res: Self)
        ensures
            forall|x: T, y: U| #[trigger] res.accept_requires(x, y),
            res.steps() == Seq::<spec_fn(T, U) -> bool>::empty(),
            res.name_spec() is None,
    {
        let b: Box<dyn ReadonlyBiConsumer<T, U>> = Box::new(NoopConsumer);
        RcReadonlyBiConsumer { function: Rc::new(b), name: None }
    }

    /// The bi-consumer's name, if it has one.
    pub fn name(&self) -> (res: Option<&str>)
        ensures
            match res {
                Some(s) => self.name_spec() == Some(s@),
                None => self.name_spec() is None,
            },
    {
        name_as_str(&self.name)
    }

    /// The text that shows the bi-consumer: `RcReadonlyBiConsumer(name)`, or `RcReadonlyBiConsumer` when it
    /// has no name.
    pub fn to_string(&self) -> (res: String)
        ensures
            res@ == shown_if_named("RcReadonlyBiConsumer"@, self.name_spec()),
    {
        show_if_named("RcReadonlyBiConsumer", &self.name)
    }

    /// Names the bi-consumer.
    pub fn set_name<N: Into<String>>(&mut self, name: N)
        ensures
            exists|s: String| #[trigger] call_ensures(<N as Into<String>>::into, (name,), s) && final(self).name_spec() == Some(s@),
            same_readonly_bi_consumer(*final(self), *old(self)),
    {
        self.name = Some(name.into());
    }

    /// This bi-consumer, then `next`, on the same pairs of values; both stay usable.
    pub fn and_then(&self, next: &RcReadonlyBiConsumer<T, U>) -> (res: RcReadonlyBiConsumer<T, U>)
        ensures
            forall|x: T, y: U| #[trigger] res.accept_requires(x, y) == (self.accept_requires(x, y) && next.accept_requires(x, y)),
            res.steps() == self.steps() + next.steps(),
            res.name_spec() is None,
    {
        let b: Box<dyn ReadonlyBiConsumer<T, U>> = Box::new(ChainedConsumer { first: self.handle(), second: next.handle() });
        RcReadonlyBiConsumer { function: Rc::new(b), name: None }
    }
}

impl<T, U> ReadonlyBiConsumer<T, U> for RcReadonlyBiConsumer<T, U> where T: 'static, U: 'static {
    closed spec fn accept_requires(&self, first: T, second: U) -> bool {
        self.function.accept_requires(first, second)
    }

    closed spec fn steps(&self) -> Seq<spec_fn(T, U) -> bool> {
        self.function.steps()
    }

    fn accept(&self, first: &T, second: &U) {
        self.function.accept(first, second)
    }
}

/// A read-only bi-consumer with shared thread-safe ownership; clones share it.
#[verifier::reject_recursive_types(T)]
#[verifier::reject_recursive_types(U)]
pub struct ArcReadonlyBiConsumer<T, U> {
    function: Arc<Box<dyn SharedReadonlyBiConsumer<T, U>>>,
    name: Option<String>,
}

impl<T, U> ArcReadonlyBiConsumer<T, U> {
    /// The bi-consumer's name, as characters.
    pub closed spec fn name_spec(&self) -> Option<Seq<char>> {
        name_view(self.name)
    }
}

impl<T, U> Clone for ArcReadonlyBiConsumer<T, U> {
    /// Another handle to the same bi-consumer, with the same name.
    fn clone(&self) -> (res: Self)
        ensures
            same_readonly_bi_consumer(res, *self),
            res.name_spec() == self.name_spec(),
    {
        ArcReadonlyBiConsumer { function: arc_share(&self.function), name: copy_name(&self.name) }
    }
}

impl<T, U> ArcReadonlyBiConsumer<T, U> where T: 'static, U: 'static {
    /// Another handle to the same bi-consumer, without a name.
    fn handle(&self) -> (res: Self)
        ensures
            same_readonly_bi_consumer(res, *self),
            res.steps() == self.steps(),
    {
        ArcReadonlyBiConsumer { function: arc_share(&self.function), name: None }
    }
}

impl<T, U> ArcReadonlyBiConsumer<T, U> where T: Send + Sync + 'static, U: Send + Sync + 'static {
    /// Wraps a closure.
    pub fn new<F>(f: F) -> (res: Self)
        where F: Fn(&T, &U) + Send + Sync + 'static
        ensures
            forall|x: T, y: U| #[trigger] res.accept_requires(x, y) == f.requires((&x, &y)),
            res.steps() == f.steps(),
            res.name_spec() is None,
    {
        let b: Box<dyn SharedReadonlyBiConsumer<T, U>> = Box::new(f);
        ArcReadonlyBiConsumer { function: Arc::new(b), name: None }
    }

    /// A bi-consumer that does nothing.
    pub fn noop() -> (res: Self)
        ensures
            forall|x: T, y: U| #[trigger] res.accept_requires(x, y),
            res.steps() == Seq::<spec_fn(T, U) -> bool>::empty(),
            res.name_spec() is None,
    {
        let b: Box<dyn SharedReadonlyBiConsumer<T, U>> = Box::new(NoopConsumer);
        ArcReadonlyBiConsumer { function: Arc::new(b), name: None }
    }

    /// The bi-consumer's name, if it has one.
    pub fn name(&self) -> (res: Option<&str>)
        ensures
            match res {
                Some(s) => self.name_spec() == Some(s@),
                None => self.name_spec() is None,
            },
    {
        name_as_str(&self.name)
    }

    /// The text that shows the bi-consumer: `ArcReadonlyBiConsumer(name)`, or `ArcReadonlyBiConsumer` when it
    /// has no name.
    pub fn to_string(&self) -> (res: String)
        ensures
            res@ == shown_if_named("ArcReadonlyBiConsumer"@, self.name_spec()),
    {
        show_if_named("ArcReadonlyBiConsumer", &self.name)
    }

    /// Names the bi-consumer.
    pub fn set_name<N: Into<String>>(&mut self, name: N)
        ensures
            exists|s: String| #[trigger] call_ensures(<N as Into<String>>::into, (name,), s) && final(self).name_spec() == Some(s@),
            same_readonly_bi_consumer(*final(self), *old(self)),
    {
        self.name = Some(name.into());
    }

    /// This bi-consumer, then `next`, on the same pairs of values; both stay usable.
    pub fn and_then(&self, next: &ArcReadonlyBiConsumer<T, U>) -> (res: ArcReadonlyBiConsumer<T, U>)
        ensures
            forall|x: T, y: U| #[trigger] res.accept_requires(x, y) == (self.accept_requires(x, y) && next.accept_requires(x, y)),
            res.steps() == self.steps() + next.steps(),
            res.name_spec() is None,
    {
        let b: Box<dyn SharedReadonlyBiConsumer<T, U>> = Box::new(ChainedConsumer { first: self.handle(), second: next.handle() });
        ArcReadonlyBiConsumer { function: Arc::new(b), name: None }
    }
}

impl<T, U> ReadonlyBiConsumer<T, U> for ArcReadonlyBiConsumer<T, U> where T: 'static, U: 'static {
    closed spec fn accept_requires(&self, first: T, second: U) -> bool {
        self.function.shared_accept_requires(first, second)
    }

    closed spec fn steps(&self) -> Seq<spec_fn(T, U) -> bool> {
        self.function.shared_steps()
    }

    fn accept(&self, first: &T, second: &U) {
        self.function.shared_accept(first, second)
    }
}

/// Conversions of a read-only bi-consumer into the three ownership flavours,
/// keeping where it may be called.
pub trait IntoReadonlyBiConsumer<T, U>: ReadonlyBiConsumer<T, U> + Sized + 'static {
    /// Converts into a `BoxReadonlyBiConsumer`.
    fn into_box(self) -> (res: BoxReadonlyBiConsumer<T, U>)
        where T: 'static, U: 'static
        ensures
            same_readonly_bi_consumer(res, self),
    ;

    /// Converts into an `RcReadonlyBiConsumer`.
    fn into_rc(self) -> (res: RcReadonlyBiConsumer<T, U>)
        where T: 'static, U: 'static
        ensures
            same_readonly_bi_consumer(res, self),
    ;

    /// Converts into an `ArcReadonlyBiConsumer`.
    fn into_arc(self) -> (res: ArcReadonlyBiConsumer<T, U>)
        where Self: Send + Sync, T: Send + Sync + 'static, U: Send + Sync + 'static
        ensures
            same_readonly_bi_consumer(res, self),
    ;

    /// Converts a clone into a `BoxReadonlyBiConsumer`; this one stays usable.
    fn to_box(&self) -> (res: BoxReadonlyBiConsumer<T, U>)
        where Self: Clone, T: 'static, U: 'static
        ensures
            exists|c: Self| #[trigger] cloned(*self, c) && same_readonly_bi_consumer(res, c),
    ;

    /// Converts a clone into an `RcReadonlyBiConsumer`; this one stays usable.
    fn to_rc(&self) -> (res: RcReadonlyBiConsumer<T, U>)
        where Self: Clone, T: 'static, U: 'static
        ensures
            exists|c: Self| #[trigger] cloned(*self, c) && same_readonly_bi_consumer(res, c),
    ;

    /// Converts a clone into an `ArcReadonlyBiConsumer`; this one stays usable.
    fn to_arc(&self) -> (res: ArcReadonlyBiConsumer<T, U>)
        where Self: Clone + Send + Sync, T: Send + Sync + 'static, U: Send + Sync + 'static
        ensures
            exists|c: Self| #[trigger] cloned(*self, c) && same_readonly_bi_consumer(res, c),
    ;
}

/// Closures convert by being wrapped.
impl<T, U, F> IntoReadonlyBiConsumer<T, U> for F where F: Fn(&T, &U) + 'static {
    fn into_box(self) -> (res: BoxReadonlyBiConsumer<T, U>)
        where T: 'static, U: 'static
    {
        BoxReadonlyBiConsumer::new(self)
    }

    fn into_rc(self) -> (res: RcReadonlyBiConsumer<T, U>)
        where T: 'static, U: 'static
    {
        RcReadonlyBiConsumer::new(self)
    }

    fn into_arc(self) -> (res: ArcReadonlyBiConsumer<T, U>)
        where Self: Send + Sync, T: Send + Sync + 'static, U: Send + Sync + 'static
    {
        ArcReadonlyBiConsumer::new(self)
    }

    fn to_box(&self) -> (res: BoxReadonlyBiConsumer<T, U>)
        where Self: Clone, T: 'static, U: 'static
    {
        let c = self.clone();
        proof {
            assert(cloned(*self, c));
        }
        c.into_box()
    }

    fn to_rc(&self) -> (res: RcReadonlyBiConsumer<T, U>)
        where Self: Clone, T: 'static, U: 'static
    {
        let c = self.clone();
        proof {
            assert(cloned(*self, c));
        }
        c.into_rc()
    }

    fn to_arc(&self) -> (res: ArcReadonlyBiConsumer<T, U>)
        where Self: Clone + Send + Sync, T: Send + Sync + 'static, U: Send + Sync + 'static
    {
        let c = self.clone();
        proof {
            assert(cloned(*self, c));
        }
        c.into_arc()
    }
}

impl<T, U> IntoReadonlyBiConsumer<T, U> for BoxReadonlyBiConsumer<T, U> where T: 'static, U: 'static {
    fn into_box(self) -> (res: BoxReadonlyBiConsumer<T, U>) {
        self
    }

    fn into_rc(self) -> (res: RcReadonlyBiConsumer<T, U>) {
        RcReadonlyBiConsumer { function: Rc::new(self.function), name: self.name }
    }

    /// Only callable where the bi-consumer is thread-safe, which a
    /// `BoxReadonlyBiConsumer` never is.
    fn into_arc(self) -> (res: ArcReadonlyBiConsumer<T, U>)
        where Self: Send + Sync, T: Send + Sync + 'static, U: Send + Sync + 'static
    {
        let b: Box<dyn SharedReadonlyBiConsumer<T, U>> = Box::new(self);
        ArcReadonlyBiConsumer { function: Arc::new(b), name: None }
    }

    fn to_box(&self) -> (res: BoxReadonlyBiConsumer<T, U>)
        where Self: Clone, T: 'static, U: 'static
    {
        let c = self.clone();
        proof {
            assert(cloned(*self, c));
        }
        c.into_box()
    }

    fn to_rc(&self) -> (res: RcReadonlyBiConsumer<T, U>)
        where Self: Clone, T: 'static, U: 'static
    {
        let c = self.clone();
        proof {
            assert(cloned(*self, c));
        }
        c.into_rc()
    }

    fn to_arc(&self) -> (res: ArcReadonlyBiConsumer<T, U>)
        where Self: Clone + Send + Sync, T: Send + Sync + 'static, U: Send + Sync + 'static
    {
        let c = self.clone();
        proof {
            assert(cloned(*self, c));
        }
        c.into_arc()
    }
}

impl<T, U> IntoReadonlyBiConsumer<T, U> for RcReadonlyBiConsumer<T, U> where T: 'static, U: 'static {
    fn into_box(self) -> (res: BoxReadonlyBiConsumer<T, U>) {
        BoxReadonlyBiConsumer { function: Box::new(self.handle()), name: self.name }
    }

    fn into_rc(self) -> (res: RcReadonlyBiConsumer<T, U>) {
        self
    }

    /// Only callable where the bi-consumer is thread-safe, which an
    /// `RcReadonlyBiConsumer` never is.
    fn into_arc(self) -> (res: ArcReadonlyBiConsumer<T, U>)
        where Self: Send + Sync, T: Send + Sync + 'static, U: Send + Sync + 'static
    {
        let b: Box<dyn SharedReadonlyBiConsumer<T, U>> = Box::new(self);
        ArcReadonlyBiConsumer { function: Arc::new(b), name: None }
    }

    fn to_box(&self) -> (res: BoxReadonlyBiConsumer<T, U>)
        where Self: Clone, T: 'static, U: 'static
        ensures
            same_readonly_bi_consumer(res, *self),
    {
        let c = self.clone();
        proof {
            assert(cloned(*self, c));
        }
        c.into_box()
    }

    fn to_rc(&self) -> (res: RcReadonlyBiConsumer<T, U>)
        where Self: Clone, T: 'static, U: 'static
        ensures
            same_readonly_bi_consumer(res, *self),
    {
        let c = self.clone();
        proof {
            assert(cloned(*self, c));
        }
        c.into_rc()
    }

    fn to_arc(&self) -> (res: ArcReadonlyBiConsumer<T, U>)
        where Self: Clone + Send + Sync, T: Send + Sync + 'static, U: Send + Sync + 'static
        ensures
            same_readonly_bi_consumer(res, *self),
    {
        let c = self.clone();
        proof {
            assert(cloned(*self, c));
        }
        c.into_arc()
    }
}

impl<T, U> IntoReadonlyBiConsumer<T, U> for ArcReadonlyBiConsumer<T, U> where T: 'static, U: 'static {
    fn into_box(self) -> (res: BoxReadonlyBiConsumer<T, U>) {
        BoxReadonlyBiConsumer { function: Box::new(self.handle()), name: self.name }
    }

    fn into_rc(self) -> (res: RcReadonlyBiConsumer<T, U>) {
        let b: Box<dyn ReadonlyBiConsumer<T, U>> = Box::new(self.handle());
        RcReadonlyBiConsumer { function: Rc::new(b), name: self.name }
    }

    fn into_arc(self) -> (res: ArcReadonlyBiConsumer<T, U>)
        where Self: Send + Sync, T: Send + Sync + 'static, U: Send + Sync + 'static
    {
        self
    }

    fn to_box(&self) -> (res: BoxReadonlyBiConsumer<T, U>)
        where Self: Clone, T: 'static, U: 'static
        ensures
            same_readonly_bi_consumer(res, *self),
    {
        let c = self.clone();
        proof {
            assert(cloned(*self, c));
        }
        c.into_box()
    }

    fn to_rc(&self) -> (res: RcReadonlyBiConsumer<T, U>)
        where Self: Clone, T: 'static, U: 'static
        ensures
            same_readonly_bi_consumer(res, *self),
    {
        let c = self.clone();
        proof {
            assert(cloned(*self, c));
        }
        c.into_rc()
    }

    fn to_arc(&self) -> (res: ArcReadonlyBiConsumer<T, U>)
        where Self: Clone + Send + Sync, T: Send + Sync + 'static, U: Send + Sync + 'static
        ensures
            same_readonly_bi_consumer(res, *self),
    {
        let c = self.clone();
        proof {
            assert(cloned(*self, c));
        }
        c.into_arc()
    }
}

/// Chaining methods on closures, producing `BoxReadonlyBiConsumer`s.
pub trait FnReadonlyBiConsumerOps<T, U>: ReadonlyBiConsumer<T, U> + Sized + 'static {
    /// This closure, then `next`, on the same pairs of values.
    fn and_then<C>(self, next: C) -> (res: BoxReadonlyBiConsumer<T, U>)
        where C: ReadonlyBiConsumer<T, U> + 'static, T: 'static, U: 'static
        ensures
            forall|x: T, y: U| #[trigger] res.accept_requires(x, y) == (self.accept_requires(x, y) && next.accept_requires(x, y)),
            res.steps() == self.steps() + next.steps(),
            res.name_spec() is None,
    ;
}

impl<T, U, F> FnReadonlyBiConsumerOps<T, U> for F where F: Fn(&T, &U) + 'static {
    fn and_then<C>(self, next: C) -> (res: BoxReadonlyBiConsumer<T, U>)
        where C: ReadonlyBiConsumer<T, U> + 'static, T: 'static, U: 'static
    {
        BoxReadonlyBiConsumer { function: Box::new(ChainedConsumer { first: self, second: next }), name: None }
    }
}

} // verus!
