//! Read-only consumers: closures `Fn(&T)` that observe values without
//! changing them, in three ownership flavours with chaining.
//!
//! Such a consumer returns nothing, so its behaviour is modelled by where it
//! may be called: `accept_requires(v)`. What it does outside the value it is
//! given (printing, logging) is not modelled.
use vstd::prelude::*;
use std::rc::Rc;
use std::sync::Arc;
use crate::shared::{name_view, rc_share, arc_share, copy_name, name_as_str, show_if_named, shown_if_named};

verus! {

/// An observer of values that leaves them unchanged.
pub trait ReadonlyConsumer<T> {
    /// Where the consumer may be called.
    spec fn accept_requires(&self, value: T) -> bool;

    /// The consumers this one runs on each value, in the order it runs
    /// them, each given by where it may be called.
    spec fn steps(&self) -> Seq<spec_fn(T) -> bool>;

    /// Observes the values.
    fn accept(&self, value: &T)
        requires
            self.accept_requires(*value),
    ;
}

/// Two consumers may be called on the same values.
pub open spec fn same_readonly_consumer<T, A: ReadonlyConsumer<T>, B: ReadonlyConsumer<T>>(a: A, b: B) -> bool {
    forall|x: T| #[trigger] a.accept_requires(x) == b.accept_requires(x)
}


/// `c` may be called exactly where both `a` and `b` may, as `a.and_then(b)`.
pub open spec fn is_chained_readonly_consumer<T, C: ReadonlyConsumer<T>, A: ReadonlyConsumer<T>, B: ReadonlyConsumer<T>>(c: C, a: A, b: B) -> bool {
    forall|x: T| #[trigger] c.accept_requires(x) == (a.accept_requires(x) && b.accept_requires(x))
}

/// The no-op is a unit of chaining: `a.and_then(noop())` may be called
/// exactly where `a` may.
pub proof fn law_then_noop<T, A: ReadonlyConsumer<T>, N: ReadonlyConsumer<T>, C: ReadonlyConsumer<T>>(a: A, n: N, c: C)
    requires
        forall|x: T| #[trigger] n.accept_requires(x),
        is_chained_readonly_consumer(c, a, n),
    ensures
        same_readonly_consumer(c, a),
{
    assert(forall|x: T| #[trigger] c.accept_requires(x) == a.accept_requires(x) && n.accept_requires(x));
}

/// Chaining is associative: `(a then b) then c` may be called exactly where
/// `a then (b then c)` may.
pub proof fn law_chain_associative<T, A: ReadonlyConsumer<T>, B: ReadonlyConsumer<T>, C: ReadonlyConsumer<T>, AB: ReadonlyConsumer<T>, LeftNested: ReadonlyConsumer<T>, BC: ReadonlyConsumer<T>, RightNested: ReadonlyConsumer<T>>(
    a: A,
    b: B,
    c: C,
    ab: AB,
    ab_c: LeftNested,
    bc: BC,
    a_bc: RightNested,
)
    requires
        is_chained_readonly_consumer(ab, a, b),
        is_chained_readonly_consumer(ab_c, ab, c),
        is_chained_readonly_consumer(bc, b, c),
        is_chained_readonly_consumer(a_bc, a, bc),
    ensures
        same_readonly_consumer(ab_c, a_bc),
{
}

/// `a.and_then(b)` runs `a`'s consumers first and then `b`'s, each once, on
/// the same value: the chain's steps are `a`'s steps followed by `b`'s.
pub proof fn law_and_then_runs_first_then_second<T, A: ReadonlyConsumer<T>, B: ReadonlyConsumer<T>, C: ReadonlyConsumer<T>>(a: A, b: B, c: C)
    requires
        c.steps() == a.steps() + b.steps(),
    ensures
        c.steps().len() == a.steps().len() + b.steps().len(),
        c.steps().subrange(0, a.steps().len() as int) == a.steps(),
        c.steps().subrange(a.steps().len() as int, c.steps().len() as int) == b.steps(),
{
    assert(c.steps().subrange(0, a.steps().len() as int) =~= a.steps());
    assert(c.steps().subrange(a.steps().len() as int, c.steps().len() as int) =~= b.steps());
}

/// Chaining runs the same consumers in the same order however it is
/// grouped: `(a then b) then c` and `a then (b then c)` have the same steps.
pub proof fn law_steps_associative<T, A: ReadonlyConsumer<T>, B: ReadonlyConsumer<T>, C: ReadonlyConsumer<T>, AB: ReadonlyConsumer<T>, LeftNested: ReadonlyConsumer<T>, BC: ReadonlyConsumer<T>, RightNested: ReadonlyConsumer<T>>(
    a: A,
    b: B,
    c: C,
    ab: AB,
    ab_c: LeftNested,
    bc: BC,
    a_bc: RightNested,
)
    requires
        ab.steps() == a.steps() + b.steps(),
        ab_c.steps() == ab.steps() + c.steps(),
        bc.steps() == b.steps() + c.steps(),
        a_bc.steps() == a.steps() + bc.steps(),
    ensures
        ab_c.steps() == a_bc.steps(),
{
    assert(ab_c.steps() =~= a_bc.steps());
}

/// A consumer that does nothing.
struct NoopConsumer;

impl<T> ReadonlyConsumer<T> for NoopConsumer {
    closed spec fn accept_requires(&self, value: T) -> bool {
        true
    }

    closed spec fn steps(&self) -> Seq<spec_fn(T) -> bool> {
        Seq::empty()
    }

    fn accept(&self, value: &T) {
    }
}

/// Two consumers called in turn on the same values.
struct ChainedConsumer<A, B> {
    first: A,
    second: B,
}

impl<T, A: ReadonlyConsumer<T>, B: ReadonlyConsumer<T>> ReadonlyConsumer<T> for ChainedConsumer<A, B> {
    closed spec fn accept_requires(&self, value: T) -> bool {
        self.first.accept_requires(value) && self.second.accept_requires(value)
    }

    closed spec fn steps(&self) -> Seq<spec_fn(T) -> bool> {
        self.first.steps() + self.second.steps()
    }

    fn accept(&self, value: &T) {
        self.first.accept(value);
        self.second.accept(value);
    }
}

/// A consumer that may be shared between threads.
pub trait SharedReadonlyConsumer<T>: Send + Sync {
    /// Where the consumer may be called.
    spec fn shared_accept_requires(&self, value: T) -> bool;

    /// The consumers this one runs, in order.
    spec fn shared_steps(&self) -> Seq<spec_fn(T) -> bool>;

    /// Observes the values.
    fn shared_accept(&self, value: &T)
        requires
            self.shared_accept_requires(*value),
    ;
}

impl<T, C: ReadonlyConsumer<T> + Send + Sync> SharedReadonlyConsumer<T> for C {
    open spec fn shared_accept_requires(&self, value: T) -> bool {
        self.accept_requires(value)
    }

    open spec fn shared_steps(&self) -> Seq<spec_fn(T) -> bool> {
        self.steps()
    }

    fn shared_accept(&self, value: &T) {
        self.accept(value)
    }
}

/// A closure's behaviour as a read-only consumer is its own precondition and
/// postcondition. Call this where a concrete closure is used, so that its
/// relation unfolds.
pub proof fn lemma_closure_readonly_consumer<T, F: Fn(&T)>(f: F)
    ensures
        forall|v: T| #[trigger] f.accept_requires(v) == f.requires((&v,)),
        f.steps() == seq![|v: T| f.requires((&v,))],
{
}

/// Every closure `Fn(&T)` is a read-only consumer, with the closure's own
/// precondition.
impl<T, F> ReadonlyConsumer<T> for F where F: Fn(&T) {
    open spec fn accept_requires(&self, value: T) -> bool {
        self.requires((&value,))
    }

    open spec fn steps(&self) -> Seq<spec_fn(T) -> bool> {
        seq![|v: T| self.requires((&v,))]
    }

    fn accept(&self, value: &T) {
        self(value)
    }
}

/// A read-only consumer with single ownership.
#[verifier::reject_recursive_types(T)]
pub struct BoxReadonlyConsumer<T> {
    function: Box<dyn ReadonlyConsumer<T>>,
    name: Option<String>,
}

impl<T> BoxReadonlyConsumer<T> {
    /// The consumer's name, as characters.
    pub closed spec fn name_spec(&self) -> Option<Seq<char>> {
        name_view(self.name)
    }
}

impl<T> BoxReadonlyConsumer<T> where T: 'static {
    /// Wraps a closure.
    pub fn new<F>(f: F) -> (res: Self)
        where F: Fn(&T) + 'static
        ensures
            forall|v: T| #[trigger] res.accept_requires(v) == f.requires((&v,)),
            res.steps() == f.steps(),
            res.name_spec() is None,
    {
        BoxReadonlyConsumer { function: Box::new(f), name: None }
    }

    /// A consumer that does nothing.
    pub fn noop() -> (res: Self)
        ensures
            forall|x: T| #[trigger] res.accept_requires(x),
            res.steps() == Seq::<spec_fn(T) -> bool>::empty(),
            res.name_spec() is None,
    {
        BoxReadonlyConsumer { function: Box::new(NoopConsumer), name: None }
    }

    /// The consumer's name, if it has one.
    pub fn name(&self) -> (res: Option<&str>)
        ensures
            match res {
                Some(s) => self.name_spec() == Some(s@),
                None => self.name_spec() is None,
            },
    {
        name_as_str(&self.name)
    }

    /// The text that shows the consumer: `BoxReadonlyConsumer(name)`, or `BoxReadonlyConsumer` when it
    /// has no name.
    pub fn to_string(&self) -> (res: String)
        ensures
            res@ == shown_if_named("BoxReadonlyConsumer"@, self.name_spec()),
    {
        show_if_named("BoxReadonlyConsumer", &self.name)
    }

    /// Names the consumer.
    pub fn set_name<N: Into<String>>(&mut self, name: N)
        ensures
            exists|s: String| #[trigger] call_ensures(<N as Into<String>>::into, (name,), s) && final(self).name_spec() == Some(s@),
            same_readonly_consumer(*final(self), *old(self)),
    {
        self.name = Some(name.into());
    }

    /// This consumer, then `next`, on the same values.
    pub fn and_then<C>(self, next: C) -> (res: Self)
        where C: ReadonlyConsumer<T> + 'static
        ensures
            forall|x: T| #[trigger] res.accept_requires(x) == (self.accept_requires(x) && next.accept_requires(x)),
            res.steps() == self.steps() + next.steps(),
            res.name_spec() is None,
    {
        BoxReadonlyConsumer { function: Box::new(ChainedConsumer { first: self, second: next }), name: None }
    }
}

impl<T> ReadonlyConsumer<T> for BoxReadonlyConsumer<T> where T: 'static {
    closed spec fn accept_requires(&self, value: T) -> bool {
        self.function.accept_requires(value)
    }

    closed spec fn steps(&self) -> Seq<spec_fn(T) -> bool> {
        self.function.steps()
    }

    fn accept(&self, value: &T) {
        self.function.accept(value)
    }
}

/// A read-only consumer with shared single-threaded ownership; clones share it.
#[verifier::reject_recursive_types(T)]
pub struct RcReadonlyConsumer<T> {
    function: Rc<Box<dyn ReadonlyConsumer<T>>>,
    name: Option<String>,
}

impl<T> RcReadonlyConsumer<T> {
    /// The consumer's name, as characters.
    pub closed spec fn name_spec(&self) -> Option<Seq<char>> {
        name_view(self.name)
    }
}

impl<T> Clone for RcReadonlyConsumer<T> {
    /// Another handle to the same consumer, with the same name.
    fn clone(&self) -> (res: Self)
        ensures
            same_readonly_consumer(res, *self),
            res.name_spec() == self.name_spec(),
    {
        RcReadonlyConsumer { function: rc_share(&self.function), name: copy_name(&self.name) }
    }
}

impl<T> RcReadonlyConsumer<T> where T: 'static {
    /// Another handle to the same consumer, without a name.
    fn handle(&self) -> (res: Self)
        ensures
            same_readonly_consumer(res, *self),
            res.steps() == self.steps(),
    {
        RcReadonlyConsumer { function: rc_share(&self.function), name: None }
    }
}

impl<T> RcReadonlyConsumer<T> where T: 'static {
    /// Wraps a closure.
    pub fn new<F>(f: F) -> (res: Self)
        where F: Fn(&T) + 'static
        ensures
            forall|v: T| #[trigger] res.accept_requires(v) == f.requires((&v,)),
            res.steps() == f.steps(),
            res.name_spec() is None,
    {
        let b: Box<dyn ReadonlyConsumer<T>> = Box::new(f);
        RcReadonlyConsumer { function: Rc::new(b), name: None }
    }

    /// The consumer's name, if it has one.
    pub fn name(&self) -> (res: Option<&str>)
        ensures
            match res {
                Some(s) => self.name_spec() == Some(s@),
                None => self.name_spec() is None,
            },
    {
        name_as_str(&self.name)
    }

    /// The text that shows the consumer: `RcReadonlyConsumer(name)`, or `RcReadonlyConsumer` when it
    /// has no name.
    pub fn to_string(&self) -> (res: String)
        ensures
            res@ == shown_if_named("RcReadonlyConsumer"@, self.name_spec()),
    {
        show_if_named("RcReadonlyConsumer", &self.name)
    }

    /// Names the consumer.
    pub fn set_name<N: Into<String>>(&mut self, name: N)
        ensures
            exists|s: String| #[trigger] call_ensures(<N as Into<String>>::into, (name,), s) && final(self).name_spec() == Some(s@),
            same_readonly_consumer(*final(self), *old(self)),
    {
        self.name = Some(name.into());
    }

    /// This consumer, then `next`, on the same values; both stay usable.
    pub fn and_then(&self, next: &RcReadonlyConsumer<T>) -> (res: RcReadonlyConsumer<T>)
        ensures
            forall|x: T| #[trigger] res.accept_requires(x) == (self.accept_requires(x) && next.accept_requires(x)),
            res.steps() == self.steps() + next.steps(),
            res.name_spec() is None,
    {
        let b: Box<dyn ReadonlyConsumer<T>> = Box::new(ChainedConsumer { first: self.handle(), second: next.handle() });
        RcReadonlyConsumer { function: Rc::new(b), name: None }
    }

    /// A closure sharing this consumer.
    pub fn to_fn(&self) -> (res: impl Fn(&T))
        ensures
            forall|x: T| self.accept_requires(x) ==> #[trigger] res.requires((&x,)),
    {
        let c = self.handle();
        move |value: &T|
            requires
                c.accept_requires(*value),
        {
            c.accept(value)
        }
    }
}

impl<T> ReadonlyConsumer<T> for RcReadonlyConsumer<T> where T: 'static {
    closed spec fn accept_requires(&self, value: T) -> bool {
        self.function.accept_requires(value)
    }

    closed spec fn steps(&self) -> Seq<spec_fn(T) -> bool> {
        self.function.steps()
    }

    fn accept(&self, value: &T) {
        self.function.accept(value)
    }
}

/// A read-only consumer with shared thread-safe ownership; clones share it.
#[verifier::reject_recursive_types(T)]
pub struct ArcReadonlyConsumer<T> {
    function: Arc<Box<dyn SharedReadonlyConsumer<T>>>,
    name: Option<String>,
}

impl<T> ArcReadonlyConsumer<T> {
    /// The consumer's name, as characters.
    pub closed spec fn name_spec(&self) -> Option<Seq<char>> {
        name_view(self.name)
    }
}

impl<T> Clone for ArcReadonlyConsumer<T> {
    /// Another handle to the same consumer, with the same name.
    fn clone(&self) -> (res: Self)
        ensures
            same_readonly_consumer(res, *self),
            res.name_spec() == self.name_spec(),
    {
        ArcReadonlyConsumer { function: arc_share(&self.function), name: copy_name(&self.name) }
    }
}

impl<T> ArcReadonlyConsumer<T> where T: 'static {
    /// Another handle to the same consumer, without a name.
    fn handle(&self) -> (res: Self)
        ensures
            same_readonly_consumer(res, *self),
            res.steps() == self.steps(),
    {
        ArcReadonlyConsumer { function: arc_share(&self.function), name: None }
    }
}

impl<T> ArcReadonlyConsumer<T> where T: Send + Sync + 'static {
    /// Wraps a closure.
    pub fn new<F>(f: F) -> (res: Self)
        where F: Fn(&T) + Send + Sync + 'static
        ensures
            forall|v: T| #[trigger] res.accept_requires(v) == f.requires((&v,)),
            res.steps() == f.steps(),
            res.name_spec() is None,
    {
        let b: Box<dyn SharedReadonlyConsumer<T>> = Box::new(f);
        ArcReadonlyConsumer { function: Arc::new(b), name: None }
    }

    /// The consumer's name, if it has one.
    pub fn name(&self) -> (res: Option<&str>)
        ensures
            match res {
                Some(s) => self.name_spec() == Some(s@),
                None => self.name_spec() is None,
            },
    {
        name_as_str(&self.name)
    }

    /// The text that shows the consumer: `ArcReadonlyConsumer(name)`, or `ArcReadonlyConsumer` when it
    /// has no name.
    pub fn to_string(&self) -> (res: String)
        ensures
            res@ == shown_if_named("ArcReadonlyConsumer"@, self.name_spec()),
    {
        show_if_named("ArcReadonlyConsumer", &self.name)
    }

    /// Names the consumer.
    pub fn set_name<N: Into<String>>(&mut self, name: N)
        ensures
            exists|s: String| #[trigger] call_ensures(<N as Into<String>>::into, (name,), s) && final(self).name_spec() == Some(s@),
            same_readonly_consumer(*final(self), *old(self)),
    {
        self.name = Some(name.into());
    }

    /// This consumer, then `next`, on the same values; both stay usable.
    pub fn and_then(&self, next: &ArcReadonlyConsumer<T>) -> (res: ArcReadonlyConsumer<T>)
        ensures
            forall|x: T| #[trigger] res.accept_requires(x) == (self.accept_requires(x) && next.accept_requires(x)),
            res.steps() == self.steps() + next.steps(),
            res.name_spec() is None,
    {
        let b: Box<dyn SharedReadonlyConsumer<T>> = Box::new(ChainedConsumer { first: self.handle(), second: next.handle() });
        ArcReadonlyConsumer { function: Arc::new(b), name: None }
    }

    /// A closure sharing this consumer.
    pub fn to_fn(&self) -> (res: impl Fn(&T))
        ensures
            forall|x: T| self.accept_requires(x) ==> #[trigger] res.requires((&x,)),
    {
        let c = self.handle();
        move |value: &T|
            requires
                c.accept_requires(*value),
        {
            c.accept(value)
        }
    }
}

impl<T> ReadonlyConsumer<T> for ArcReadonlyConsumer<T> where T: 'static {
    closed spec fn accept_requires(&self, value: T) -> bool {
        self.function.shared_accept_requires(value)
    }

    closed spec fn steps(&self) -> Seq<spec_fn(T) -> bool> {
        self.function.shared_steps()
    }

    fn accept(&self, value: &T) {
        self.function.shared_accept(value)
    }
}

/// Conversions of a read-only consumer into the three ownership flavours,
/// keeping where it may be called.
pub trait IntoReadonlyConsumer<T>: ReadonlyConsumer<T> + Sized + 'static {
    /// Converts into a `BoxReadonlyConsumer`.
    fn into_box(self) -> (res: BoxReadonlyConsumer<T>)
        where T: 'static
        ensures
            same_readonly_consumer(res, self),
    ;

    /// Converts into an `RcReadonlyConsumer`.
    fn into_rc(self) -> (res: RcReadonlyConsumer<T>)
        where T: 'static
        ensures
            same_readonly_consumer(res, self),
    ;

    /// Converts into an `ArcReadonlyConsumer`.
    fn into_arc(self) -> (res: ArcReadonlyConsumer<T>)
        where Self: Send + Sync, T: Send + Sync + 'static
        ensures
            same_readonly_consumer(res, self),
    ;
}

/// Closures convert by being wrapped.
impl<T, F> IntoReadonlyConsumer<T> for F where F: Fn(&T) + 'static {
    fn into_box(self) -> (res: BoxReadonlyConsumer<T>)
        where T: 'static
    {
        BoxReadonlyConsumer::new(self)
    }

    fn into_rc(self) -> (res: RcReadonlyConsumer<T>)
        where T: 'static
    {
        RcReadonlyConsumer::new(self)
    }

    fn into_arc(self) -> (res: ArcReadonlyConsumer<T>)
        where Self: Send + Sync, T: Send + Sync + 'static
    {
        ArcReadonlyConsumer::new(self)
    }
}

impl<T> IntoReadonlyConsumer<T> for BoxReadonlyConsumer<T> where T: 'static {
    fn into_box(self) -> (res: BoxReadonlyConsumer<T>) {
        self
    }

    fn into_rc(self) -> (res: RcReadonlyConsumer<T>) {
        RcReadonlyConsumer { function: Rc::new(self.function), name: self.name }
    }

    /// Only callable where the consumer is thread-safe, which a
    /// `BoxReadonlyConsumer` never is.
    fn into_arc(self) -> (res: ArcReadonlyConsumer<T>)
        where Self: Send + Sync, T: Send + Sync + 'static
    {
        let b: Box<dyn SharedReadonlyConsumer<T>> = Box::new(self);
        ArcReadonlyConsumer { function: Arc::new(b), name: None }
    }
}

impl<T> IntoReadonlyConsumer<T> for RcReadonlyConsumer<T> where T: 'static {
    fn into_box(self) -> (res: BoxReadonlyConsumer<T>) {
        BoxReadonlyConsumer { function: Box::new(self.handle()), name: self.name }
    }

    fn into_rc(self) -> (res: RcReadonlyConsumer<T>) {
        self
    }

    /// Only callable where the consumer is thread-safe, which an
    /// `RcReadonlyConsumer` never is.
    fn into_arc(self) -> (res: ArcReadonlyConsumer<T>)
        where Self: Send + Sync, T: Send + Sync + 'static
    {
        let b: Box<dyn SharedReadonlyConsumer<T>> = Box::new(self);
        ArcReadonlyConsumer { function: Arc::new(b), name: None }
    }
}

impl<T> IntoReadonlyConsumer<T> for ArcReadonlyConsumer<T> where T: 'static {
    fn into_box(self) -> (res: BoxReadonlyConsumer<T>) {
        BoxReadonlyConsumer { function: Box::new(self.handle()), name: self.name }
    }

    fn into_rc(self) -> (res: RcReadonlyConsumer<T>) {
        let b: Box<dyn ReadonlyConsumer<T>> = Box::new(self.handle());
        RcReadonlyConsumer { function: Rc::new(b), name: self.name }
    }

    fn into_arc(self) -> (res: ArcReadonlyConsumer<T>)
        where Self: Send + Sync, T: Send + Sync + 'static
    {
        self
    }
}

/// Chaining methods on closures, producing `BoxReadonlyConsumer`s.
pub trait FnReadonlyConsumerOps<T>: ReadonlyConsumer<T> + Sized + 'static {
    /// This closure, then `next`, on the same values.
    fn and_then<C>(self, next: C) -> (res: BoxReadonlyConsumer<T>)
        where C: ReadonlyConsumer<T> + 'static, T: 'static
        ensures
            forall|x: T| #[trigger] res.accept_requires(x) == (self.accept_requires(x) && next.accept_requires(x)),
            res.steps() == self.steps() + next.steps(),
            res.name_spec() is None,
    ;
}

impl<T, F> FnReadonlyConsumerOps<T> for F where F: Fn(&T) + 'static {
    fn and_then<C>(self, next: C) -> (res: BoxReadonlyConsumer<T>)
        where C: ReadonlyConsumer<T> + 'static, T: 'static
    {
        BoxReadonlyConsumer { function: Box::new(ChainedConsumer { first: self, second: next }), name: None }
    }
}

} // verus!

