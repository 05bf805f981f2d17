//! One-shot mappers: conversions `FnOnce(T) -> R` that are used up by their
//! single call, boxed, with composition and conditional application.
//!
//! A one-shot mapper's behaviour is modelled as a relation:
//! `once_requires(t)` says which inputs it accepts, `once_ensures(t, r)`
//! which outputs it may give.
use vstd::prelude::*;
use crate::predicate::{Predicate, BoxPredicate, same_predicate};

verus! {

/// A conversion from `T` to `R` that may be performed once.
pub trait MapperOnce<T, R> {
    /// Inputs the mapper accepts.
    spec fn once_requires(&self, input: T) -> bool;

    /// Outputs the mapper may give for an input.
    spec fn once_ensures(&self, input: T, output: R) -> bool;

    /// Converts `input`, using the mapper up.
    fn apply_once(self, input: T) -> (output: R)
        where Self: Sized
        requires
            self.once_requires(input),
        ensures
            self.once_ensures(input, output),
    ;

    /// Converts `input`, using up the boxed mapper.
    fn apply_once_boxed(self: Box<Self>, input: T) -> (output: R)
        requires
            self.once_requires(input),
        ensures
            self.once_ensures(input, output),
    ;
}

/// Two one-shot mappers accept the same inputs and may give the same outputs.
pub open spec fn same_mapper_once<T, R, A: MapperOnce<T, R>, B: MapperOnce<T, R>>(a: A, b: B) -> bool {
    &&& forall|x: T| #[trigger] a.once_requires(x) == b.once_requires(x)
    &&& forall|x: T, y: R| #[trigger] a.once_ensures(x, y) == b.once_ensures(x, y)
}

/// When `a` followed by `b` accepts `x`.
pub open spec fn chain_requires<T, R, S, A: MapperOnce<T, R>, B: MapperOnce<R, S>>(a: A, b: B, x: T) -> bool {
    &&& a.once_requires(x)
    &&& forall|y: R| #[trigger] a.once_ensures(x, y) ==> b.once_requires(y)
}

/// Outputs of `a` followed by `b`.
pub open spec fn chain_ensures<T, R, S, A: MapperOnce<T, R>, B: MapperOnce<R, S>>(a: A, b: B, x: T, z: S) -> bool {
    exists|y: R| #[trigger] a.once_ensures(x, y) && b.once_ensures(y, z)
}

/// When `p ? a : b` accepts `x`.
pub open spec fn branch_requires<T, R, P: Predicate<T>, A: MapperOnce<T, R>, B: MapperOnce<T, R>>(p: P, a: A, b: B, x: T) -> bool {
    &&& p.test_requires(x)
    &&& p.test_ensures(x, true) ==> a.once_requires(x)
    &&& p.test_ensures(x, false) ==> b.once_requires(x)
}

/// Outputs of `p ? a : b`.
pub open spec fn branch_ensures<T, R, P: Predicate<T>, A: MapperOnce<T, R>, B: MapperOnce<T, R>>(p: P, a: A, b: B, x: T, y: R) -> bool {
    ||| p.test_ensures(x, true) && a.once_ensures(x, y)
    ||| p.test_ensures(x, false) && b.once_ensures(x, y)
}

/// `c` behaves as `a` followed by `b`, as `a.and_then(b)` and `b.compose(a)`
/// do.
pub open spec fn is_chain<T, R, S, C: MapperOnce<T, S>, A: MapperOnce<T, R>, B: MapperOnce<R, S>>(c: C, a: A, b: B) -> bool {
    &&& forall|x: T| #[trigger] c.once_requires(x) == chain_requires(a, b, x)
    &&& forall|x: T, z: S| #[trigger] c.once_ensures(x, z) == chain_ensures(a, b, x, z)
}

/// `m` accepts every input and returns it, as `identity()` does.
pub open spec fn is_identity<T, M: MapperOnce<T, T>>(m: M) -> bool {
    &&& forall|x: T| #[trigger] m.once_requires(x)
    &&& forall|x: T, y: T| #[trigger] m.once_ensures(x, y) == (y == x)
}

/// The identity is a left unit of chaining: `identity().and_then(m)`
/// behaves as `m`.
pub proof fn law_identity_then<T, R, I: MapperOnce<T, T>, M: MapperOnce<T, R>, C: MapperOnce<T, R>>(i: I, m: M, c: C)
    requires
        is_identity(i),
        is_chain(c, i, m),
    ensures
        same_mapper_once(c, m),
{
    assert forall|x: T| #[trigger] c.once_requires(x) == m.once_requires(x) by {
        assert(i.once_ensures(x, x));
    }
    assert forall|x: T, z: R| #[trigger] c.once_ensures(x, z) == m.once_ensures(x, z) by {
        if m.once_ensures(x, z) {
            assert(i.once_ensures(x, x));
        }
    }
}

/// The identity is a right unit of chaining: `m.and_then(identity())`
/// behaves as `m`.
pub proof fn law_then_identity<T, R, M: MapperOnce<T, R>, I: MapperOnce<R, R>, C: MapperOnce<T, R>>(m: M, i: I, c: C)
    requires
        is_identity(i),
        is_chain(c, m, i),
    ensures
        same_mapper_once(c, m),
{
    assert forall|x: T, z: R| #[trigger] c.once_ensures(x, z) == m.once_ensures(x, z) by {
        if m.once_ensures(x, z) {
            assert(i.once_ensures(z, z));
        }
    }
}

/// Chaining is associative: `(a then b) then c` behaves as
/// `a then (b then c)`.
pub proof fn law_chain_associative<T, R, S, U, A: MapperOnce<T, R>, B: MapperOnce<R, S>, C: MapperOnce<S, U>, AB: MapperOnce<T, S>, LeftNested: MapperOnce<T, U>, BC: MapperOnce<R, U>, RightNested: MapperOnce<T, U>>(
    a: A,
    b: B,
    c: C,
    ab: AB,
    ab_c: LeftNested,
    bc: BC,
    a_bc: RightNested,
)
    requires
        is_chain(ab, a, b),
        is_chain(ab_c, ab, c),
        is_chain(bc, b, c),
        is_chain(a_bc, a, bc),
    ensures
        same_mapper_once(ab_c, a_bc),
{
    assert forall|x: T| #[trigger] ab_c.once_requires(x) == a_bc.once_requires(x) by {
        if ab_c.once_requires(x) {
            assert forall|y: R| #[trigger] a.once_ensures(x, y) implies bc.once_requires(y) by {
                assert forall|z: S| #[trigger] b.once_ensures(y, z) implies c.once_requires(z) by {
                    assert(ab.once_ensures(x, z));
                }
            }
        }
        if a_bc.once_requires(x) {
            assert forall|z: S| #[trigger] ab.once_ensures(x, z) implies c.once_requires(z) by {
                let y = choose|y: R| #[trigger] a.once_ensures(x, y) && b.once_ensures(y, z);
                assert(bc.once_requires(y));
            }
        }
    }
    assert forall|x: T, w: U| #[trigger] ab_c.once_ensures(x, w) == a_bc.once_ensures(x, w) by {
        if ab_c.once_ensures(x, w) {
            let z = choose|z: S| #[trigger] ab.once_ensures(x, z) && c.once_ensures(z, w);
            let y = choose|y: R| #[trigger] a.once_ensures(x, y) && b.once_ensures(y, z);
            assert(bc.once_ensures(y, w));
        }
        if a_bc.once_ensures(x, w) {
            let y = choose|y: R| #[trigger] a.once_ensures(x, y) && bc.once_ensures(y, w);
            let z = choose|z: S| #[trigger] b.once_ensures(y, z) && c.once_ensures(z, w);
            assert(ab.once_ensures(x, z));
        }
    }
}

/// Where the predicate always holds, `m.when(p).or_else(e)` behaves as `m`.
pub proof fn law_branch_always_then<T, R, P: Predicate<T>, M: MapperOnce<T, R>, E: MapperOnce<T, R>, B: MapperOnce<T, R>>(p: P, m: M, e: E, b: B)
    requires
        forall|x: T| #[trigger] p.test_requires(x),
        forall|x: T, r: bool| #[trigger] p.test_ensures(x, r) == r,
        forall|x: T| #[trigger] b.once_requires(x) == branch_requires(p, m, e, x),
        forall|x: T, y: R| #[trigger] b.once_ensures(x, y) == branch_ensures(p, m, e, x, y),
    ensures
        same_mapper_once(b, m),
{
    assert forall|x: T| #[trigger] b.once_requires(x) == m.once_requires(x) by {
        assert(p.test_ensures(x, true));
        assert(!p.test_ensures(x, false));
    }
    assert forall|x: T, y: R| #[trigger] b.once_ensures(x, y) == m.once_ensures(x, y) by {
        assert(p.test_ensures(x, true));
        assert(!p.test_ensures(x, false));
    }
}

/// The identity.
struct IdentityOnce;

impl<T> MapperOnce<T, T> for IdentityOnce {
    closed spec fn once_requires(&self, input: T) -> bool {
        true
    }

    closed spec fn once_ensures(&self, input: T, output: T) -> bool {
        output == input
    }

    fn apply_once(self, input: T) -> (output: T) {
        input
    }

    fn apply_once_boxed(self: Box<Self>, input: T) -> (output: T) {
        input
    }
}

/// A mapper giving a clone of one value.
struct ConstantOnce<R> {
    value: R,
}

impl<T, R: Clone> MapperOnce<T, R> for ConstantOnce<R> {
    closed spec fn once_requires(&self, input: T) -> bool {
        true
    }

    closed spec fn once_ensures(&self, input: T, output: R) -> bool {
        cloned(self.value, output)
    }

    fn apply_once(self, input: T) -> (output: R) {
        self.value.clone()
    }

    fn apply_once_boxed(self: Box<Self>, input: T) -> (output: R) {
        self.value.clone()
    }
}

/// Two one-shot mappers applied in turn.
struct ChainedOnce<R, A, B> {
    first: A,
    second: B,
    middle: Ghost<Option<R>>,
}

impl<T, R, S, A: MapperOnce<T, R>, B: MapperOnce<R, S>> MapperOnce<T, S> for ChainedOnce<R, A, B> {
    closed spec fn once_requires(&self, input: T) -> bool {
        chain_requires(self.first, self.second, input)
    }

    closed spec fn once_ensures(&self, input: T, output: S) -> bool {
        chain_ensures(self.first, self.second, input, output)
    }

    fn apply_once(self, input: T) -> (output: S) {
        let y = self.first.apply_once(input);
        self.second.apply_once(y)
    }

    fn apply_once_boxed(self: Box<Self>, input: T) -> (output: S) {
        let me = *self;
        let y = me.first.apply_once(input);
        me.second.apply_once(y)
    }
}

/// A one-shot mapper chosen by a predicate on the input.
struct BranchOnce<P, A, B> {
    predicate: P,
    then_mapper: A,
    else_mapper: B,
}

impl<T, R, P: Predicate<T>, A: MapperOnce<T, R>, B: MapperOnce<T, R>> MapperOnce<T, R> for BranchOnce<P, A, B> {
    closed spec fn once_requires(&self, input: T) -> bool {
        branch_requires(self.predicate, self.then_mapper, self.else_mapper, input)
    }

    closed spec fn once_ensures(&self, input: T, output: R) -> bool {
        branch_ensures(self.predicate, self.then_mapper, self.else_mapper, input, output)
    }

    fn apply_once(self, input: T) -> (output: R) {
        if self.predicate.test(&input) {
            self.then_mapper.apply_once(input)
        } else {
            self.else_mapper.apply_once(input)
        }
    }

    fn apply_once_boxed(self: Box<Self>, input: T) -> (output: R) {
        let me = *self;
        if me.predicate.test(&input) {
            me.then_mapper.apply_once(input)
        } else {
            me.else_mapper.apply_once(input)
        }
    }
}

/// A closure's behaviour as an one-shot mapper is its own precondition and
/// postcondition. Call this where a concrete closure is used, so that its
/// relation unfolds.
pub proof fn lemma_closure_mapper_once<T, R, F: FnOnce(T) -> R>(f: F)
    ensures
        forall|x: T| #[trigger] f.once_requires(x) == f.requires((x,)),
        forall|x: T, y: R| #[trigger] f.once_ensures(x, y) == f.ensures((x,), y),
{
}

/// Every closure `FnOnce(T) -> R` is a one-shot mapper, with the closure's
/// own precondition and postcondition.
impl<T, R, F> MapperOnce<T, R> for F where F: FnOnce(T) -> R {
    open spec fn once_requires(&self, input: T) -> bool {
        self.requires((input,))
    }

    open spec fn once_ensures(&self, input: T, output: R) -> bool {
        self.ensures((input,), output)
    }

    fn apply_once(self, input: T) -> (output: R) {
        self(input)
    }

    fn apply_once_boxed(self: Box<Self>, input: T) -> (output: R) {
        (*self)(input)
    }
}

/// A boxed one-shot mapper.
#[verifier::reject_recursive_types(T)]
#[verifier::reject_recursive_types(R)]
pub struct BoxMapperOnce<T, R> {
    function: Box<dyn MapperOnce<T, R>>,
}

impl<T, R> BoxMapperOnce<T, R> where T: 'static, R: 'static {
    /// Wraps a closure.
    pub fn new<F>(f: F) -> (res: Self)
        where F: FnOnce(T) -> R + 'static
        ensures
            forall|x: T| #[trigger] res.once_requires(x) == f.requires((x,)),
            forall|x: T, y: R| #[trigger] res.once_ensures(x, y) == f.ensures((x,), y),
    {
        BoxMapperOnce { function: Box::new(f) }
    }

    /// The mapper that returns its input.
    pub fn identity() -> (res: BoxMapperOnce<T, T>)
        ensures
            forall|x: T| #[trigger] res.once_requires(x),
            forall|x: T, y: T| #[trigger] res.once_ensures(x, y) == (y == x),
    {
        BoxMapperOnce { function: Box::new(IdentityOnce) }
    }

    /// This mapper, then `after`.
    pub fn and_then<S, G>(self, after: G) -> (res: BoxMapperOnce<T, S>)
        where S: 'static, G: MapperOnce<R, S> + 'static
        ensures
            forall|x: T| #[trigger] res.once_requires(x) == chain_requires(self, after, x),
            forall|x: T, z: S| #[trigger] res.once_ensures(x, z) == chain_ensures(self, after, x, z),
    {
        BoxMapperOnce { function: Box::new(ChainedOnce { first: self, second: after, middle: Ghost(None) }) }
    }

    /// `before`, then this mapper.
    pub fn compose<S, G>(self, before: G) -> (res: BoxMapperOnce<S, R>)
        where S: 'static, G: MapperOnce<S, T> + 'static
        ensures
            forall|x: S| #[trigger] res.once_requires(x) == chain_requires(before, self, x),
            forall|x: S, z: R| #[trigger] res.once_ensures(x, z) == chain_ensures(before, self, x, z),
    {
        BoxMapperOnce { function: Box::new(ChainedOnce { first: before, second: self, middle: Ghost(None) }) }
    }

    /// This mapper, applied only where `predicate` holds; see `or_else`.
    pub fn when<P>(self, predicate: P) -> (res: BoxConditionalMapperOnce<T, R>)
        where P: Predicate<T> + 'static
        ensures
            res.mapper() == self,
            same_predicate(res.predicate(), predicate),
    {
        BoxConditionalMapperOnce { mapper: self, predicate: BoxPredicate::wrap(predicate) }
    }

    /// The mapper that gives a clone of `value`.
    pub fn constant(value: R) -> (res: BoxMapperOnce<T, R>)
        where R: Clone
        ensures
            forall|x: T| #[trigger] res.once_requires(x),
            forall|x: T, y: R| #[trigger] res.once_ensures(x, y) == cloned(value, y),
    {
        BoxMapperOnce { function: Box::new(ConstantOnce { value }) }
    }
}

impl<T, R> MapperOnce<T, R> for BoxMapperOnce<T, R> where T: 'static, R: 'static {
    closed spec fn once_requires(&self, input: T) -> bool {
        self.function.once_requires(input)
    }

    closed spec fn once_ensures(&self, input: T, output: R) -> bool {
        self.function.once_ensures(input, output)
    }

    fn apply_once(self, input: T) -> (output: R) {
        self.function.apply_once_boxed(input)
    }

    fn apply_once_boxed(self: Box<Self>, input: T) -> (output: R) {
        let me = *self;
        me.function.apply_once_boxed(input)
    }
}

/// A `BoxMapperOnce` restricted to the inputs where a predicate holds,
/// waiting for the mapper to use elsewhere.
#[verifier::reject_recursive_types(T)]
#[verifier::reject_recursive_types(R)]
pub struct BoxConditionalMapperOnce<T, R> {
    mapper: BoxMapperOnce<T, R>,
    predicate: BoxPredicate<T>,
}

impl<T, R> BoxConditionalMapperOnce<T, R> {
    /// The mapper used where the predicate holds.
    pub closed spec fn mapper(&self) -> BoxMapperOnce<T, R> {
        self.mapper
    }

    /// The predicate that chooses.
    pub closed spec fn predicate(&self) -> BoxPredicate<T> {
        self.predicate
    }
}

impl<T, R> BoxConditionalMapperOnce<T, R> where T: 'static, R: 'static {
    /// The conditional mapper where the predicate holds, `else_mapper`
    /// elsewhere.
    pub fn or_else<F>(self, else_mapper: F) -> (res: BoxMapperOnce<T, R>)
        where F: MapperOnce<T, R> + 'static
        ensures
            forall|x: T| #[trigger] res.once_requires(x) == branch_requires(self.predicate(), self.mapper(), else_mapper, x),
            forall|x: T, y: R| #[trigger] res.once_ensures(x, y) == branch_ensures(self.predicate(), self.mapper(), else_mapper, x, y),
    {
        BoxMapperOnce { function: Box::new(BranchOnce { predicate: self.predicate, then_mapper: self.mapper, else_mapper }) }
    }
}

/// Conversion of a one-shot mapper into a `BoxMapperOnce`.
pub trait IntoMapperOnce<T, R>: MapperOnce<T, R> + Sized + 'static {
    /// Boxes the mapper, keeping its behaviour.
    fn into_box_once(self) -> (res: BoxMapperOnce<T, R>)
        where T: 'static, R: 'static
        ensures
            same_mapper_once(res, self),
    ;

    /// Boxes a clone of the mapper, keeping its behaviour; this one stays
    /// usable.
    fn to_box_once(&self) -> (res: BoxMapperOnce<T, R>)
        where Self: Clone, T: 'static, R: 'static
        ensures
            exists|c: Self| #[trigger] cloned(*self, c) && same_mapper_once(res, c),
    ;
}

impl<T, R, F> IntoMapperOnce<T, R> for F where F: FnOnce(T) -> R + 'static {
    fn into_box_once(self) -> (res: BoxMapperOnce<T, R>)
        where T: 'static, R: 'static
    {
        BoxMapperOnce::new(self)
    }

    fn to_box_once(&self) -> (res: BoxMapperOnce<T, R>)
        where Self: Clone, T: 'static, R: 'static
    {
        let c = self.clone();
        proof {
            assert(cloned(*self, c));
        }
        c.into_box_once()
    }
}

impl<T: 'static, R: 'static> IntoMapperOnce<T, R> for BoxMapperOnce<T, R> {
    fn into_box_once(self) -> (res: BoxMapperOnce<T, R>) {
        self
    }

    fn to_box_once(&self) -> (res: BoxMapperOnce<T, R>)
        where Self: Clone, T: 'static, R: 'static
    {
        let c = self.clone();
        proof {
            assert(cloned(*self, c));
        }
        c.into_box_once()
    }
}

/// Composition methods on closures, producing `BoxMapperOnce`s.
pub trait FnMapperOnceOps<T, R>: MapperOnce<T, R> + Sized + 'static {
    /// This closure, then `after`.
    fn and_then<S, G>(self, after: G) -> (res: BoxMapperOnce<T, S>)
        where S: 'static, G: MapperOnce<R, S> + 'static, T: 'static, R: 'static
        ensures
            forall|x: T| #[trigger] res.once_requires(x) == chain_requires(self, after, x),
            forall|x: T, z: S| #[trigger] res.once_ensures(x, z) == chain_ensures(self, after, x, z),
    ;

    /// `before`, then this closure.
    fn compose<S, G>(self, before: G) -> (res: BoxMapperOnce<S, R>)
        where S: 'static, G: MapperOnce<S, T> + 'static, T: 'static, R: 'static
        ensures
            forall|x: S| #[trigger] res.once_requires(x) == chain_requires(before, self, x),
            forall|x: S, z: R| #[trigger] res.once_ensures(x, z) == chain_ensures(before, self, x, z),
    ;

    /// This closure, applied only where `predicate` holds; see `or_else`.
    fn when<P>(self, predicate: P) -> (res: BoxConditionalMapperOnce<T, R>)
        where P: Predicate<T> + 'static, T: 'static, R: 'static
        ensures
            same_mapper_once(res.mapper(), self),
            same_predicate(res.predicate(), predicate),
    ;
}

impl<T, R, C> FnMapperOnceOps<T, R> for C where C: FnOnce(T) -> R + 'static {
    fn and_then<S, G>(self, after: G) -> (res: BoxMapperOnce<T, S>)
        where S: 'static, G: MapperOnce<R, S> + 'static, T: 'static, R: 'static
    {
        BoxMapperOnce { function: Box::new(ChainedOnce { first: self, second: after, middle: Ghost(None) }) }
    }

    fn compose<S, G>(self, before: G) -> (res: BoxMapperOnce<S, R>)
        where S: 'static, G: MapperOnce<S, T> + 'static, T: 'static, R: 'static
    {
        BoxMapperOnce { function: Box::new(ChainedOnce { first: before, second: self, middle: Ghost(None) }) }
    }

    fn when<P>(self, predicate: P) -> (res: BoxConditionalMapperOnce<T, R>)
        where P: Predicate<T> + 'static, T: 'static, R: 'static
    {
        BoxMapperOnce::new(self).when(predicate)
    }
}

} // verus!
