//! Mappers: stateful conversions `FnMut(T) -> R`, in three ownership
//! flavours, with composition and conditional application.
//!
//! A mapper's behaviour is modelled as a relation that holds on every call,
//! whatever state the mapper has reached: `apply_requires(t)` says which
//! inputs it accepts, `apply_ensures(t, r)` which outputs it may give. A call
//! does not change this relation. The shared flavours keep the mapper in a
//! lock, so clones share its state.
use vstd::prelude::*;
use vstd::rwlock::RwLock;
use std::rc::Rc;
use std::sync::Arc;
use crate::predicate::{Predicate, BoxPredicate, RcPredicate, ArcPredicate, same_predicate};
use crate::shared::{rc_share, arc_share, record};

verus! {

/// A stateful conversion from `T` to `R`.
pub trait Mapper<T, R> {
    /// Inputs the mapper accepts.
    spec fn apply_requires(&self, input: T) -> bool;

    /// Outputs the mapper may give for an input.
    spec fn apply_ensures(&self, input: T, output: R) -> bool;

    /// The calls the mapper has answered, as `(input, output)` pairs, oldest
    /// first, where it keeps a record of them; `None` where it keeps none.
    spec fn history(&self) -> Option<Seq<(T, R)>>;

    /// Converts `input`, possibly updating the mapper's state. A mapper that
    /// keeps a record of its calls records this one.
    fn apply(&mut self, input: T) -> (output: R)
        requires
            old(self).apply_requires(input),
        ensures
            old(self).apply_ensures(input, output),
            final(self).history() == record(old(self).history(), (input, output)),
            forall|x: T| #[trigger] final(self).apply_requires(x) == old(self).apply_requires(x),
            forall|x: T, y: R| #[trigger] final(self).apply_ensures(x, y) == old(self).apply_ensures(x, y),
    ;
}

/// Two mappers accept the same inputs and may give the same outputs.
pub open spec fn same_mapper<T, R, A: Mapper<T, R>, B: Mapper<T, R>>(a: A, b: B) -> bool {
    &&& forall|x: T| #[trigger] a.apply_requires(x) == b.apply_requires(x)
    &&& forall|x: T, y: R| #[trigger] a.apply_ensures(x, y) == b.apply_ensures(x, y)
}

/// When `a` followed by `b` accepts `x`: `a` does, and `b` accepts every
/// output `a` may give for it.
pub open spec fn chain_requires<T, R, S, A: Mapper<T, R>, B: Mapper<R, S>>(a: A, b: B, x: T) -> bool {
    &&& a.apply_requires(x)
    &&& forall|y: R| #[trigger] a.apply_ensures(x, y) ==> b.apply_requires(y)
}

/// Outputs of `a` followed by `b`.
pub open spec fn chain_ensures<T, R, S, A: Mapper<T, R>, B: Mapper<R, S>>(a: A, b: B, x: T, z: S) -> bool {
    exists|y: R| #[trigger] a.apply_ensures(x, y) && b.apply_ensures(y, z)
}

/// Chaining two mappers whose behaviour is unchanged leaves the chain's
/// behaviour unchanged.
proof fn lemma_chain_stable<T, R, S, A: Mapper<T, R>, B: Mapper<R, S>>(a0: A, b0: B, a1: A, b1: B)
    requires
        same_mapper(a0, a1),
        same_mapper(b0, b1),
    ensures
        forall|x: T| #[trigger] chain_requires(a1, b1, x) == chain_requires(a0, b0, x),
        forall|x: T, z: S| #[trigger] chain_ensures(a1, b1, x, z) == chain_ensures(a0, b0, x, z),
{
    assert forall|x: T| #[trigger] chain_requires(a1, b1, x) == chain_requires(a0, b0, x) by {
        assert forall|y: R| #[trigger] a1.apply_ensures(x, y) ==> b1.apply_requires(y)
            <==> (a0.apply_ensures(x, y) ==> b0.apply_requires(y)) by {
            assert(a1.apply_ensures(x, y) == a0.apply_ensures(x, y));
            assert(b1.apply_requires(y) == b0.apply_requires(y));
        }
        assert(a1.apply_requires(x) == a0.apply_requires(x));
    }
    assert forall|x: T, z: S| #[trigger] chain_ensures(a1, b1, x, z) == chain_ensures(a0, b0, x, z) by {
        if chain_ensures(a1, b1, x, z) {
            let y = choose|y: R| #[trigger] a1.apply_ensures(x, y) && b1.apply_ensures(y, z);
            assert(a0.apply_ensures(x, y) && b0.apply_ensures(y, z));
        }
        if chain_ensures(a0, b0, x, z) {
            let y = choose|y: R| #[trigger] a0.apply_ensures(x, y) && b0.apply_ensures(y, z);
            assert(a1.apply_ensures(x, y) && b1.apply_ensures(y, z));
        }
    }
}

/// When `p ? a : b` accepts `x`.
pub open spec fn branch_requires<T, R, P: Predicate<T>, A: Mapper<T, R>, B: Mapper<T, R>>(p: P, a: A, b: B, x: T) -> bool {
    &&& p.test_requires(x)
    &&& p.test_ensures(x, true) ==> a.apply_requires(x)
    &&& p.test_ensures(x, false) ==> b.apply_requires(x)
}

/// Outputs of `p ? a : b`.
pub open spec fn branch_ensures<T, R, P: Predicate<T>, A: Mapper<T, R>, B: Mapper<T, R>>(p: P, a: A, b: B, x: T, y: R) -> bool {
    ||| p.test_ensures(x, true) && a.apply_ensures(x, y)
    ||| p.test_ensures(x, false) && b.apply_ensures(x, y)
}


/// `c` behaves as `a` followed by `b`, as `a.and_then(b)` and `b.compose(a)`
/// do.
pub open spec fn is_chain<T, R, S, C: Mapper<T, S>, A: Mapper<T, R>, B: Mapper<R, S>>(c: C, a: A, b: B) -> bool {
    &&& forall|x: T| #[trigger] c.apply_requires(x) == chain_requires(a, b, x)
    &&& forall|x: T, z: S| #[trigger] c.apply_ensures(x, z) == chain_ensures(a, b, x, z)
}

/// `m` accepts every input and returns it, as `identity()` does.
pub open spec fn is_identity<T, M: Mapper<T, T>>(m: M) -> bool {
    &&& forall|x: T| #[trigger] m.apply_requires(x)
    &&& forall|x: T, y: T| #[trigger] m.apply_ensures(x, y) == (y == x)
}

/// The identity is a left unit of chaining: `identity().and_then(m)`
/// behaves as `m`.
pub proof fn law_identity_then<T, R, I: Mapper<T, T>, M: Mapper<T, R>, C: Mapper<T, R>>(i: I, m: M, c: C)
    requires
        is_identity(i),
        is_chain(c, i, m),
    ensures
        same_mapper(c, m),
{
    assert forall|x: T| #[trigger] c.apply_requires(x) == m.apply_requires(x) by {
        assert(i.apply_ensures(x, x));
    }
    assert forall|x: T, z: R| #[trigger] c.apply_ensures(x, z) == m.apply_ensures(x, z) by {
        if m.apply_ensures(x, z) {
            assert(i.apply_ensures(x, x));
        }
    }
}

/// The identity is a right unit of chaining: `m.and_then(identity())`
/// behaves as `m`.
pub proof fn law_then_identity<T, R, M: Mapper<T, R>, I: Mapper<R, R>, C: Mapper<T, R>>(m: M, i: I, c: C)
    requires
        is_identity(i),
        is_chain(c, m, i),
    ensures
        same_mapper(c, m),
{
    assert forall|x: T, z: R| #[trigger] c.apply_ensures(x, z) == m.apply_ensures(x, z) by {
        if m.apply_ensures(x, z) {
            assert(i.apply_ensures(z, z));
        }
    }
}

/// Chaining is associative: `(a then b) then c` behaves as
/// `a then (b then c)`.
pub proof fn law_chain_associative<T, R, S, U, A: Mapper<T, R>, B: Mapper<R, S>, C: Mapper<S, U>, AB: Mapper<T, S>, LeftNested: Mapper<T, U>, BC: Mapper<R, U>, RightNested: Mapper<T, U>>(
    a: A,
    b: B,
    c: C,
    ab: AB,
    ab_c: LeftNested,
    bc: BC,
    a_bc: RightNested,
)
    requires
        is_chain(ab, a, b),
        is_chain(ab_c, ab, c),
        is_chain(bc, b, c),
        is_chain(a_bc, a, bc),
    ensures
        same_mapper(ab_c, a_bc),
{
    assert forall|x: T| #[trigger] ab_c.apply_requires(x) == a_bc.apply_requires(x) by {
        if ab_c.apply_requires(x) {
            assert forall|y: R| #[trigger] a.apply_ensures(x, y) implies bc.apply_requires(y) by {
                assert forall|z: S| #[trigger] b.apply_ensures(y, z) implies c.apply_requires(z) by {
                    assert(ab.apply_ensures(x, z));
                }
            }
        }
        if a_bc.apply_requires(x) {
            assert forall|z: S| #[trigger] ab.apply_ensures(x, z) implies c.apply_requires(z) by {
                let y = choose|y: R| #[trigger] a.apply_ensures(x, y) && b.apply_ensures(y, z);
                assert(bc.apply_requires(y));
            }
        }
    }
    assert forall|x: T, w: U| #[trigger] ab_c.apply_ensures(x, w) == a_bc.apply_ensures(x, w) by {
        if ab_c.apply_ensures(x, w) {
            let z = choose|z: S| #[trigger] ab.apply_ensures(x, z) && c.apply_ensures(z, w);
            let y = choose|y: R| #[trigger] a.apply_ensures(x, y) && b.apply_ensures(y, z);
            assert(bc.apply_ensures(y, w));
        }
        if a_bc.apply_ensures(x, w) {
            let y = choose|y: R| #[trigger] a.apply_ensures(x, y) && bc.apply_ensures(y, w);
            let z = choose|z: S| #[trigger] b.apply_ensures(y, z) && c.apply_ensures(z, w);
            assert(ab.apply_ensures(x, z));
        }
    }
}

/// Where the predicate always holds, `m.when(p).or_else(e)` behaves as `m`.
pub proof fn law_branch_always_then<T, R, P: Predicate<T>, M: Mapper<T, R>, E: Mapper<T, R>, B: Mapper<T, R>>(p: P, m: M, e: E, b: B)
    requires
        forall|x: T| #[trigger] p.test_requires(x),
        forall|x: T, r: bool| #[trigger] p.test_ensures(x, r) == r,
        forall|x: T| #[trigger] b.apply_requires(x) == branch_requires(p, m, e, x),
        forall|x: T, y: R| #[trigger] b.apply_ensures(x, y) == branch_ensures(p, m, e, x, y),
    ensures
        same_mapper(b, m),
{
    assert forall|x: T| #[trigger] b.apply_requires(x) == m.apply_requires(x) by {
        assert(p.test_ensures(x, true));
        assert(!p.test_ensures(x, false));
    }
    assert forall|x: T, y: R| #[trigger] b.apply_ensures(x, y) == m.apply_ensures(x, y) by {
        assert(p.test_ensures(x, true));
        assert(!p.test_ensures(x, false));
    }
}

/// The identity mapper.
struct IdentityMapper;

impl<T> Mapper<T, T> for IdentityMapper {
    closed spec fn apply_requires(&self, input: T) -> bool {
        true
    }

    closed spec fn apply_ensures(&self, input: T, output: T) -> bool {
        output == input
    }


    closed spec fn history(&self) -> Option<Seq<(T, T)>> {
        None
    }
    fn apply(&mut self, input: T) -> (output: T) {
        input
    }
}

/// A mapper giving clones of one value.
struct ConstantMapper<R> {
    value: R,
}

impl<T, R: Clone> Mapper<T, R> for ConstantMapper<R> {
    closed spec fn apply_requires(&self, input: T) -> bool {
        true
    }

    closed spec fn apply_ensures(&self, input: T, output: R) -> bool {
        cloned(self.value, output)
    }


    closed spec fn history(&self) -> Option<Seq<(T, R)>> {
        None
    }
    fn apply(&mut self, input: T) -> (output: R) {
        self.value.clone()
    }
}

/// `f0` answered one call on `x` with `y` and became `f1`: `y` is an output
/// it may give for `x`, and its record, where it keeps one, gained exactly
/// that call.
pub open spec fn one_call<T, R, F: Mapper<T, R>>(f0: F, x: T, y: R, f1: F) -> bool {
    &&& f0.apply_ensures(x, y)
    &&& f1.history() == record(f0.history(), (x, y))
}

/// One call of `a` followed by `b` on `x` giving `z`, where `a` was `a0` and
/// became `a1`, and `b` was `b0` and became `b1`: `a` answered one call on
/// `x`, and `b` one call on `a`'s output, whose result is `z`.
pub open spec fn chain_call<T, R, S, A: Mapper<T, R>, B: Mapper<R, S>>(a0: A, b0: B, a1: A, b1: B, x: T, z: S) -> bool {
    exists|y: R| #[trigger] one_call(a0, x, y, a1) && one_call(b0, y, z, b1)
}

/// One call of `p ? a : b` on `x` giving `y`: the predicate answered, and
/// exactly the chosen mapper answered one call on `x` with `y` while the
/// other was left as it was.
pub open spec fn branch_call<T, R, P: Predicate<T>, A: Mapper<T, R>, B: Mapper<T, R>>(p: P, a0: A, b0: B, a1: A, b1: B, x: T, y: R) -> bool {
    ||| p.test_ensures(x, true) && one_call(a0, x, y, a1) && b1 == b0
    ||| p.test_ensures(x, false) && one_call(b0, x, y, b1) && a1 == a0
}

/// Each call of a chain makes exactly one call of each part: where the
/// second part keeps a record, one call of the chain adds exactly one entry
/// to it, whose input is an output of the first part on the chain's input
/// and whose output is the chain's result; the same holds of the first part.
pub proof fn law_chain_calls_each_part_once<T, R, S, A: Mapper<T, R>, B: Mapper<R, S>>(a0: A, b0: B, a1: A, b1: B, x: T, z: S)
    requires
        chain_call(a0, b0, a1, b1, x, z),
    ensures
        b0.history() is Some ==> b1.history() is Some && b1.history()->0.len() == b0.history()->0.len() + 1
            && b1.history()->0.last().1 == z && a0.apply_ensures(x, b1.history()->0.last().0),
        a0.history() is Some ==> a1.history() is Some && a1.history()->0.len() == a0.history()->0.len() + 1
            && a1.history()->0.last().0 == x,
        b0.history() is Some && a0.history() is Some ==> a1.history()->0.last().1 == b1.history()->0.last().0,
{
    let y = choose|y: R| #[trigger] one_call(a0, x, y, a1) && one_call(b0, y, z, b1);
}

/// Each call of `p ? a : b` makes exactly one call of the chosen mapper
/// and none of the other: where the chosen mapper keeps a record, it gains
/// exactly one entry, the input and the result of this call, and the other
/// mapper is unchanged.
pub proof fn law_branch_calls_chosen_once<T, R, P: Predicate<T>, A: Mapper<T, R>, B: Mapper<T, R>>(p: P, a0: A, b0: B, a1: A, b1: B, x: T, y: R)
    requires
        branch_call(p, a0, b0, a1, b1, x, y),
        forall|b: bool| #[trigger] p.test_ensures(x, b) ==> b == p.test_ensures(x, true),
    ensures
        p.test_ensures(x, true) ==> b1 == b0 && (a0.history() matches Some(h) ==> a1.history() == Some(h.push((x, y)))),
        !p.test_ensures(x, true) ==> a1 == a0 && (b0.history() matches Some(h) ==> b1.history() == Some(h.push((x, y)))),
{
}

/// Two mappers applied in turn: what `and_then` and `compose` build.
pub struct ChainedMapper<R, A, B> {
    first: A,
    second: B,
    middle: Ghost<Option<R>>,
}

impl<R, A, B> ChainedMapper<R, A, B> {
    /// The mapper applied first.
    pub closed spec fn first_part(&self) -> A {
        self.first
    }

    /// The mapper applied to the first one's output.
    pub closed spec fn second_part(&self) -> B {
        self.second
    }
}

impl<T, R, S, A: Mapper<T, R>, B: Mapper<R, S>> Mapper<T, S> for ChainedMapper<R, A, B> {
    closed spec fn apply_requires(&self, input: T) -> bool {
        chain_requires(self.first, self.second, input)
    }

    closed spec fn apply_ensures(&self, input: T, output: S) -> bool {
        chain_ensures(self.first, self.second, input, output)
    }


    closed spec fn history(&self) -> Option<Seq<(T, S)>> {
        None
    }
    fn apply(&mut self, input: T) -> (output: S)
        ensures
            chain_call(old(self).first_part(), old(self).second_part(), final(self).first_part(), final(self).second_part(), input, output),
    {
        let ghost a0 = self.first;
        let ghost b0 = self.second;
        let ghost x = input;
        let y = self.first.apply(input);
        let ghost y0 = y;
        let z = self.second.apply(y);
        proof {
            assert(one_call(a0, x, y0, self.first) && one_call(b0, y0, z, self.second));
            lemma_chain_stable(a0, b0, self.first, self.second);
        }
        z
    }
}

/// A mapper chosen per input by a predicate: what `or_else` builds.
pub struct BranchMapper<P, A, B> {
    predicate: P,
    then_mapper: A,
    else_mapper: B,
}

impl<P, A, B> BranchMapper<P, A, B> {
    /// The predicate that chooses.
    pub closed spec fn chooser(&self) -> P {
        self.predicate
    }

    /// The mapper used where the predicate holds.
    pub closed spec fn then_part(&self) -> A {
        self.then_mapper
    }

    /// The mapper used where it does not.
    pub closed spec fn else_part(&self) -> B {
        self.else_mapper
    }
}

impl<T, R, P: Predicate<T>, A: Mapper<T, R>, B: Mapper<T, R>> Mapper<T, R> for BranchMapper<P, A, B> {
    closed spec fn apply_requires(&self, input: T) -> bool {
        branch_requires(self.predicate, self.then_mapper, self.else_mapper, input)
    }

    closed spec fn apply_ensures(&self, input: T, output: R) -> bool {
        branch_ensures(self.predicate, self.then_mapper, self.else_mapper, input, output)
    }


    closed spec fn history(&self) -> Option<Seq<(T, R)>> {
        None
    }
    fn apply(&mut self, input: T) -> (output: R)
        ensures
            branch_call(
                old(self).chooser(),
                old(self).then_part(),
                old(self).else_part(),
                final(self).then_part(),
                final(self).else_part(),
                input,
                output,
            ),
    {
        if self.predicate.test(&input) {
            self.then_mapper.apply(input)
        } else {
            self.else_mapper.apply(input)
        }
    }
}

/// A mapper that may be shared between threads.
pub trait SharedMapper<T, R>: Send + Sync {
    /// Inputs the mapper accepts.
    spec fn shared_apply_requires(&self, input: T) -> bool;

    /// Outputs the mapper may give for an input.
    spec fn shared_apply_ensures(&self, input: T, output: R) -> bool;

    /// Converts `input`, possibly updating the mapper's state.
    fn shared_apply(&mut self, input: T) -> (output: R)
        requires
            old(self).shared_apply_requires(input),
        ensures
            old(self).shared_apply_ensures(input, output),
            forall|x: T| #[trigger] final(self).shared_apply_requires(x) == old(self).shared_apply_requires(x),
            forall|x: T, y: R| #[trigger] final(self).shared_apply_ensures(x, y) == old(self).shared_apply_ensures(x, y),
    ;
}

impl<T, R, M: Mapper<T, R> + Send + Sync> SharedMapper<T, R> for M {
    open spec fn shared_apply_requires(&self, input: T) -> bool {
        self.apply_requires(input)
    }

    open spec fn shared_apply_ensures(&self, input: T, output: R) -> bool {
        self.apply_ensures(input, output)
    }

    fn shared_apply(&mut self, input: T) -> (output: R) {
        self.apply(input)
    }
}

/// A closure's behaviour as a mapper is its own precondition and
/// postcondition. Call this where a concrete closure is used, so that its
/// relation unfolds.
pub proof fn lemma_closure_mapper<T, R, F: FnMut(T) -> R>(f: F)
    ensures
        forall|x: T| #[trigger] f.apply_requires(x) == f.requires((x,)),
        forall|x: T, y: R| #[trigger] f.apply_ensures(x, y) == f.ensures((x,), y),
{
}

/// Every closure `FnMut(T) -> R` is a mapper, with the closure's own
/// precondition and postcondition.
impl<T, R, F> Mapper<T, R> for F where F: FnMut(T) -> R {
    open spec fn apply_requires(&self, input: T) -> bool {
        self.requires((input,))
    }

    open spec fn apply_ensures(&self, input: T, output: R) -> bool {
        self.ensures((input,), output)
    }


    open spec fn history(&self) -> Option<Seq<(T, R)>> {
        None
    }
    fn apply(&mut self, input: T) -> (output: R) {
        broadcast use vstd::function::group_function_axioms;
        self(input)
    }
}

/// A mapper with single ownership.
#[verifier::reject_recursive_types(T)]
#[verifier::reject_recursive_types(R)]
pub struct BoxMapper<T, R> {
    function: Box<dyn Mapper<T, R>>,
}

impl<T, R> BoxMapper<T, R> where T: 'static, R: 'static {
    /// Wraps a closure.
    pub fn new<F>(f: F) -> (res: Self)
        where F: FnMut(T) -> R + 'static
        ensures
            forall|x: T| #[trigger] res.apply_requires(x) == f.requires((x,)),
            forall|x: T, y: R| #[trigger] res.apply_ensures(x, y) == f.ensures((x,), y),
    {
        BoxMapper { function: Box::new(f) }
    }

    /// The mapper that returns its input.
    pub fn identity() -> (res: BoxMapper<T, T>)
        ensures
            forall|x: T| #[trigger] res.apply_requires(x),
            forall|x: T, y: T| #[trigger] res.apply_ensures(x, y) == (y == x),
    {
        BoxMapper { function: Box::new(IdentityMapper) }
    }

    /// This mapper, then `after`.
    pub fn and_then<S, F>(self, after: F) -> (res: BoxMapper<T, S>)
        where S: 'static, F: Mapper<R, S> + 'static
        ensures
            forall|x: T| #[trigger] res.apply_requires(x) == chain_requires(self, after, x),
            forall|x: T, z: S| #[trigger] res.apply_ensures(x, z) == chain_ensures(self, after, x, z),
    {
        BoxMapper { function: Box::new(ChainedMapper { first: self, second: after, middle: Ghost(None) }) }
    }

    /// `before`, then this mapper.
    pub fn compose<S, F>(self, before: F) -> (res: BoxMapper<S, R>)
        where S: 'static, F: Mapper<S, T> + 'static
        ensures
            forall|x: S| #[trigger] res.apply_requires(x) == chain_requires(before, self, x),
            forall|x: S, z: R| #[trigger] res.apply_ensures(x, z) == chain_ensures(before, self, x, z),
    {
        BoxMapper { function: Box::new(ChainedMapper { first: before, second: self, middle: Ghost(None) }) }
    }

    /// This mapper, applied only where `predicate` holds; see `or_else`.
    pub fn when<P>(self, predicate: P) -> (res: BoxConditionalMapper<T, R>)
        where P: Predicate<T> + 'static
        ensures
            res.mapper() == self,
            same_predicate(res.predicate(), predicate),
    {
        BoxConditionalMapper { mapper: self, predicate: BoxPredicate::wrap(predicate) }
    }

    /// The mapper that gives clones of `value`.
    pub fn constant(value: R) -> (res: BoxMapper<T, R>)
        where R: Clone
        ensures
            forall|x: T| #[trigger] res.apply_requires(x),
            forall|x: T, y: R| #[trigger] res.apply_ensures(x, y) == cloned(value, y),
    {
        BoxMapper { function: Box::new(ConstantMapper { value }) }
    }
}

impl<T, R> Mapper<T, R> for BoxMapper<T, R> where T: 'static, R: 'static {
    closed spec fn apply_requires(&self, input: T) -> bool {
        self.function.apply_requires(input)
    }

    closed spec fn apply_ensures(&self, input: T, output: R) -> bool {
        self.function.apply_ensures(input, output)
    }


    closed spec fn history(&self) -> Option<Seq<(T, R)>> {
        self.function.history()
    }
    fn apply(&mut self, input: T) -> (output: R) {
        self.function.apply(input)
    }
}

/// A `BoxMapper` restricted to the inputs where a predicate holds, waiting
/// for the mapper to use elsewhere.
#[verifier::reject_recursive_types(T)]
#[verifier::reject_recursive_types(R)]
pub struct BoxConditionalMapper<T, R> {
    mapper: BoxMapper<T, R>,
    predicate: BoxPredicate<T>,
}

impl<T, R> BoxConditionalMapper<T, R> {
    /// The mapper used where the predicate holds.
    pub closed spec fn mapper(&self) -> BoxMapper<T, R> {
        self.mapper
    }

    /// The predicate that chooses.
    pub closed spec fn predicate(&self) -> BoxPredicate<T> {
        self.predicate
    }
}

impl<T, R> BoxConditionalMapper<T, R> where T: 'static, R: 'static {
    /// The conditional mapper where the predicate holds, `else_mapper`
    /// elsewhere.
    pub fn or_else<F>(self, else_mapper: F) -> (res: BoxMapper<T, R>)
        where F: Mapper<T, R> + 'static
        ensures
            forall|x: T| #[trigger] res.apply_requires(x) == branch_requires(self.predicate(), self.mapper(), else_mapper, x),
            forall|x: T, y: R| #[trigger] res.apply_ensures(x, y) == branch_ensures(self.predicate(), self.mapper(), else_mapper, x, y),
    {
        BoxMapper { function: Box::new(BranchMapper { predicate: self.predicate, then_mapper: self.mapper, else_mapper }) }
    }
}

/// Whatever mapper a lock holds accepts every input in `req` and gives only
/// outputs in `ens`.
pub open spec fn lock_holds<T, R, M: Mapper<T, R>>(req: spec_fn(T) -> bool, ens: spec_fn(T, R) -> bool, m: M) -> bool {
    &&& forall|x: T| req(x) ==> #[trigger] m.apply_requires(x)
    &&& forall|x: T, y: R| #[trigger] m.apply_ensures(x, y) ==> ens(x, y)
}

/// A boxed mapper that may be shared between threads.
#[verifier::reject_recursive_types(T)]
#[verifier::reject_recursive_types(R)]
struct SyncBoxMapper<T, R> {
    function: Box<dyn SharedMapper<T, R>>,
}

impl<T, R> Mapper<T, R> for SyncBoxMapper<T, R> where T: 'static, R: 'static {
    closed spec fn apply_requires(&self, input: T) -> bool {
        self.function.shared_apply_requires(input)
    }

    closed spec fn apply_ensures(&self, input: T, output: R) -> bool {
        self.function.shared_apply_ensures(input, output)
    }


    closed spec fn history(&self) -> Option<Seq<(T, R)>> {
        None
    }
    fn apply(&mut self, input: T) -> (output: R) {
        self.function.shared_apply(input)
    }
}

/// A mapper with shared single-threaded ownership: the mapper sits in a lock, and
/// clones share it and its state.
#[verifier::reject_recursive_types(T)]
#[verifier::reject_recursive_types(R)]
pub struct RcMapper<T, R> {
    function: Rc<RwLock<BoxMapper<T, R>, spec_fn(BoxMapper<T, R>) -> bool>>,
    requires_spec: Ghost<spec_fn(T) -> bool>,
    ensures_spec: Ghost<spec_fn(T, R) -> bool>,
}

impl<T, R> RcMapper<T, R> where T: 'static, R: 'static {
    /// The lock holds the invariant this mapper was built with.
    #[verifier::type_invariant]
    closed spec fn wf(&self) -> bool {
        self.function.pred() == |m: BoxMapper<T, R>| lock_holds(self.requires_spec@, self.ensures_spec@, m)
    }

    /// Locks a mapper away, with exactly its behaviour.
    fn from_mapper<M>(m: M) -> (res: Self)
        where M: Mapper<T, R> + 'static
        ensures
            same_mapper(res, m),
    {
        let slot = BoxMapper { function: Box::new(m) };
        let ghost req = |x: T| m.apply_requires(x);
        let ghost ens = |x: T, y: R| m.apply_ensures(x, y);
        let ghost pred = |s: BoxMapper<T, R>| lock_holds(req, ens, s);
        let lock = RwLock::new(slot, Ghost(pred));
        RcMapper { function: Rc::new(lock), requires_spec: Ghost(req), ensures_spec: Ghost(ens) }
    }
}

impl<T, R> Clone for RcMapper<T, R> where T: 'static, R: 'static {
    /// Another handle to the same mapper and its state.
    fn clone(&self) -> (res: Self)
        ensures
            res == *self,
    {
        proof {
            use_type_invariant(self);
        }
        RcMapper { function: rc_share(&self.function), requires_spec: self.requires_spec, ensures_spec: self.ensures_spec }
    }
}

impl<T, R> RcMapper<T, R> where T: 'static, R: 'static {
    /// Wraps a closure.
    pub fn new<F>(f: F) -> (res: Self)
        where F: FnMut(T) -> R + 'static
        ensures
            forall|x: T| #[trigger] res.apply_requires(x) == f.requires((x,)),
            forall|x: T, y: R| #[trigger] res.apply_ensures(x, y) == f.ensures((x,), y),
    {
        RcMapper::from_mapper(f)
    }

    /// The mapper that returns its input.
    pub fn identity() -> (res: RcMapper<T, T>)
        ensures
            forall|x: T| #[trigger] res.apply_requires(x),
            forall|x: T, y: T| #[trigger] res.apply_ensures(x, y) == (y == x),
    {
        RcMapper::from_mapper(IdentityMapper)
    }

    /// This mapper, then `after`; `self` stays usable and shares its state.
    pub fn and_then<S, F>(&self, after: F) -> (res: RcMapper<T, S>)
        where S: 'static, F: Mapper<R, S> + 'static
        ensures
            forall|x: T| #[trigger] res.apply_requires(x) == chain_requires(*self, after, x),
            forall|x: T, z: S| #[trigger] res.apply_ensures(x, z) == chain_ensures(*self, after, x, z),
    {
        RcMapper::from_mapper(ChainedMapper { first: self.clone(), second: after, middle: Ghost(None) })
    }

    /// `before`, then this mapper; `self` stays usable and shares its state.
    pub fn compose<S, F>(&self, before: F) -> (res: RcMapper<S, R>)
        where S: 'static, F: Mapper<S, T> + 'static
        ensures
            forall|x: S| #[trigger] res.apply_requires(x) == chain_requires(before, *self, x),
            forall|x: S, z: R| #[trigger] res.apply_ensures(x, z) == chain_ensures(before, *self, x, z),
    {
        RcMapper::from_mapper(ChainedMapper { first: before, second: self.clone(), middle: Ghost(None) })
    }

    /// This mapper, applied only where `predicate` holds; see `or_else`.
    pub fn when<P>(self, predicate: P) -> (res: RcConditionalMapper<T, R>)
        where P: Predicate<T> + 'static
        ensures
            res.mapper() == self,
            same_predicate(res.predicate(), predicate),
    {
        RcConditionalMapper { mapper: self, predicate: RcPredicate::wrap(predicate) }
    }

    /// The mapper that gives clones of `value`.
    pub fn constant(value: R) -> (res: RcMapper<T, R>)
        where R: Clone
        ensures
            forall|x: T| #[trigger] res.apply_requires(x),
            forall|x: T, y: R| #[trigger] res.apply_ensures(x, y) == cloned(value, y),
    {
        RcMapper::from_mapper(ConstantMapper { value })
    }
}

impl<T, R> Mapper<T, R> for RcMapper<T, R> where T: 'static, R: 'static {
    closed spec fn apply_requires(&self, input: T) -> bool {
        (self.requires_spec@)(input)
    }

    closed spec fn apply_ensures(&self, input: T, output: R) -> bool {
        (self.ensures_spec@)(input, output)
    }


    closed spec fn history(&self) -> Option<Seq<(T, R)>> {
        None
    }
    fn apply(&mut self, input: T) -> (output: R) {
        proof {
            use_type_invariant(&*self);
        }
        let (mut m, handle) = self.function.acquire_write();
        let output = m.apply(input);
        handle.release_write(m);
        output
    }
}

/// An `RcMapper` restricted to the inputs where a predicate holds, waiting
/// for the mapper to use elsewhere.
#[verifier::reject_recursive_types(T)]
#[verifier::reject_recursive_types(R)]
pub struct RcConditionalMapper<T, R> {
    mapper: RcMapper<T, R>,
    predicate: RcPredicate<T>,
}

impl<T, R> RcConditionalMapper<T, R> {
    /// The mapper used where the predicate holds.
    pub closed spec fn mapper(&self) -> RcMapper<T, R> {
        self.mapper
    }

    /// The predicate that chooses.
    pub closed spec fn predicate(&self) -> RcPredicate<T> {
        self.predicate
    }
}

impl<T, R> Clone for RcConditionalMapper<T, R> where T: 'static, R: 'static {
    /// Another handle to the same mapper and predicate.
    fn clone(&self) -> (res: Self)
        ensures
            res.mapper() == self.mapper(),
            same_predicate(res.predicate(), self.predicate()),
    {
        RcConditionalMapper { mapper: self.mapper.clone(), predicate: self.predicate.clone() }
    }
}

impl<T, R> RcConditionalMapper<T, R> where T: 'static, R: 'static {
    /// The conditional mapper where the predicate holds, `else_mapper`
    /// elsewhere.
    pub fn or_else<F>(self, else_mapper: F) -> (res: RcMapper<T, R>)
        where F: Mapper<T, R> + 'static
        ensures
            forall|x: T| #[trigger] res.apply_requires(x) == branch_requires(self.predicate(), self.mapper(), else_mapper, x),
            forall|x: T, y: R| #[trigger] res.apply_ensures(x, y) == branch_ensures(self.predicate(), self.mapper(), else_mapper, x, y),
    {
        RcMapper::from_mapper(BranchMapper { predicate: self.predicate, then_mapper: self.mapper, else_mapper })
    }
}

/// A mapper with shared thread-safe ownership: the mapper sits in a lock, and
/// clones share it and its state.
#[verifier::reject_recursive_types(T)]
#[verifier::reject_recursive_types(R)]
pub struct ArcMapper<T, R> {
    function: Arc<RwLock<SyncBoxMapper<T, R>, spec_fn(SyncBoxMapper<T, R>) -> bool>>,
    requires_spec: Ghost<spec_fn(T) -> bool>,
    ensures_spec: Ghost<spec_fn(T, R) -> bool>,
}

impl<T, R> ArcMapper<T, R> where T: 'static, R: 'static {
    /// The lock holds the invariant this mapper was built with.
    #[verifier::type_invariant]
    closed spec fn wf(&self) -> bool {
        self.function.pred() == |m: SyncBoxMapper<T, R>| lock_holds(self.requires_spec@, self.ensures_spec@, m)
    }

    /// Locks a mapper away, with exactly its behaviour.
    fn from_mapper<M>(m: M) -> (res: Self)
        where M: Mapper<T, R> + Send + Sync + 'static
        ensures
            same_mapper(res, m),
    {
        let slot = SyncBoxMapper { function: Box::new(m) };
        let ghost req = |x: T| m.apply_requires(x);
        let ghost ens = |x: T, y: R| m.apply_ensures(x, y);
        let ghost pred = |s: SyncBoxMapper<T, R>| lock_holds(req, ens, s);
        let lock = RwLock::new(slot, Ghost(pred));
        ArcMapper { function: Arc::new(lock), requires_spec: Ghost(req), ensures_spec: Ghost(ens) }
    }
}

impl<T, R> Clone for ArcMapper<T, R> where T: 'static, R: 'static {
    /// Another handle to the same mapper and its state.
    fn clone(&self) -> (res: Self)
        ensures
            res == *self,
    {
        proof {
            use_type_invariant(self);
        }
        ArcMapper { function: arc_share(&self.function), requires_spec: self.requires_spec, ensures_spec: self.ensures_spec }
    }
}

impl<T, R> ArcMapper<T, R> where T: Send + Sync + 'static, R: Send + 'static {
    /// Wraps a closure.
    pub fn new<F>(f: F) -> (res: Self)
        where F: FnMut(T) -> R + Send + Sync + 'static
        ensures
            forall|x: T| #[trigger] res.apply_requires(x) == f.requires((x,)),
            forall|x: T, y: R| #[trigger] res.apply_ensures(x, y) == f.ensures((x,), y),
    {
        ArcMapper::from_mapper(f)
    }

    /// The mapper that returns its input.
    pub fn identity() -> (res: ArcMapper<T, T>)
        ensures
            forall|x: T| #[trigger] res.apply_requires(x),
            forall|x: T, y: T| #[trigger] res.apply_ensures(x, y) == (y == x),
    {
        ArcMapper::from_mapper(IdentityMapper)
    }

    /// This mapper, then `after`; `self` stays usable and shares its state.
    pub fn and_then<S, F>(&self, after: F) -> (res: ArcMapper<T, S>)
        where S: Send + 'static, F: Mapper<R, S> + Send + Sync + 'static
        ensures
            forall|x: T| #[trigger] res.apply_requires(x) == chain_requires(*self, after, x),
            forall|x: T, z: S| #[trigger] res.apply_ensures(x, z) == chain_ensures(*self, after, x, z),
    {
        ArcMapper::from_mapper(ChainedMapper { first: self.clone(), second: after, middle: Ghost(None) })
    }

    /// `before`, then this mapper; `self` stays usable and shares its state.
    pub fn compose<S, F>(&self, before: F) -> (res: ArcMapper<S, R>)
        where S: Send + 'static, F: Mapper<S, T> + Send + Sync + 'static
        ensures
            forall|x: S| #[trigger] res.apply_requires(x) == chain_requires(before, *self, x),
            forall|x: S, z: R| #[trigger] res.apply_ensures(x, z) == chain_ensures(before, *self, x, z),
    {
        ArcMapper::from_mapper(ChainedMapper { first: before, second: self.clone(), middle: Ghost(None) })
    }

    /// This mapper, applied only where `predicate` holds; see `or_else`.
    pub fn when<P>(self, predicate: P) -> (res: ArcConditionalMapper<T, R>)
        where P: Predicate<T> + Send + Sync + 'static
        ensures
            res.mapper() == self,
            same_predicate(res.predicate(), predicate),
    {
        ArcConditionalMapper { mapper: self, predicate: ArcPredicate::wrap(predicate) }
    }

    /// The mapper that gives clones of `value`.
    pub fn constant(value: R) -> (res: ArcMapper<T, R>)
        where R: Clone + Sync
        ensures
            forall|x: T| #[trigger] res.apply_requires(x),
            forall|x: T, y: R| #[trigger] res.apply_ensures(x, y) == cloned(value, y),
    {
        ArcMapper::from_mapper(ConstantMapper { value })
    }
}

impl<T, R> Mapper<T, R> for ArcMapper<T, R> where T: 'static, R: 'static {
    closed spec fn apply_requires(&self, input: T) -> bool {
        (self.requires_spec@)(input)
    }

    closed spec fn apply_ensures(&self, input: T, output: R) -> bool {
        (self.ensures_spec@)(input, output)
    }


    closed spec fn history(&self) -> Option<Seq<(T, R)>> {
        None
    }
    fn apply(&mut self, input: T) -> (output: R) {
        proof {
            use_type_invariant(&*self);
        }
        let (mut m, handle) = self.function.acquire_write();
        let output = m.apply(input);
        handle.release_write(m);
        output
    }
}

/// An `ArcMapper` restricted to the inputs where a predicate holds, waiting
/// for the mapper to use elsewhere.
#[verifier::reject_recursive_types(T)]
#[verifier::reject_recursive_types(R)]
pub struct ArcConditionalMapper<T, R> {
    mapper: ArcMapper<T, R>,
    predicate: ArcPredicate<T>,
}

impl<T, R> ArcConditionalMapper<T, R> {
    /// The mapper used where the predicate holds.
    pub closed spec fn mapper(&self) -> ArcMapper<T, R> {
        self.mapper
    }

    /// The predicate that chooses.
    pub closed spec fn predicate(&self) -> ArcPredicate<T> {
        self.predicate
    }
}

impl<T, R> Clone for ArcConditionalMapper<T, R> where T: 'static, R: 'static {
    /// Another handle to the same mapper and predicate.
    fn clone(&self) -> (res: Self)
        ensures
            res.mapper() == self.mapper(),
            same_predicate(res.predicate(), self.predicate()),
    {
        ArcConditionalMapper { mapper: self.mapper.clone(), predicate: self.predicate.clone() }
    }
}

impl<T, R> ArcConditionalMapper<T, R> where T: Send + Sync + 'static, R: Send + 'static {
    /// The conditional mapper where the predicate holds, `else_mapper`
    /// elsewhere.
    pub fn or_else<F>(self, else_mapper: F) -> (res: ArcMapper<T, R>)
        where F: Mapper<T, R> + Send + Sync + 'static
        ensures
            forall|x: T| #[trigger] res.apply_requires(x) == branch_requires(self.predicate(), self.mapper(), else_mapper, x),
            forall|x: T, y: R| #[trigger] res.apply_ensures(x, y) == branch_ensures(self.predicate(), self.mapper(), else_mapper, x, y),
    {
        ArcMapper::from_mapper(BranchMapper { predicate: self.predicate, then_mapper: self.mapper, else_mapper })
    }
}

/// Conversions of a mapper into the three ownership flavours, keeping its
/// behaviour.
pub trait IntoMapper<T, R>: Mapper<T, R> + Sized + 'static {
    /// Converts into a `BoxMapper`.
    fn into_box(self) -> (res: BoxMapper<T, R>)
        where T: 'static, R: 'static
        ensures
            same_mapper(res, self),
    ;

    /// Converts into an `RcMapper`.
    fn into_rc(self) -> (res: RcMapper<T, R>)
        where T: 'static, R: 'static
        ensures
            same_mapper(res, self),
    ;

    /// Converts into an `ArcMapper`.
    fn into_arc(self) -> (res: ArcMapper<T, R>)
        where Self: Send + Sync, T: Send + Sync + 'static, R: Send + 'static
        ensures
            same_mapper(res, self),
    ;

    /// Converts a clone into a `BoxMapper`; this one stays usable.
    fn to_box(&self) -> (res: BoxMapper<T, R>)
        where Self: Clone, T: 'static, R: 'static
        ensures
            exists|c: Self| #[trigger] cloned(*self, c) && same_mapper(res, c),
    ;

    /// Converts a clone into an `RcMapper`; this one stays usable.
    fn to_rc(&self) -> (res: RcMapper<T, R>)
        where Self: Clone, T: 'static, R: 'static
        ensures
            exists|c: Self| #[trigger] cloned(*self, c) && same_mapper(res, c),
    ;

    /// Converts a clone into an `ArcMapper`; this one stays usable.
    fn to_arc(&self) -> (res: ArcMapper<T, R>)
        where Self: Clone + Send + Sync, T: Send + Sync + 'static, R: Send + 'static
        ensures
            exists|c: Self| #[trigger] cloned(*self, c) && same_mapper(res, c),
    ;
}

/// Closures convert by being wrapped.
impl<T, R, F> IntoMapper<T, R> for F where F: FnMut(T) -> R + 'static {
    fn into_box(self) -> (res: BoxMapper<T, R>)
        where T: 'static, R: 'static
    {
        BoxMapper::new(self)
    }

    fn into_rc(self) -> (res: RcMapper<T, R>)
        where T: 'static, R: 'static
    {
        RcMapper::new(self)
    }

    fn into_arc(self) -> (res: ArcMapper<T, R>)
        where Self: Send + Sync, T: Send + Sync + 'static, R: Send + 'static
    {
        ArcMapper::new(self)
    }

    fn to_box(&self) -> (res: BoxMapper<T, R>)
        where Self: Clone, T: 'static, R: 'static
    {
        let c = self.clone();
        proof {
            assert(cloned(*self, c));
        }
        c.into_box()
    }

    fn to_rc(&self) -> (res: RcMapper<T, R>)
        where Self: Clone, T: 'static, R: 'static
    {
        let c = self.clone();
        proof {
            assert(cloned(*self, c));
        }
        c.into_rc()
    }

    fn to_arc(&self) -> (res: ArcMapper<T, R>)
        where Self: Clone + Send + Sync, T: Send + Sync + 'static, R: Send + 'static
    {
        let c = self.clone();
        proof {
            assert(cloned(*self, c));
        }
        c.into_arc()
    }
}

impl<T: 'static, R: 'static> IntoMapper<T, R> for BoxMapper<T, R> {
    fn into_box(self) -> (res: BoxMapper<T, R>) {
        self
    }

    fn into_rc(self) -> (res: RcMapper<T, R>) {
        RcMapper::from_mapper(self)
    }

    /// Only callable where the mapper may be shared between threads, which a
    /// `BoxMapper` never may.
    fn into_arc(self) -> (res: ArcMapper<T, R>)
        where Self: Send + Sync, T: Send + Sync + 'static, R: Send + 'static
    {
        ArcMapper::from_mapper(self)
    }

    fn to_box(&self) -> (res: BoxMapper<T, R>)
        where Self: Clone, T: 'static, R: 'static
    {
        let c = self.clone();
        proof {
            assert(cloned(*self, c));
        }
        c.into_box()
    }

    fn to_rc(&self) -> (res: RcMapper<T, R>)
        where Self: Clone, T: 'static, R: 'static
    {
        let c = self.clone();
        proof {
            assert(cloned(*self, c));
        }
        c.into_rc()
    }

    fn to_arc(&self) -> (res: ArcMapper<T, R>)
        where Self: Clone + Send + Sync, T: Send + Sync + 'static, R: Send + 'static
    {
        let c = self.clone();
        proof {
            assert(cloned(*self, c));
        }
        c.into_arc()
    }
}

impl<T: 'static, R: 'static> IntoMapper<T, R> for RcMapper<T, R> {
    fn into_box(self) -> (res: BoxMapper<T, R>) {
        BoxMapper { function: Box::new(self) }
    }

    fn into_rc(self) -> (res: RcMapper<T, R>) {
        self
    }

    /// Only callable where the mapper may be shared between threads, which an
    /// `RcMapper` never may.
    fn into_arc(self) -> (res: ArcMapper<T, R>)
        where Self: Send + Sync, T: Send + Sync + 'static, R: Send + 'static
    {
        ArcMapper::from_mapper(self)
    }

    fn to_box(&self) -> (res: BoxMapper<T, R>)
        where Self: Clone, T: 'static, R: 'static
        ensures
            same_mapper(res, *self),
    {
        let c = self.clone();
        proof {
            assert(cloned(*self, c));
        }
        c.into_box()
    }

    fn to_rc(&self) -> (res: RcMapper<T, R>)
        where Self: Clone, T: 'static, R: 'static
        ensures
            same_mapper(res, *self),
    {
        let c = self.clone();
        proof {
            assert(cloned(*self, c));
        }
        c.into_rc()
    }

    fn to_arc(&self) -> (res: ArcMapper<T, R>)
        where Self: Clone + Send + Sync, T: Send + Sync + 'static, R: Send + 'static
        ensures
            same_mapper(res, *self),
    {
        let c = self.clone();
        proof {
            assert(cloned(*self, c));
        }
        c.into_arc()
    }
}

impl<T: 'static, R: 'static> IntoMapper<T, R> for ArcMapper<T, R> {
    fn into_box(self) -> (res: BoxMapper<T, R>) {
        BoxMapper { function: Box::new(self) }
    }

    fn into_rc(self) -> (res: RcMapper<T, R>) {
        RcMapper::from_mapper(self)
    }

    fn into_arc(self) -> (res: ArcMapper<T, R>)
        where Self: Send + Sync, T: Send + Sync + 'static, R: Send + 'static
    {
        self
    }

    fn to_box(&self) -> (res: BoxMapper<T, R>)
        where Self: Clone, T: 'static, R: 'static
        ensures
            same_mapper(res, *self),
    {
        let c = self.clone();
        proof {
            assert(cloned(*self, c));
        }
        c.into_box()
    }

    fn to_rc(&self) -> (res: RcMapper<T, R>)
        where Self: Clone, T: 'static, R: 'static
        ensures
            same_mapper(res, *self),
    {
        let c = self.clone();
        proof {
            assert(cloned(*self, c));
        }
        c.into_rc()
    }

    fn to_arc(&self) -> (res: ArcMapper<T, R>)
        where Self: Clone + Send + Sync, T: Send + Sync + 'static, R: Send + 'static
        ensures
            same_mapper(res, *self),
    {
        let c = self.clone();
        proof {
            assert(cloned(*self, c));
        }
        c.into_arc()
    }
}

/// Composition methods on closures, producing `BoxMapper`s.
pub trait FnMapperOps<T, R>: Mapper<T, R> + Sized + 'static {
    /// This closure, then `after`.
    fn and_then<S, F>(self, after: F) -> (res: BoxMapper<T, S>)
        where S: 'static, F: Mapper<R, S> + 'static, T: 'static, R: 'static
        ensures
            forall|x: T| #[trigger] res.apply_requires(x) == chain_requires(self, after, x),
            forall|x: T, z: S| #[trigger] res.apply_ensures(x, z) == chain_ensures(self, after, x, z),
    ;

    /// `before`, then this closure.
    fn compose<S, F>(self, before: F) -> (res: BoxMapper<S, R>)
        where S: 'static, F: Mapper<S, T> + 'static, T: 'static, R: 'static
        ensures
            forall|x: S| #[trigger] res.apply_requires(x) == chain_requires(before, self, x),
            forall|x: S, z: R| #[trigger] res.apply_ensures(x, z) == chain_ensures(before, self, x, z),
    ;

    /// This closure, applied only where `predicate` holds; see `or_else`.
    fn when<P>(self, predicate: P) -> (res: BoxConditionalMapper<T, R>)
        where P: Predicate<T> + 'static, T: 'static, R: 'static
        ensures
            same_mapper(res.mapper(), self),
            same_predicate(res.predicate(), predicate),
    ;
}

impl<T, R, C> FnMapperOps<T, R> for C where C: FnMut(T) -> R + 'static {
    fn and_then<S, F>(self, after: F) -> (res: BoxMapper<T, S>)
        where S: 'static, F: Mapper<R, S> + 'static, T: 'static, R: 'static
    {
        BoxMapper { function: Box::new(ChainedMapper { first: self, second: after, middle: Ghost(None) }) }
    }

    fn compose<S, F>(self, before: F) -> (res: BoxMapper<S, R>)
        where S: 'static, F: Mapper<S, T> + 'static, T: 'static, R: 'static
    {
        BoxMapper { function: Box::new(ChainedMapper { first: before, second: self, middle: Ghost(None) }) }
    }

    fn when<P>(self, predicate: P) -> (res: BoxConditionalMapper<T, R>)
        where P: Predicate<T> + 'static, T: 'static, R: 'static
    {
        BoxMapper::new(self).when(predicate)
    }
}

} // verus!
