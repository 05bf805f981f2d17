//! Stateful functions: conversions `FnMut(&T) -> R` that borrow their input
//! and may keep state, in three ownership flavours, with composition and
//! conditional application.
//!
//! A function's behaviour is modelled as a relation that holds on every call,
//! whatever state the function has reached: `apply_requires(t)` says which
//! inputs it accepts, `apply_ensures(t, r)` which outputs it may give. A call
//! does not change this relation. The shared flavours keep the function in a
//! lock, so clones share its state.
use vstd::prelude::*;
use vstd::rwlock::RwLock;
use std::rc::Rc;
use std::sync::Arc;
use crate::predicate::{Predicate, BoxPredicate, RcPredicate, ArcPredicate, same_predicate};
use crate::shared::{rc_share, arc_share, record};

verus! {

/// A stateful conversion from `T` to `R`.
pub trait StatefulFunction<T, R> {
    /// Inputs the function accepts.
    spec fn apply_requires(&self, input: T) -> bool;

    /// Outputs the function may give for an input.
    spec fn apply_ensures(&self, input: T, output: R) -> bool;

    /// The calls the function has answered, as `(input, output)` pairs,
    /// oldest first, where it keeps a record of them; `None` where it keeps
    /// none.
    spec fn history(&self) -> Option<Seq<(T, R)>>;

    /// Converts `input`, possibly updating the function's state. A function
    /// that keeps a record of its calls records this one.
    fn apply(&mut self, input: &T) -> (output: R)
        requires
            old(self).apply_requires(*input),
        ensures
            old(self).apply_ensures(*input, output),
            final(self).history() == record(old(self).history(), (*input, output)),
            forall|x: T| #[trigger] final(self).apply_requires(x) == old(self).apply_requires(x),
            forall|x: T, y: R| #[trigger] final(self).apply_ensures(x, y) == old(self).apply_ensures(x, y),
    ;
}

/// Two functions accept the same inputs and may give the same outputs.
pub open spec fn same_function<T, R, A: StatefulFunction<T, R>, B: StatefulFunction<T, R>>(a: A, b: B) -> bool {
    &&& forall|x: T| #[trigger] a.apply_requires(x) == b.apply_requires(x)
    &&& forall|x: T, y: R| #[trigger] a.apply_ensures(x, y) == b.apply_ensures(x, y)
}

/// When `a` followed by `b` accepts `x`: `a` does, and `b` accepts every
/// output `a` may give for it.
pub open spec fn chain_requires<T, R, S, A: StatefulFunction<T, R>, B: StatefulFunction<R, S>>(a: A, b: B, x: T) -> bool {
    &&& a.apply_requires(x)
    &&& forall|y: R| #[trigger] a.apply_ensures(x, y) ==> b.apply_requires(y)
}

/// Outputs of `a` followed by `b`.
pub open spec fn chain_ensures<T, R, S, A: StatefulFunction<T, R>, B: StatefulFunction<R, S>>(a: A, b: B, x: T, z: S) -> bool {
    exists|y: R| #[trigger] a.apply_ensures(x, y) && b.apply_ensures(y, z)
}

/// Chaining two functions whose behaviour is unchanged leaves the chain's
/// behaviour unchanged.
proof fn lemma_chain_stable<T, R, S, A: StatefulFunction<T, R>, B: StatefulFunction<R, S>>(a0: A, b0: B, a1: A, b1: B)
    requires
        same_function(a0, a1),
        same_function(b0, b1),
    ensures
        forall|x: T| #[trigger] chain_requires(a1, b1, x) == chain_requires(a0, b0, x),
        forall|x: T, z: S| #[trigger] chain_ensures(a1, b1, x, z) == chain_ensures(a0, b0, x, z),
{
    assert forall|x: T| #[trigger] chain_requires(a1, b1, x) == chain_requires(a0, b0, x) by {
        assert forall|y: R| #[trigger] a1.apply_ensures(x, y) ==> b1.apply_requires(y)
            <==> (a0.apply_ensures(x, y) ==> b0.apply_requires(y)) by {
            assert(a1.apply_ensures(x, y) == a0.apply_ensures(x, y));
            assert(b1.apply_requires(y) == b0.apply_requires(y));
        }
        assert(a1.apply_requires(x) == a0.apply_requires(x));
    }
    assert forall|x: T, z: S| #[trigger] chain_ensures(a1, b1, x, z) == chain_ensures(a0, b0, x, z) by {
        if chain_ensures(a1, b1, x, z) {
            let y = choose|y: R| #[trigger] a1.apply_ensures(x, y) && b1.apply_ensures(y, z);
            assert(a0.apply_ensures(x, y) && b0.apply_ensures(y, z));
        }
        if chain_ensures(a0, b0, x, z) {
            let y = choose|y: R| #[trigger] a0.apply_ensures(x, y) && b0.apply_ensures(y, z);
            assert(a1.apply_ensures(x, y) && b1.apply_ensures(y, z));
        }
    }
}

/// When `p ? a : b` accepts `x`.
pub open spec fn branch_requires<T, R, P: Predicate<T>, A: StatefulFunction<T, R>, B: StatefulFunction<T, R>>(p: P, a: A, b: B, x: T) -> bool {
    &&& p.test_requires(x)
    &&& p.test_ensures(x, true) ==> a.apply_requires(x)
    &&& p.test_ensures(x, false) ==> b.apply_requires(x)
}

/// Outputs of `p ? a : b`.
pub open spec fn branch_ensures<T, R, P: Predicate<T>, A: StatefulFunction<T, R>, B: StatefulFunction<T, R>>(p: P, a: A, b: B, x: T, y: R) -> bool {
    ||| p.test_ensures(x, true) && a.apply_ensures(x, y)
    ||| p.test_ensures(x, false) && b.apply_ensures(x, y)
}


/// `c` behaves as `a` followed by `b`, as `a.and_then(b)` and `b.compose(a)`
/// do.
pub open spec fn is_chain<T, R, S, C: StatefulFunction<T, S>, A: StatefulFunction<T, R>, B: StatefulFunction<R, S>>(c: C, a: A, b: B) -> bool {
    &&& forall|x: T| #[trigger] c.apply_requires(x) == chain_requires(a, b, x)
    &&& forall|x: T, z: S| #[trigger] c.apply_ensures(x, z) == chain_ensures(a, b, x, z)
}

/// `m` accepts every input and returns a clone of it, as `identity()` does.
pub open spec fn is_identity<T: Clone, M: StatefulFunction<T, T>>(m: M) -> bool {
    &&& forall|x: T| #[trigger] m.apply_requires(x)
    &&& forall|x: T, y: T| #[trigger] m.apply_ensures(x, y) == cloned(x, y)
}

/// Cloning a `T` gives back an equal value.
pub open spec fn clone_is_exact<T: Clone>() -> bool {
    forall|x: T, y: T| #[trigger] cloned(x, y) ==> y == x
}

/// Where clones are exact, the identity is a left unit of chaining:
/// `identity().and_then(m)` behaves as `m`.
pub proof fn law_identity_then<T: Clone, R, I: StatefulFunction<T, T>, M: StatefulFunction<T, R>, C: StatefulFunction<T, R>>(i: I, m: M, c: C)
    requires
        clone_is_exact::<T>(),
        is_identity(i),
        is_chain(c, i, m),
    ensures
        same_function(c, m),
{
    assert forall|x: T| #[trigger] c.apply_requires(x) == m.apply_requires(x) by {
        assert(i.apply_ensures(x, x));
    }
    assert forall|x: T, z: R| #[trigger] c.apply_ensures(x, z) == m.apply_ensures(x, z) by {
        if m.apply_ensures(x, z) {
            assert(i.apply_ensures(x, x));
        }
    }
}

/// Where clones are exact, the identity is a right unit of chaining:
/// `m.and_then(identity())` behaves as `m`.
pub proof fn law_then_identity<T, R: Clone, M: StatefulFunction<T, R>, I: StatefulFunction<R, R>, C: StatefulFunction<T, R>>(m: M, i: I, c: C)
    requires
        clone_is_exact::<R>(),
        is_identity(i),
        is_chain(c, m, i),
    ensures
        same_function(c, m),
{
    assert forall|x: T, z: R| #[trigger] c.apply_ensures(x, z) == m.apply_ensures(x, z) by {
        if m.apply_ensures(x, z) {
            assert(i.apply_ensures(z, z));
        }
    }
}

/// Chaining is associative: `(a then b) then c` behaves as
/// `a then (b then c)`.
pub proof fn law_chain_associative<T, R, S, U, A: StatefulFunction<T, R>, B: StatefulFunction<R, S>, C: StatefulFunction<S, U>, AB: StatefulFunction<T, S>, LeftNested: StatefulFunction<T, U>, BC: StatefulFunction<R, U>, RightNested: StatefulFunction<T, U>>(
    a: A,
    b: B,
    c: C,
    ab: AB,
    ab_c: LeftNested,
    bc: BC,
    a_bc: RightNested,
)
    requires
        is_chain(ab, a, b),
        is_chain(ab_c, ab, c),
        is_chain(bc, b, c),
        is_chain(a_bc, a, bc),
    ensures
        same_function(ab_c, a_bc),
{
    assert forall|x: T| #[trigger] ab_c.apply_requires(x) == a_bc.apply_requires(x) by {
        if ab_c.apply_requires(x) {
            assert forall|y: R| #[trigger] a.apply_ensures(x, y) implies bc.apply_requires(y) by {
                assert forall|z: S| #[trigger] b.apply_ensures(y, z) implies c.apply_requires(z) by {
                    assert(ab.apply_ensures(x, z));
                }
            }
        }
        if a_bc.apply_requires(x) {
            assert forall|z: S| #[trigger] ab.apply_ensures(x, z) implies c.apply_requires(z) by {
                let y = choose|y: R| #[trigger] a.apply_ensures(x, y) && b.apply_ensures(y, z);
                assert(bc.apply_requires(y));
            }
        }
    }
    assert forall|x: T, w: U| #[trigger] ab_c.apply_ensures(x, w) == a_bc.apply_ensures(x, w) by {
        if ab_c.apply_ensures(x, w) {
            let z = choose|z: S| #[trigger] ab.apply_ensures(x, z) && c.apply_ensures(z, w);
            let y = choose|y: R| #[trigger] a.apply_ensures(x, y) && b.apply_ensures(y, z);
            assert(bc.apply_ensures(y, w));
        }
        if a_bc.apply_ensures(x, w) {
            let y = choose|y: R| #[trigger] a.apply_ensures(x, y) && bc.apply_ensures(y, w);
            let z = choose|z: S| #[trigger] b.apply_ensures(y, z) && c.apply_ensures(z, w);
            assert(ab.apply_ensures(x, z));
        }
    }
}

/// Where the predicate always holds, `m.when(p).or_else(e)` behaves as `m`.
pub proof fn law_branch_always_then<T, R, P: Predicate<T>, M: StatefulFunction<T, R>, E: StatefulFunction<T, R>, B: StatefulFunction<T, R>>(p: P, m: M, e: E, b: B)
    requires
        forall|x: T| #[trigger] p.test_requires(x),
        forall|x: T, r: bool| #[trigger] p.test_ensures(x, r) == r,
        forall|x: T| #[trigger] b.apply_requires(x) == branch_requires(p, m, e, x),
        forall|x: T, y: R| #[trigger] b.apply_ensures(x, y) == branch_ensures(p, m, e, x, y),
    ensures
        same_function(b, m),
{
    assert forall|x: T| #[trigger] b.apply_requires(x) == m.apply_requires(x) by {
        assert(p.test_ensures(x, true));
        assert(!p.test_ensures(x, false));
    }
    assert forall|x: T, y: R| #[trigger] b.apply_ensures(x, y) == m.apply_ensures(x, y) by {
        assert(p.test_ensures(x, true));
        assert(!p.test_ensures(x, false));
    }
}

/// The identity function.
struct IdentityStatefulFunction;

impl<T: Clone> StatefulFunction<T, T> for IdentityStatefulFunction {
    closed spec fn apply_requires(&self, input: T) -> bool {
        true
    }

    closed spec fn apply_ensures(&self, input: T, output: T) -> bool {
        cloned(input, output)
    }


    closed spec fn history(&self) -> Option<Seq<(T, T)>> {
        None
    }
    fn apply(&mut self, input: &T) -> (output: T) {
        input.clone()
    }
}

/// A function giving clones of one value.
struct ConstantStatefulFunction<R> {
    value: R,
}

impl<T, R: Clone> StatefulFunction<T, R> for ConstantStatefulFunction<R> {
    closed spec fn apply_requires(&self, input: T) -> bool {
        true
    }

    closed spec fn apply_ensures(&self, input: T, output: R) -> bool {
        cloned(self.value, output)
    }


    closed spec fn history(&self) -> Option<Seq<(T, R)>> {
        None
    }
    fn apply(&mut self, input: &T) -> (output: R) {
        self.value.clone()
    }
}

/// `f0` answered one call on `x` with `y` and became `f1`: `y` is an output
/// it may give for `x`, and its record, where it keeps one, gained exactly
/// that call.
pub open spec fn one_call<T, R, F: StatefulFunction<T, R>>(f0: F, x: T, y: R, f1: F) -> bool {
    &&& f0.apply_ensures(x, y)
    &&& f1.history() == record(f0.history(), (x, y))
}

/// One call of `a` followed by `b` on `x` giving `z`, where `a` was `a0` and
/// became `a1`, and `b` was `b0` and became `b1`: `a` answered one call on
/// `x`, and `b` one call on `a`'s output, whose result is `z`.
pub open spec fn chain_call<T, R, S, A: StatefulFunction<T, R>, B: StatefulFunction<R, S>>(a0: A, b0: B, a1: A, b1: B, x: T, z: S) -> bool {
    exists|y: R| #[trigger] one_call(a0, x, y, a1) && one_call(b0, y, z, b1)
}

/// One call of `p ? a : b` on `x` giving `y`: the predicate answered, and
/// exactly the chosen function answered one call on `x` with `y` while the
/// other was left as it was.
pub open spec fn branch_call<T, R, P: Predicate<T>, A: StatefulFunction<T, R>, B: StatefulFunction<T, R>>(p: P, a0: A, b0: B, a1: A, b1: B, x: T, y: R) -> bool {
    ||| p.test_ensures(x, true) && one_call(a0, x, y, a1) && b1 == b0
    ||| p.test_ensures(x, false) && one_call(b0, x, y, b1) && a1 == a0
}

/// Each call of a chain makes exactly one call of each part: where the
/// second part keeps a record, one call of the chain adds exactly one entry
/// to it, whose input is an output of the first part on the chain's input
/// and whose output is the chain's result; the same holds of the first part.
pub proof fn law_chain_calls_each_part_once<T, R, S, A: StatefulFunction<T, R>, B: StatefulFunction<R, S>>(a0: A, b0: B, a1: A, b1: B, x: T, z: S)
    requires
        chain_call(a0, b0, a1, b1, x, z),
    ensures
        b0.history() is Some ==> b1.history() is Some && b1.history()->0.len() == b0.history()->0.len() + 1
            && b1.history()->0.last().1 == z && a0.apply_ensures(x, b1.history()->0.last().0),
        a0.history() is Some ==> a1.history() is Some && a1.history()->0.len() == a0.history()->0.len() + 1
            && a1.history()->0.last().0 == x,
        b0.history() is Some && a0.history() is Some ==> a1.history()->0.last().1 == b1.history()->0.last().0,
{
    let y = choose|y: R| #[trigger] one_call(a0, x, y, a1) && one_call(b0, y, z, b1);
}

/// Each call of `p ? a : b` makes exactly one call of the chosen function
/// and none of the other: where the chosen function keeps a record, it gains
/// exactly one entry, the input and the result of this call, and the other
/// function is unchanged.
pub proof fn law_branch_calls_chosen_once<T, R, P: Predicate<T>, A: StatefulFunction<T, R>, B: StatefulFunction<T, R>>(p: P, a0: A, b0: B, a1: A, b1: B, x: T, y: R)
    requires
        branch_call(p, a0, b0, a1, b1, x, y),
        forall|b: bool| #[trigger] p.test_ensures(x, b) ==> b == p.test_ensures(x, true),
    ensures
        p.test_ensures(x, true) ==> b1 == b0 && (a0.history() matches Some(h) ==> a1.history() == Some(h.push((x, y)))),
        !p.test_ensures(x, true) ==> a1 == a0 && (b0.history() matches Some(h) ==> b1.history() == Some(h.push((x, y)))),
{
}

/// Two functions applied in turn: what `and_then` and `compose` build.
pub struct ChainedStatefulFunction<R, A, B> {
    first: A,
    second: B,
    middle: Ghost<Option<R>>,
}

impl<R, A, B> ChainedStatefulFunction<R, A, B> {
    /// The function applied first.
    pub closed spec fn first_part(&self) -> A {
        self.first
    }

    /// The function applied to the first one's output.
    pub closed spec fn second_part(&self) -> B {
        self.second
    }
}

impl<T, R, S, A: StatefulFunction<T, R>, B: StatefulFunction<R, S>> StatefulFunction<T, S> for ChainedStatefulFunction<R, A, B> {
    closed spec fn apply_requires(&self, input: T) -> bool {
        chain_requires(self.first, self.second, input)
    }

    closed spec fn apply_ensures(&self, input: T, output: S) -> bool {
        chain_ensures(self.first, self.second, input, output)
    }


    closed spec fn history(&self) -> Option<Seq<(T, S)>> {
        None
    }
    fn apply(&mut self, input: &T) -> (output: S)
        ensures
            chain_call(old(self).first_part(), old(self).second_part(), final(self).first_part(), final(self).second_part(), *input, output),
    {
        let ghost a0 = self.first;
        let ghost b0 = self.second;
        let y = self.first.apply(input);
        let z = self.second.apply(&y);
        proof {
            assert(one_call(a0, *input, y, self.first) && one_call(b0, y, z, self.second));
            lemma_chain_stable(a0, b0, self.first, self.second);
        }
        z
    }
}

/// A function chosen per input by a predicate: what `or_else` builds.
pub struct BranchStatefulFunction<P, A, B> {
    predicate: P,
    then_function: A,
    else_function: B,
}

impl<P, A, B> BranchStatefulFunction<P, A, B> {
    /// The predicate that chooses.
    pub closed spec fn chooser(&self) -> P {
        self.predicate
    }

    /// The function used where the predicate holds.
    pub closed spec fn then_part(&self) -> A {
        self.then_function
    }

    /// The function used where it does not.
    pub closed spec fn else_part(&self) -> B {
        self.else_function
    }
}

impl<T, R, P: Predicate<T>, A: StatefulFunction<T, R>, B: StatefulFunction<T, R>> StatefulFunction<T, R> for BranchStatefulFunction<P, A, B> {
    closed spec fn apply_requires(&self, input: T) -> bool {
        branch_requires(self.predicate, self.then_function, self.else_function, input)
    }

    closed spec fn apply_ensures(&self, input: T, output: R) -> bool {
        branch_ensures(self.predicate, self.then_function, self.else_function, input, output)
    }


    closed spec fn history(&self) -> Option<Seq<(T, R)>> {
        None
    }
    fn apply(&mut self, input: &T) -> (output: R)
        ensures
            branch_call(
                old(self).chooser(),
                old(self).then_part(),
                old(self).else_part(),
                final(self).then_part(),
                final(self).else_part(),
                *input,
                output,
            ),
    {
        if self.predicate.test(input) {
            self.then_function.apply(input)
        } else {
            self.else_function.apply(input)
        }
    }
}

/// A function that may be shared between threads.
pub trait SharedStatefulFunction<T, R>: Send + Sync {
    /// Inputs the function accepts.
    spec fn shared_apply_requires(&self, input: T) -> bool;

    /// Outputs the function may give for an input.
    spec fn shared_apply_ensures(&self, input: T, output: R) -> bool;

    /// Converts `input`, possibly updating the function's state.
    fn shared_apply(&mut self, input: &T) -> (output: R)
        requires
            old(self).shared_apply_requires(*input),
        ensures
            old(self).shared_apply_ensures(*input, output),
            forall|x: T| #[trigger] final(self).shared_apply_requires(x) == old(self).shared_apply_requires(x),
            forall|x: T, y: R| #[trigger] final(self).shared_apply_ensures(x, y) == old(self).shared_apply_ensures(x, y),
    ;
}

impl<T, R, M: StatefulFunction<T, R> + Send + Sync> SharedStatefulFunction<T, R> for M {
    open spec fn shared_apply_requires(&self, input: T) -> bool {
        self.apply_requires(input)
    }

    open spec fn shared_apply_ensures(&self, input: T, output: R) -> bool {
        self.apply_ensures(input, output)
    }

    fn shared_apply(&mut self, input: &T) -> (output: R) {
        self.apply(input)
    }
}

/// A closure's behaviour as a stateful function is its own precondition and
/// postcondition. Call this where a concrete closure is used, so that its
/// relation unfolds.
pub proof fn lemma_closure_stateful_function<T, R, F: FnMut(&T) -> R>(f: F)
    ensures
        forall|x: T| #[trigger] f.apply_requires(x) == f.requires((&x,)),
        forall|x: T, y: R| #[trigger] f.apply_ensures(x, y) == f.ensures((&x,), y),
{
}

/// Every closure `FnMut(&T) -> R` is a stateful function, with the closure's own
/// precondition and postcondition.
impl<T, R, F> StatefulFunction<T, R> for F where F: FnMut(&T) -> R {
    open spec fn apply_requires(&self, input: T) -> bool {
        self.requires((&input,))
    }

    open spec fn apply_ensures(&self, input: T, output: R) -> bool {
        self.ensures((&input,), output)
    }


    open spec fn history(&self) -> Option<Seq<(T, R)>> {
        None
    }
    fn apply(&mut self, input: &T) -> (output: R) {
        broadcast use vstd::function::group_function_axioms;
        self(input)
    }
}

/// A function with single ownership.
#[verifier::reject_recursive_types(T)]
#[verifier::reject_recursive_types(R)]
pub struct BoxStatefulFunction<T, R> {
    function: Box<dyn StatefulFunction<T, R>>,
}

impl<T, R> BoxStatefulFunction<T, R> where T: 'static, R: 'static {
    /// Wraps a closure.
    pub fn new<F>(f: F) -> (res: Self)
        where F: FnMut(&T) -> R + 'static
        ensures
            forall|x: T| #[trigger] res.apply_requires(x) == f.requires((&x,)),
            forall|x: T, y: R| #[trigger] res.apply_ensures(x, y) == f.ensures((&x,), y),
    {
        BoxStatefulFunction { function: Box::new(f) }
    }

    /// The function that returns its input.
    pub fn identity() -> (res: BoxStatefulFunction<T, T>)
        where T: Clone
        ensures
            forall|x: T| #[trigger] res.apply_requires(x),
            forall|x: T, y: T| #[trigger] res.apply_ensures(x, y) == cloned(x, y),
    {
        BoxStatefulFunction { function: Box::new(IdentityStatefulFunction) }
    }

    /// This function, then `after`.
    pub fn and_then<S, F>(self, after: F) -> (res: BoxStatefulFunction<T, S>)
        where S: 'static, F: StatefulFunction<R, S> + 'static
        ensures
            forall|x: T| #[trigger] res.apply_requires(x) == chain_requires(self, after, x),
            forall|x: T, z: S| #[trigger] res.apply_ensures(x, z) == chain_ensures(self, after, x, z),
    {
        BoxStatefulFunction { function: Box::new(ChainedStatefulFunction { first: self, second: after, middle: Ghost(None) }) }
    }

    /// `before`, then this function.
    pub fn compose<S, F>(self, before: F) -> (res: BoxStatefulFunction<S, R>)
        where S: 'static, F: StatefulFunction<S, T> + 'static
        ensures
            forall|x: S| #[trigger] res.apply_requires(x) == chain_requires(before, self, x),
            forall|x: S, z: R| #[trigger] res.apply_ensures(x, z) == chain_ensures(before, self, x, z),
    {
        BoxStatefulFunction { function: Box::new(ChainedStatefulFunction { first: before, second: self, middle: Ghost(None) }) }
    }

    /// This function, applied only where `predicate` holds; see `or_else`.
    pub fn when<P>(self, predicate: P) -> (res: BoxConditionalStatefulFunction<T, R>)
        where P: Predicate<T> + 'static
        ensures
            res.function() == self,
            same_predicate(res.predicate(), predicate),
    {
        BoxConditionalStatefulFunction { function: self, predicate: BoxPredicate::wrap(predicate) }
    }

    /// The function that gives clones of `value`.
    pub fn constant(value: R) -> (res: BoxStatefulFunction<T, R>)
        where R: Clone
        ensures
            forall|x: T| #[trigger] res.apply_requires(x),
            forall|x: T, y: R| #[trigger] res.apply_ensures(x, y) == cloned(value, y),
    {
        BoxStatefulFunction { function: Box::new(ConstantStatefulFunction { value }) }
    }
}

impl<T, R> StatefulFunction<T, R> for BoxStatefulFunction<T, R> where T: 'static, R: 'static {
    closed spec fn apply_requires(&self, input: T) -> bool {
        self.function.apply_requires(input)
    }

    closed spec fn apply_ensures(&self, input: T, output: R) -> bool {
        self.function.apply_ensures(input, output)
    }


    closed spec fn history(&self) -> Option<Seq<(T, R)>> {
        self.function.history()
    }
    fn apply(&mut self, input: &T) -> (output: R) {
        self.function.apply(input)
    }
}

/// A `BoxStatefulFunction` restricted to the inputs where a predicate holds, waiting
/// for the function to use elsewhere.
#[verifier::reject_recursive_types(T)]
#[verifier::reject_recursive_types(R)]
pub struct BoxConditionalStatefulFunction<T, R> {
    function: BoxStatefulFunction<T, R>,
    predicate: BoxPredicate<T>,
}

impl<T, R> BoxConditionalStatefulFunction<T, R> {
    /// The function used where the predicate holds.
    pub closed spec fn function(&self) -> BoxStatefulFunction<T, R> {
        self.function
    }

    /// The predicate that chooses.
    pub closed spec fn predicate(&self) -> BoxPredicate<T> {
        self.predicate
    }
}

impl<T, R> BoxConditionalStatefulFunction<T, R> where T: 'static, R: 'static {
    /// The conditional function where the predicate holds, `else_function`
    /// elsewhere.
    pub fn or_else<F>(self, else_function: F) -> (res: BoxStatefulFunction<T, R>)
        where F: StatefulFunction<T, R> + 'static
        ensures
            forall|x: T| #[trigger] res.apply_requires(x) == branch_requires(self.predicate(), self.function(), else_function, x),
            forall|x: T, y: R| #[trigger] res.apply_ensures(x, y) == branch_ensures(self.predicate(), self.function(), else_function, x, y),
    {
        BoxStatefulFunction { function: Box::new(BranchStatefulFunction { predicate: self.predicate, then_function: self.function, else_function }) }
    }
}

/// Whatever function a lock holds accepts every input in `req` and gives only
/// outputs in `ens`.
pub open spec fn lock_holds<T, R, M: StatefulFunction<T, R>>(req: spec_fn(T) -> bool, ens: spec_fn(T, R) -> bool, m: M) -> bool {
    &&& forall|x: T| req(x) ==> #[trigger] m.apply_requires(x)
    &&& forall|x: T, y: R| #[trigger] m.apply_ensures(x, y) ==> ens(x, y)
}

/// A boxed function that may be shared between threads.
#[verifier::reject_recursive_types(T)]
#[verifier::reject_recursive_types(R)]
struct SyncBoxStatefulFunction<T, R> {
    function: Box<dyn SharedStatefulFunction<T, R>>,
}

impl<T, R> StatefulFunction<T, R> for SyncBoxStatefulFunction<T, R> where T: 'static, R: 'static {
    closed spec fn apply_requires(&self, input: T) -> bool {
        self.function.shared_apply_requires(input)
    }

    closed spec fn apply_ensures(&self, input: T, output: R) -> bool {
        self.function.shared_apply_ensures(input, output)
    }


    closed spec fn history(&self) -> Option<Seq<(T, R)>> {
        None
    }
    fn apply(&mut self, input: &T) -> (output: R) {
        self.function.shared_apply(input)
    }
}

/// A function with shared single-threaded ownership: the function sits in a lock, and
/// clones share it and its state.
#[verifier::reject_recursive_types(T)]
#[verifier::reject_recursive_types(R)]
pub struct RcStatefulFunction<T, R> {
    function: Rc<RwLock<BoxStatefulFunction<T, R>, spec_fn(BoxStatefulFunction<T, R>) -> bool>>,
    requires_spec: Ghost<spec_fn(T) -> bool>,
    ensures_spec: Ghost<spec_fn(T, R) -> bool>,
}

impl<T, R> RcStatefulFunction<T, R> where T: 'static, R: 'static {
    /// The lock holds the invariant this function was built with.
    #[verifier::type_invariant]
    closed spec fn wf(&self) -> bool {
        self.function.pred() == |m: BoxStatefulFunction<T, R>| lock_holds(self.requires_spec@, self.ensures_spec@, m)
    }

    /// Locks a function away, with exactly its behaviour.
    fn from_function<M>(m: M) -> (res: Self)
        where M: StatefulFunction<T, R> + 'static
        ensures
            same_function(res, m),
    {
        let slot = BoxStatefulFunction { function: Box::new(m) };
        let ghost req = |x: T| m.apply_requires(x);
        let ghost ens = |x: T, y: R| m.apply_ensures(x, y);
        let ghost pred = |s: BoxStatefulFunction<T, R>| lock_holds(req, ens, s);
        let lock = RwLock::new(slot, Ghost(pred));
        RcStatefulFunction { function: Rc::new(lock), requires_spec: Ghost(req), ensures_spec: Ghost(ens) }
    }
}

impl<T, R> Clone for RcStatefulFunction<T, R> where T: 'static, R: 'static {
    /// Another handle to the same function and its state.
    fn clone(&self) -> (res: Self)
        ensures
            res == *self,
    {
        proof {
            use_type_invariant(self);
        }
        RcStatefulFunction { function: rc_share(&self.function), requires_spec: self.requires_spec, ensures_spec: self.ensures_spec }
    }
}

impl<T, R> RcStatefulFunction<T, R> where T: 'static, R: 'static {
    /// Wraps a closure.
    pub fn new<F>(f: F) -> (res: Self)
        where F: FnMut(&T) -> R + 'static
        ensures
            forall|x: T| #[trigger] res.apply_requires(x) == f.requires((&x,)),
            forall|x: T, y: R| #[trigger] res.apply_ensures(x, y) == f.ensures((&x,), y),
    {
        RcStatefulFunction::from_function(f)
    }

    /// The function that returns its input.
    pub fn identity() -> (res: RcStatefulFunction<T, T>)
        where T: Clone
        ensures
            forall|x: T| #[trigger] res.apply_requires(x),
            forall|x: T, y: T| #[trigger] res.apply_ensures(x, y) == cloned(x, y),
    {
        RcStatefulFunction::from_function(IdentityStatefulFunction)
    }

    /// This function, then `after`; `self` stays usable and shares its state.
    pub fn and_then<S, F>(&self, after: F) -> (res: RcStatefulFunction<T, S>)
        where S: 'static, F: StatefulFunction<R, S> + 'static
        ensures
            forall|x: T| #[trigger] res.apply_requires(x) == chain_requires(*self, after, x),
            forall|x: T, z: S| #[trigger] res.apply_ensures(x, z) == chain_ensures(*self, after, x, z),
    {
        RcStatefulFunction::from_function(ChainedStatefulFunction { first: self.clone(), second: after, middle: Ghost(None) })
    }

    /// `before`, then this function; `self` stays usable and shares its state.
    pub fn compose<S, F>(&self, before: F) -> (res: RcStatefulFunction<S, R>)
        where S: 'static, F: StatefulFunction<S, T> + 'static
        ensures
            forall|x: S| #[trigger] res.apply_requires(x) == chain_requires(before, *self, x),
            forall|x: S, z: R| #[trigger] res.apply_ensures(x, z) == chain_ensures(before, *self, x, z),
    {
        RcStatefulFunction::from_function(ChainedStatefulFunction { first: before, second: self.clone(), middle: Ghost(None) })
    }

    /// This function, applied only where `predicate` holds; see `or_else`.
    pub fn when<P>(self, predicate: P) -> (res: RcConditionalStatefulFunction<T, R>)
        where P: Predicate<T> + 'static
        ensures
            res.function() == self,
            same_predicate(res.predicate(), predicate),
    {
        RcConditionalStatefulFunction { function: self, predicate: RcPredicate::wrap(predicate) }
    }

    /// The function that gives clones of `value`.
    pub fn constant(value: R) -> (res: RcStatefulFunction<T, R>)
        where R: Clone
        ensures
            forall|x: T| #[trigger] res.apply_requires(x),
            forall|x: T, y: R| #[trigger] res.apply_ensures(x, y) == cloned(value, y),
    {
        RcStatefulFunction::from_function(ConstantStatefulFunction { value })
    }
}

impl<T, R> StatefulFunction<T, R> for RcStatefulFunction<T, R> where T: 'static, R: 'static {
    closed spec fn apply_requires(&self, input: T) -> bool {
        (self.requires_spec@)(input)
    }

    closed spec fn apply_ensures(&self, input: T, output: R) -> bool {
        (self.ensures_spec@)(input, output)
    }


    closed spec fn history(&self) -> Option<Seq<(T, R)>> {
        None
    }
    fn apply(&mut self, input: &T) -> (output: R) {
        proof {
            use_type_invariant(&*self);
        }
        let (mut m, handle) = self.function.acquire_write();
        let output = m.apply(input);
        handle.release_write(m);
        output
    }
}

/// An `RcStatefulFunction` restricted to the inputs where a predicate holds, waiting
/// for the function to use elsewhere.
#[verifier::reject_recursive_types(T)]
#[verifier::reject_recursive_types(R)]
pub struct RcConditionalStatefulFunction<T, R> {
    function: RcStatefulFunction<T, R>,
    predicate: RcPredicate<T>,
}

impl<T, R> RcConditionalStatefulFunction<T, R> {
    /// The function used where the predicate holds.
    pub closed spec fn function(&self) -> RcStatefulFunction<T, R> {
        self.function
    }

    /// The predicate that chooses.
    pub closed spec fn predicate(&self) -> RcPredicate<T> {
        self.predicate
    }
}

impl<T, R> Clone for RcConditionalStatefulFunction<T, R> where T: 'static, R: 'static {
    /// Another handle to the same function and predicate.
    fn clone(&self) -> (res: Self)
        ensures
            res.function() == self.function(),
            same_predicate(res.predicate(), self.predicate()),
    {
        RcConditionalStatefulFunction { function: self.function.clone(), predicate: self.predicate.clone() }
    }
}

impl<T, R> RcConditionalStatefulFunction<T, R> where T: 'static, R: 'static {
    /// The conditional function where the predicate holds, `else_function`
    /// elsewhere.
    pub fn or_else<F>(self, else_function: F) -> (res: RcStatefulFunction<T, R>)
        where F: StatefulFunction<T, R> + 'static
        ensures
            forall|x: T| #[trigger] res.apply_requires(x) == branch_requires(self.predicate(), self.function(), else_function, x),
            forall|x: T, y: R| #[trigger] res.apply_ensures(x, y) == branch_ensures(self.predicate(), self.function(), else_function, x, y),
    {
        RcStatefulFunction::from_function(BranchStatefulFunction { predicate: self.predicate, then_function: self.function, else_function })
    }
}

/// A function with shared thread-safe ownership: the function sits in a lock, and
/// clones share it and its state.
#[verifier::reject_recursive_types(T)]
#[verifier::reject_recursive_types(R)]
pub struct ArcStatefulFunction<T, R> {
    function: Arc<RwLock<SyncBoxStatefulFunction<T, R>, spec_fn(SyncBoxStatefulFunction<T, R>) -> bool>>,
    requires_spec: Ghost<spec_fn(T) -> bool>,
    ensures_spec: Ghost<spec_fn(T, R) -> bool>,
}

impl<T, R> ArcStatefulFunction<T, R> where T: 'static, R: 'static {
    /// The lock holds the invariant this function was built with.
    #[verifier::type_invariant]
    closed spec fn wf(&self) -> bool {
        self.function.pred() == |m: SyncBoxStatefulFunction<T, R>| lock_holds(self.requires_spec@, self.ensures_spec@, m)
    }

    /// Locks a function away, with exactly its behaviour.
    fn from_function<M>(m: M) -> (res: Self)
        where M: StatefulFunction<T, R> + Send + Sync + 'static
        ensures
            same_function(res, m),
    {
        let slot = SyncBoxStatefulFunction { function: Box::new(m) };
        let ghost req = |x: T| m.apply_requires(x);
        let ghost ens = |x: T, y: R| m.apply_ensures(x, y);
        let ghost pred = |s: SyncBoxStatefulFunction<T, R>| lock_holds(req, ens, s);
        let lock = RwLock::new(slot, Ghost(pred));
        ArcStatefulFunction { function: Arc::new(lock), requires_spec: Ghost(req), ensures_spec: Ghost(ens) }
    }
}

impl<T, R> Clone for ArcStatefulFunction<T, R> where T: 'static, R: 'static {
    /// Another handle to the same function and its state.
    fn clone(&self) -> (res: Self)
        ensures
            res == *self,
    {
        proof {
            use_type_invariant(self);
        }
        ArcStatefulFunction { function: arc_share(&self.function), requires_spec: self.requires_spec, ensures_spec: self.ensures_spec }
    }
}

impl<T, R> ArcStatefulFunction<T, R> where T: Send + Sync + 'static, R: Send + 'static {
    /// Wraps a closure.
    pub fn new<F>(f: F) -> (res: Self)
        where F: FnMut(&T) -> R + Send + Sync + 'static
        ensures
            forall|x: T| #[trigger] res.apply_requires(x) == f.requires((&x,)),
            forall|x: T, y: R| #[trigger] res.apply_ensures(x, y) == f.ensures((&x,), y),
    {
        ArcStatefulFunction::from_function(f)
    }

    /// The function that returns its input.
    pub fn identity() -> (res: ArcStatefulFunction<T, T>)
        where T: Clone + Sync
        ensures
            forall|x: T| #[trigger] res.apply_requires(x),
            forall|x: T, y: T| #[trigger] res.apply_ensures(x, y) == cloned(x, y),
    {
        ArcStatefulFunction::from_function(IdentityStatefulFunction)
    }

    /// This function, then `after`; `self` stays usable and shares its state.
    pub fn and_then<S, F>(&self, after: F) -> (res: ArcStatefulFunction<T, S>)
        where S: Send + 'static, F: StatefulFunction<R, S> + Send + Sync + 'static
        ensures
            forall|x: T| #[trigger] res.apply_requires(x) == chain_requires(*self, after, x),
            forall|x: T, z: S| #[trigger] res.apply_ensures(x, z) == chain_ensures(*self, after, x, z),
    {
        ArcStatefulFunction::from_function(ChainedStatefulFunction { first: self.clone(), second: after, middle: Ghost(None) })
    }

    /// `before`, then this function; `self` stays usable and shares its state.
    pub fn compose<S, F>(&self, before: F) -> (res: ArcStatefulFunction<S, R>)
        where S: Send + 'static, F: StatefulFunction<S, T> + Send + Sync + 'static
        ensures
            forall|x: S| #[trigger] res.apply_requires(x) == chain_requires(before, *self, x),
            forall|x: S, z: R| #[trigger] res.apply_ensures(x, z) == chain_ensures(before, *self, x, z),
    {
        ArcStatefulFunction::from_function(ChainedStatefulFunction { first: before, second: self.clone(), middle: Ghost(None) })
    }

    /// This function, applied only where `predicate` holds; see `or_else`.
    pub fn when<P>(self, predicate: P) -> (res: ArcConditionalStatefulFunction<T, R>)
        where P: Predicate<T> + Send + Sync + 'static
        ensures
            res.function() == self,
            same_predicate(res.predicate(), predicate),
    {
        ArcConditionalStatefulFunction { function: self, predicate: ArcPredicate::wrap(predicate) }
    }

    /// The function that gives clones of `value`.
    pub fn constant(value: R) -> (res: ArcStatefulFunction<T, R>)
        where R: Clone + Sync
        ensures
            forall|x: T| #[trigger] res.apply_requires(x),
            forall|x: T, y: R| #[trigger] res.apply_ensures(x, y) == cloned(value, y),
    {
        ArcStatefulFunction::from_function(ConstantStatefulFunction { value })
    }
}

impl<T, R> StatefulFunction<T, R> for ArcStatefulFunction<T, R> where T: 'static, R: 'static {
    closed spec fn apply_requires(&self, input: T) -> bool {
        (self.requires_spec@)(input)
    }

    closed spec fn apply_ensures(&self, input: T, output: R) -> bool {
        (self.ensures_spec@)(input, output)
    }


    closed spec fn history(&self) -> Option<Seq<(T, R)>> {
        None
    }
    fn apply(&mut self, input: &T) -> (output: R) {
        proof {
            use_type_invariant(&*self);
        }
        let (mut m, handle) = self.function.acquire_write();
        let output = m.apply(input);
        handle.release_write(m);
        output
    }
}

/// An `ArcStatefulFunction` restricted to the inputs where a predicate holds, waiting
/// for the function to use elsewhere.
#[verifier::reject_recursive_types(T)]
#[verifier::reject_recursive_types(R)]
pub struct ArcConditionalStatefulFunction<T, R> {
    function: ArcStatefulFunction<T, R>,
    predicate: ArcPredicate<T>,
}

impl<T, R> ArcConditionalStatefulFunction<T, R> {
    /// The function used where the predicate holds.
    pub closed spec fn function(&self) -> ArcStatefulFunction<T, R> {
        self.function
    }

    /// The predicate that chooses.
    pub closed spec fn predicate(&self) -> ArcPredicate<T> {
        self.predicate
    }
}

impl<T, R> Clone for ArcConditionalStatefulFunction<T, R> where T: 'static, R: 'static {
    /// Another handle to the same function and predicate.
    fn clone(&self) -> (res: Self)
        ensures
            res.function() == self.function(),
            same_predicate(res.predicate(), self.predicate()),
    {
        ArcConditionalStatefulFunction { function: self.function.clone(), predicate: self.predicate.clone() }
    }
}

impl<T, R> ArcConditionalStatefulFunction<T, R> where T: Send + Sync + 'static, R: Send + 'static {
    /// The conditional function where the predicate holds, `else_function`
    /// elsewhere.
    pub fn or_else<F>(self, else_function: F) -> (res: ArcStatefulFunction<T, R>)
        where F: StatefulFunction<T, R> + Send + Sync + 'static
        ensures
            forall|x: T| #[trigger] res.apply_requires(x) == branch_requires(self.predicate(), self.function(), else_function, x),
            forall|x: T, y: R| #[trigger] res.apply_ensures(x, y) == branch_ensures(self.predicate(), self.function(), else_function, x, y),
    {
        ArcStatefulFunction::from_function(BranchStatefulFunction { predicate: self.predicate, then_function: self.function, else_function })
    }
}

/// Conversions of a function into the three ownership flavours, keeping its
/// behaviour.
pub trait IntoStatefulFunction<T, R>: StatefulFunction<T, R> + Sized + 'static {
    /// Converts into a `BoxStatefulFunction`.
    fn into_box(self) -> (res: BoxStatefulFunction<T, R>)
        where T: 'static, R: 'static
        ensures
            same_function(res, self),
    ;

    /// Converts into an `RcStatefulFunction`.
    fn into_rc(self) -> (res: RcStatefulFunction<T, R>)
        where T: 'static, R: 'static
        ensures
            same_function(res, self),
    ;

    /// Converts into an `ArcStatefulFunction`.
    fn into_arc(self) -> (res: ArcStatefulFunction<T, R>)
        where Self: Send + Sync, T: Send + Sync + 'static, R: Send + 'static
        ensures
            same_function(res, self),
    ;

    /// Converts a clone into a `BoxStatefulFunction`; this one stays usable.
    fn to_box(&self) -> (res: BoxStatefulFunction<T, R>)
        where Self: Clone, T: 'static, R: 'static
        ensures
            exists|c: Self| #[trigger] cloned(*self, c) && same_function(res, c),
    ;

    /// Converts a clone into an `RcStatefulFunction`; this one stays usable.
    fn to_rc(&self) -> (res: RcStatefulFunction<T, R>)
        where Self: Clone, T: 'static, R: 'static
        ensures
            exists|c: Self| #[trigger] cloned(*self, c) && same_function(res, c),
    ;

    /// Converts a clone into an `ArcStatefulFunction`; this one stays usable.
    fn to_arc(&self) -> (res: ArcStatefulFunction<T, R>)
        where Self: Clone + Send + Sync, T: Send + Sync + 'static, R: Send + 'static
        ensures
            exists|c: Self| #[trigger] cloned(*self, c) && same_function(res, c),
    ;
}

/// Closures convert by being wrapped.
impl<T, R, F> IntoStatefulFunction<T, R> for F where F: FnMut(&T) -> R + 'static {
    fn into_box(self) -> (res: BoxStatefulFunction<T, R>)
        where T: 'static, R: 'static
    {
        BoxStatefulFunction::new(self)
    }

    fn into_rc(self) -> (res: RcStatefulFunction<T, R>)
        where T: 'static, R: 'static
    {
        RcStatefulFunction::new(self)
    }

    fn into_arc(self) -> (res: ArcStatefulFunction<T, R>)
        where Self: Send + Sync, T: Send + Sync + 'static, R: Send + 'static
    {
        ArcStatefulFunction::new(self)
    }

    fn to_box(&self) -> (res: BoxStatefulFunction<T, R>)
        where Self: Clone, T: 'static, R: 'static
    {
        let c = self.clone();
        proof {
            assert(cloned(*self, c));
        }
        c.into_box()
    }

    fn to_rc(&self) -> (res: RcStatefulFunction<T, R>)
        where Self: Clone, T: 'static, R: 'static
    {
        let c = self.clone();
        proof {
            assert(cloned(*self, c));
        }
        c.into_rc()
    }

    fn to_arc(&self) -> (res: ArcStatefulFunction<T, R>)
        where Self: Clone + Send + Sync, T: Send + Sync + 'static, R: Send + 'static
    {
        let c = self.clone();
        proof {
            assert(cloned(*self, c));
        }
        c.into_arc()
    }
}

impl<T: 'static, R: 'static> IntoStatefulFunction<T, R> for BoxStatefulFunction<T, R> {
    fn into_box(self) -> (res: BoxStatefulFunction<T, R>) {
        self
    }

    fn into_rc(self) -> (res: RcStatefulFunction<T, R>) {
        RcStatefulFunction::from_function(self)
    }

    /// Only callable where the function may be shared between threads, which a
    /// `BoxStatefulFunction` never may.
    fn into_arc(self) -> (res: ArcStatefulFunction<T, R>)
        where Self: Send + Sync, T: Send + Sync + 'static, R: Send + 'static
    {
        ArcStatefulFunction::from_function(self)
    }

    fn to_box(&self) -> (res: BoxStatefulFunction<T, R>)
        where Self: Clone, T: 'static, R: 'static
    {
        let c = self.clone();
        proof {
            assert(cloned(*self, c));
        }
        c.into_box()
    }

    fn to_rc(&self) -> (res: RcStatefulFunction<T, R>)
        where Self: Clone, T: 'static, R: 'static
    {
        let c = self.clone();
        proof {
            assert(cloned(*self, c));
        }
        c.into_rc()
    }

    fn to_arc(&self) -> (res: ArcStatefulFunction<T, R>)
        where Self: Clone + Send + Sync, T: Send + Sync + 'static, R: Send + 'static
    {
        let c = self.clone();
        proof {
            assert(cloned(*self, c));
        }
        c.into_arc()
    }
}

impl<T: 'static, R: 'static> IntoStatefulFunction<T, R> for RcStatefulFunction<T, R> {
    fn into_box(self) -> (res: BoxStatefulFunction<T, R>) {
        BoxStatefulFunction { function: Box::new(self) }
    }

    fn into_rc(self) -> (res: RcStatefulFunction<T, R>) {
        self
    }

    /// Only callable where the function may be shared between threads, which an
    /// `RcStatefulFunction` never may.
    fn into_arc(self) -> (res: ArcStatefulFunction<T, R>)
        where Self: Send + Sync, T: Send + Sync + 'static, R: Send + 'static
    {
        ArcStatefulFunction::from_function(self)
    }

    fn to_box(&self) -> (res: BoxStatefulFunction<T, R>)
        where Self: Clone, T: 'static, R: 'static
        ensures
            same_function(res, *self),
    {
        let c = self.clone();
        proof {
            assert(cloned(*self, c));
        }
        c.into_box()
    }

    fn to_rc(&self) -> (res: RcStatefulFunction<T, R>)
        where Self: Clone, T: 'static, R: 'static
        ensures
            same_function(res, *self),
    {
        let c = self.clone();
        proof {
            assert(cloned(*self, c));
        }
        c.into_rc()
    }

    fn to_arc(&self) -> (res: ArcStatefulFunction<T, R>)
        where Self: Clone + Send + Sync, T: Send + Sync + 'static, R: Send + 'static
        ensures
            same_function(res, *self),
    {
        let c = self.clone();
        proof {
            assert(cloned(*self, c));
        }
        c.into_arc()
    }
}

impl<T: 'static, R: 'static> IntoStatefulFunction<T, R> for ArcStatefulFunction<T, R> {
    fn into_box(self) -> (res: BoxStatefulFunction<T, R>) {
        BoxStatefulFunction { function: Box::new(self) }
    }

    fn into_rc(self) -> (res: RcStatefulFunction<T, R>) {
        RcStatefulFunction::from_function(self)
    }

    fn into_arc(self) -> (res: ArcStatefulFunction<T, R>)
        where Self: Send + Sync, T: Send + Sync + 'static, R: Send + 'static
    {
        self
    }

    fn to_box(&self) -> (res: BoxStatefulFunction<T, R>)
        where Self: Clone, T: 'static, R: 'static
        ensures
            same_function(res, *self),
    {
        let c = self.clone();
        proof {
            assert(cloned(*self, c));
        }
        c.into_box()
    }

    fn to_rc(&self) -> (res: RcStatefulFunction<T, R>)
        where Self: Clone, T: 'static, R: 'static
        ensures
            same_function(res, *self),
    {
        let c = self.clone();
        proof {
            assert(cloned(*self, c));
        }
        c.into_rc()
    }

    fn to_arc(&self) -> (res: ArcStatefulFunction<T, R>)
        where Self: Clone + Send + Sync, T: Send + Sync + 'static, R: Send + 'static
        ensures
            same_function(res, *self),
    {
        let c = self.clone();
        proof {
            assert(cloned(*self, c));
        }
        c.into_arc()
    }
}

/// Composition methods on closures, producing `BoxStatefulFunction`s.
pub trait FnStatefulFunctionOps<T, R>: StatefulFunction<T, R> + Sized + 'static {
    /// This closure, then `after`.
    fn and_then<S, F>(self, after: F) -> (res: BoxStatefulFunction<T, S>)
        where S: 'static, F: StatefulFunction<R, S> + 'static, T: 'static, R: 'static
        ensures
            forall|x: T| #[trigger] res.apply_requires(x) == chain_requires(self, after, x),
            forall|x: T, z: S| #[trigger] res.apply_ensures(x, z) == chain_ensures(self, after, x, z),
    ;

    /// `before`, then this closure.
    fn compose<S, F>(self, before: F) -> (res: BoxStatefulFunction<S, R>)
        where S: 'static, F: StatefulFunction<S, T> + 'static, T: 'static, R: 'static
        ensures
            forall|x: S| #[trigger] res.apply_requires(x) == chain_requires(before, self, x),
            forall|x: S, z: R| #[trigger] res.apply_ensures(x, z) == chain_ensures(before, self, x, z),
    ;

    /// This closure, applied only where `predicate` holds; see `or_else`.
    fn when<P>(self, predicate: P) -> (res: BoxConditionalStatefulFunction<T, R>)
        where P: Predicate<T> + 'static, T: 'static, R: 'static
        ensures
            same_function(res.function(), self),
            same_predicate(res.predicate(), predicate),
    ;
}

impl<T, R, C> FnStatefulFunctionOps<T, R> for C where C: FnMut(&T) -> R + 'static {
    fn and_then<S, F>(self, after: F) -> (res: BoxStatefulFunction<T, S>)
        where S: 'static, F: StatefulFunction<R, S> + 'static, T: 'static, R: 'static
    {
        BoxStatefulFunction { function: Box::new(ChainedStatefulFunction { first: self, second: after, middle: Ghost(None) }) }
    }

    fn compose<S, F>(self, before: F) -> (res: BoxStatefulFunction<S, R>)
        where S: 'static, F: StatefulFunction<S, T> + 'static, T: 'static, R: 'static
    {
        BoxStatefulFunction { function: Box::new(ChainedStatefulFunction { first: before, second: self, middle: Ghost(None) }) }
    }

    fn when<P>(self, predicate: P) -> (res: BoxConditionalStatefulFunction<T, R>)
        where P: Predicate<T> + 'static, T: 'static, R: 'static
    {
        BoxStatefulFunction::new(self).when(predicate)
    }
}

} // verus!
