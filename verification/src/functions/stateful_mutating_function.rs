//! Stateful mutating functions: closures `FnMut(&mut T) -> R` that may
//! change their input in place, return a result and keep state, in three
//! ownership flavours, with chaining and result mapping.
//!
//! The behaviour is modelled as a relation that holds on every call:
//! `apply_requires(v)` says on which values the function may be called, and
//! `apply_ensures(v, w, r)` which new value `w` and result `r` it may give.
//! A call does not change this relation. For a closure the relation holds
//! its precondition and the results its postcondition allows; what it leaves
//! in the input is stated by each direct call of `apply` on it. The shared flavours keep the function in a lock, so clones share
//! its state.
use vstd::prelude::*;
use vstd::rwlock::RwLock;
use vstd::std_specs::convert::FromSpec;
use std::rc::Rc;
use std::sync::Arc;
use crate::transformer::Transformer;
use crate::shared::{rc_share, arc_share, record};

verus! {

/// A function that may change its input in place, returns a result and may
/// keep state.
pub trait StatefulMutatingFunction<T, R> {
    /// Values the function may be called on.
    spec fn apply_requires(&self, input: T) -> bool;

    /// New values and results the function may give for `before`.
    spec fn apply_ensures(&self, before: T, after: T, output: R) -> bool;

    /// The calls the function has answered, as `(before, after, output)`
    /// triples, oldest first, where it keeps a record of them; `None` where
    /// it keeps none.
    spec fn history(&self) -> Option<Seq<(T, T, R)>>;

    /// Applies the function to `input`, possibly updating its state. A
    /// function that keeps a record of its calls records this one.
    fn apply(&mut self, input: &mut T) -> (output: R)
        requires
            old(self).apply_requires(*old(input)),
        ensures
            old(self).apply_ensures(*old(input), *final(input), output),
            final(self).history() == record(old(self).history(), (*old(input), *final(input), output)),
            forall|x: T| #[trigger] final(self).apply_requires(x) == old(self).apply_requires(x),
            forall|x: T, y: T, r: R| #[trigger] final(self).apply_ensures(x, y, r) == old(self).apply_ensures(x, y, r),
    ;
}

/// Two stateful mutating functions may be called on the same values and may
/// give the same new values and results.
pub open spec fn same_function<T, R, A: StatefulMutatingFunction<T, R>, B: StatefulMutatingFunction<T, R>>(a: A, b: B) -> bool {
    &&& forall|x: T| #[trigger] a.apply_requires(x) == b.apply_requires(x)
    &&& forall|x: T, y: T, r: R| #[trigger] a.apply_ensures(x, y, r) == b.apply_ensures(x, y, r)
}

/// Results of converting a clone of `x` with `R::from`.
pub open spec fn from_clone_ensures<T: Clone, R: From<T>>(x: T, r: R) -> bool {
    exists|c: T| #[trigger] cloned(x, c) && (<R as FromSpec<T>>::obeys_from_spec() ==> r == <R as FromSpec<T>>::from_spec(c))
}

/// When `a` then `b` may be called on `x`.
pub open spec fn seq_requires<T, R, S, A: StatefulMutatingFunction<T, R>, B: StatefulMutatingFunction<T, S>>(a: A, b: B, x: T) -> bool {
    &&& a.apply_requires(x)
    &&& forall|y: T, r: R| #[trigger] a.apply_ensures(x, y, r) ==> b.apply_requires(y)
}

/// New values and results of `a` then `b`: the result of `b`.
pub open spec fn seq_ensures<T, R, S, A: StatefulMutatingFunction<T, R>, B: StatefulMutatingFunction<T, S>>(a: A, b: B, x: T, z: T, s: S) -> bool {
    exists|y: T, r: R| #[trigger] a.apply_ensures(x, y, r) && b.apply_ensures(y, z, s)
}

/// When `a` with its result passed through `m` may be called on `x`.
pub open spec fn map_requires<T, R, S, A: StatefulMutatingFunction<T, R>, M: Transformer<R, S>>(a: A, m: M, x: T) -> bool {
    &&& a.apply_requires(x)
    &&& forall|y: T, r: R| #[trigger] a.apply_ensures(x, y, r) ==> m.transform_requires(r)
}

/// New values and results of `a` with its result passed through `m`.
pub open spec fn map_ensures<T, R, S, A: StatefulMutatingFunction<T, R>, M: Transformer<R, S>>(a: A, m: M, x: T, y: T, s: S) -> bool {
    exists|r: R| #[trigger] a.apply_ensures(x, y, r) && m.transform_ensures(r, s)
}

/// Running two functions whose behaviour is unchanged leaves the sequence's
/// behaviour unchanged.
proof fn lemma_seq_stable<T, R, S, A: StatefulMutatingFunction<T, R>, B: StatefulMutatingFunction<T, S>>(a0: A, b0: B, a1: A, b1: B)
    requires
        same_function(a0, a1),
        same_function(b0, b1),
    ensures
        forall|x: T| #[trigger] seq_requires(a1, b1, x) == seq_requires(a0, b0, x),
        forall|x: T, z: T, s: S| #[trigger] seq_ensures(a1, b1, x, z, s) == seq_ensures(a0, b0, x, z, s),
{
    assert forall|x: T| #[trigger] seq_requires(a1, b1, x) == seq_requires(a0, b0, x) by {
        assert forall|y: T, r: R| #[trigger] a1.apply_ensures(x, y, r) ==> b1.apply_requires(y)
            <==> (a0.apply_ensures(x, y, r) ==> b0.apply_requires(y)) by {
            assert(a1.apply_ensures(x, y, r) == a0.apply_ensures(x, y, r));
            assert(b1.apply_requires(y) == b0.apply_requires(y));
        }
        assert(a1.apply_requires(x) == a0.apply_requires(x));
    }
    assert forall|x: T, z: T, s: S| #[trigger] seq_ensures(a1, b1, x, z, s) == seq_ensures(a0, b0, x, z, s) by {
        if seq_ensures(a1, b1, x, z, s) {
            let (y, r) = choose|y: T, r: R| #[trigger] a1.apply_ensures(x, y, r) && b1.apply_ensures(y, z, s);
            assert(a0.apply_ensures(x, y, r) && b0.apply_ensures(y, z, s));
        }
        if seq_ensures(a0, b0, x, z, s) {
            let (y, r) = choose|y: T, r: R| #[trigger] a0.apply_ensures(x, y, r) && b0.apply_ensures(y, z, s);
            assert(a1.apply_ensures(x, y, r) && b1.apply_ensures(y, z, s));
        }
    }
}

/// Mapping the result of a function whose behaviour is unchanged leaves the
/// mapped function's behaviour unchanged.
proof fn lemma_map_stable<T, R, S, A: StatefulMutatingFunction<T, R>, M: Transformer<R, S>>(a0: A, a1: A, m: M)
    requires
        same_function(a0, a1),
    ensures
        forall|x: T| #[trigger] map_requires(a1, m, x) == map_requires(a0, m, x),
        forall|x: T, y: T, s: S| #[trigger] map_ensures(a1, m, x, y, s) == map_ensures(a0, m, x, y, s),
{
    assert forall|x: T| #[trigger] map_requires(a1, m, x) == map_requires(a0, m, x) by {
        assert forall|y: T, r: R| #[trigger] a1.apply_ensures(x, y, r) ==> m.transform_requires(r)
            <==> (a0.apply_ensures(x, y, r) ==> m.transform_requires(r)) by {
            assert(a1.apply_ensures(x, y, r) == a0.apply_ensures(x, y, r));
        }
        assert(a1.apply_requires(x) == a0.apply_requires(x));
    }
    assert forall|x: T, y: T, s: S| #[trigger] map_ensures(a1, m, x, y, s) == map_ensures(a0, m, x, y, s) by {
        if map_ensures(a1, m, x, y, s) {
            let r = choose|r: R| #[trigger] a1.apply_ensures(x, y, r) && m.transform_ensures(r, s);
            assert(a0.apply_ensures(x, y, r));
        }
        if map_ensures(a0, m, x, y, s) {
            let r = choose|r: R| #[trigger] a0.apply_ensures(x, y, r) && m.transform_ensures(r, s);
            assert(a1.apply_ensures(x, y, r));
        }
    }
}


/// `s` behaves as `a` then `b`, as `a.and_then(b)` does.
pub open spec fn is_sequence<T, R, S, Q: StatefulMutatingFunction<T, S>, A: StatefulMutatingFunction<T, R>, B: StatefulMutatingFunction<T, S>>(q: Q, a: A, b: B) -> bool {
    &&& forall|x: T| #[trigger] q.apply_requires(x) == seq_requires(a, b, x)
    &&& forall|x: T, z: T, s: S| #[trigger] q.apply_ensures(x, z, s) == seq_ensures(a, b, x, z, s)
}

/// Chaining is associative: `(a then b) then c` behaves as
/// `a then (b then c)`.
pub proof fn law_sequence_associative<T, R, S, U, A: StatefulMutatingFunction<T, R>, B: StatefulMutatingFunction<T, S>, C: StatefulMutatingFunction<T, U>, AB: StatefulMutatingFunction<T, S>, LeftNested: StatefulMutatingFunction<T, U>, BC: StatefulMutatingFunction<T, U>, RightNested: StatefulMutatingFunction<T, U>>(
    a: A,
    b: B,
    c: C,
    ab: AB,
    ab_c: LeftNested,
    bc: BC,
    a_bc: RightNested,
)
    requires
        is_sequence(ab, a, b),
        is_sequence(ab_c, ab, c),
        is_sequence(bc, b, c),
        is_sequence(a_bc, a, bc),
    ensures
        same_function(ab_c, a_bc),
{
    assert forall|x: T| #[trigger] ab_c.apply_requires(x) == a_bc.apply_requires(x) by {
        if ab_c.apply_requires(x) {
            assert forall|y: T, r: R| #[trigger] a.apply_ensures(x, y, r) implies bc.apply_requires(y) by {
                assert forall|z: T, s: S| #[trigger] b.apply_ensures(y, z, s) implies c.apply_requires(z) by {
                    assert(ab.apply_ensures(x, z, s));
                }
            }
        }
        if a_bc.apply_requires(x) {
            assert forall|z: T, s: S| #[trigger] ab.apply_ensures(x, z, s) implies c.apply_requires(z) by {
                let (y, r) = choose|y: T, r: R| #[trigger] a.apply_ensures(x, y, r) && b.apply_ensures(y, z, s);
                assert(bc.apply_requires(y));
            }
        }
    }
    assert forall|x: T, w: T, u: U| #[trigger] ab_c.apply_ensures(x, w, u) == a_bc.apply_ensures(x, w, u) by {
        if ab_c.apply_ensures(x, w, u) {
            let (z, s) = choose|z: T, s: S| #[trigger] ab.apply_ensures(x, z, s) && c.apply_ensures(z, w, u);
            let (y, r) = choose|y: T, r: R| #[trigger] a.apply_ensures(x, y, r) && b.apply_ensures(y, z, s);
            assert(bc.apply_ensures(y, w, u));
        }
        if a_bc.apply_ensures(x, w, u) {
            let (y, r) = choose|y: T, r: R| #[trigger] a.apply_ensures(x, y, r) && bc.apply_ensures(y, w, u);
            let (z, s) = choose|z: T, s: S| #[trigger] b.apply_ensures(y, z, s) && c.apply_ensures(z, w, u);
            assert(ab.apply_ensures(x, z, s));
        }
    }
}

/// Where clones are exact and `R::from` follows its specification, the
/// identity leaves the value as it is and returns `R::from` of it.
pub proof fn law_identity_returns_from<T: Clone, R: From<T>, I: StatefulMutatingFunction<T, R>>(i: I, x: T, y: T, r: R)
    requires
        forall|a: T, b: T| #[trigger] cloned(a, b) ==> b == a,
        <R as FromSpec<T>>::obeys_from_spec(),
        forall|a: T, b: T, o: R| #[trigger] i.apply_ensures(a, b, o) == (b == a && from_clone_ensures(a, o)),
        i.apply_ensures(x, y, r),
    ensures
        y == x,
        r == <R as FromSpec<T>>::from_spec(x),
{
    let c = choose|c: T| #[trigger] cloned(x, c) && (<R as FromSpec<T>>::obeys_from_spec() ==> r == <R as FromSpec<T>>::from_spec(c));
    assert(c == x);
}

/// Converts a clone of the input with `R::from`, leaving the input as it is.
struct IdentityFunction;

impl<T: Clone, R: From<T>> StatefulMutatingFunction<T, R> for IdentityFunction {
    closed spec fn apply_requires(&self, input: T) -> bool {
        true
    }

    closed spec fn apply_ensures(&self, before: T, after: T, output: R) -> bool {
        after == before && from_clone_ensures(before, output)
    }


    closed spec fn history(&self) -> Option<Seq<(T, T, R)>> {
        None
    }
    fn apply(&mut self, input: &mut T) -> (output: R) {
        let c = input.clone();
        let r = R::from(c);
        proof {
            assert(cloned(*input, c));
        }
        r
    }
}

/// `f0` answered one call on `x`, left `y`, returned `r` and became `f1`:
/// that is a call it may answer so, and its record, where it keeps one,
/// gained exactly that call.
pub open spec fn one_apply<T, R, F: StatefulMutatingFunction<T, R>>(f0: F, x: T, y: T, r: R, f1: F) -> bool {
    &&& f0.apply_ensures(x, y, r)
    &&& f1.history() == record(f0.history(), (x, y, r))
}

/// One call of `a.and_then(b)` on `x` leaving `z` and returning `s`: `a`
/// answered one call on `x`, and `b` one call on the value `a` left, whose
/// new value and result are the chain's.
pub open spec fn seq_call<T, R, S, A: StatefulMutatingFunction<T, R>, B: StatefulMutatingFunction<T, S>>(a0: A, b0: B, a1: A, b1: B, x: T, z: T, s: S) -> bool {
    exists|y: T, r: R| #![trigger one_apply(a0, x, y, r, a1)] one_apply(a0, x, y, r, a1) && one_apply(b0, y, z, s, b1)
}

/// One call of `a.map(m)` on `x` leaving `y` and returning `s`: `a`
/// answered one call, and `s` is an output of `m` for its result.
pub open spec fn map_call<T, R, S, A: StatefulMutatingFunction<T, R>, M: Transformer<R, S>>(a0: A, m: M, a1: A, x: T, y: T, s: S) -> bool {
    exists|r: R| #[trigger] one_apply(a0, x, y, r, a1) && m.transform_ensures(r, s)
}

/// Each call of `a.and_then(b)` makes exactly one call of each part, in
/// turn: where both keep records, each gains exactly one entry, `b`'s entry
/// starts from the value `a` left, and the chain's new value and result are
/// `b`'s.
pub proof fn law_sequence_calls_each_part_once<T, R, S, A: StatefulMutatingFunction<T, R>, B: StatefulMutatingFunction<T, S>>(a0: A, b0: B, a1: A, b1: B, x: T, z: T, s: S)
    requires
        seq_call(a0, b0, a1, b1, x, z, s),
        a0.history() is Some,
        b0.history() is Some,
    ensures
        a1.history() is Some && b1.history() is Some,
        a1.history()->0.len() == a0.history()->0.len() + 1,
        b1.history()->0.len() == b0.history()->0.len() + 1,
        a1.history()->0.last().0 == x,
        b1.history()->0.last().0 == a1.history()->0.last().1,
        b1.history()->0.last().1 == z && b1.history()->0.last().2 == s,
{
    let (y, r) = choose|y: T, r: R| #![trigger one_apply(a0, x, y, r, a1)] one_apply(a0, x, y, r, a1) && one_apply(b0, y, z, s, b1);
}

/// Each call of `a.map(m)` makes exactly one call of `a`: where it keeps a
/// record, it gains exactly one entry, and the result is an output of `m`
/// for that entry's result.
pub proof fn law_map_calls_function_once<T, R, S, A: StatefulMutatingFunction<T, R>, M: Transformer<R, S>>(a0: A, m: M, a1: A, x: T, y: T, s: S)
    requires
        map_call(a0, m, a1, x, y, s),
        a0.history() is Some,
    ensures
        a1.history() is Some,
        a1.history()->0.len() == a0.history()->0.len() + 1,
        a1.history()->0.last().0 == x && a1.history()->0.last().1 == y,
        m.transform_ensures(a1.history()->0.last().2, s),
{
    let r = choose|r: R| #[trigger] one_apply(a0, x, y, r, a1) && m.transform_ensures(r, s);
}

/// Two functions run in turn on the same value; the result is the second
/// one's: what `and_then` builds.
pub struct SeqFunction<R, A, B> {
    first: A,
    second: B,
    dropped: Ghost<Option<R>>,
}

impl<R, A, B> SeqFunction<R, A, B> {
    /// The function run first.
    pub closed spec fn first_part(&self) -> A {
        self.first
    }

    /// The function run second.
    pub closed spec fn second_part(&self) -> B {
        self.second
    }
}

impl<T, R, S, A: StatefulMutatingFunction<T, R>, B: StatefulMutatingFunction<T, S>> StatefulMutatingFunction<T, S> for SeqFunction<R, A, B> {
    closed spec fn apply_requires(&self, input: T) -> bool {
        seq_requires(self.first, self.second, input)
    }

    closed spec fn apply_ensures(&self, before: T, after: T, output: S) -> bool {
        seq_ensures(self.first, self.second, before, after, output)
    }


    closed spec fn history(&self) -> Option<Seq<(T, T, S)>> {
        None
    }
    fn apply(&mut self, input: &mut T) -> (output: S)
        ensures
            seq_call(old(self).first_part(), old(self).second_part(), final(self).first_part(), final(self).second_part(), *old(input), *final(input), output),
    {
        let ghost a0 = self.first;
        let ghost b0 = self.second;
        let ghost x = *input;
        let r = self.first.apply(input);
        let ghost y = *input;
        let s = self.second.apply(input);
        proof {
            assert(one_apply(a0, x, y, r, self.first) && one_apply(b0, y, *input, s, self.second));
            assert(a0.apply_ensures(x, y, r));
            lemma_seq_stable(a0, b0, self.first, self.second);
        }
        s
    }
}

/// A function whose result is passed through a transformer: what `map`
/// builds.
pub struct MappedFunction<R, A, M> {
    function: A,
    mapper: M,
    middle: Ghost<Option<R>>,
}

impl<R, A, M> MappedFunction<R, A, M> {
    /// The function whose result is mapped.
    pub closed spec fn function_part(&self) -> A {
        self.function
    }

    /// The transformer applied to the result.
    pub closed spec fn mapper_part(&self) -> M {
        self.mapper
    }
}

impl<T, R, S, A: StatefulMutatingFunction<T, R>, M: Transformer<R, S>> StatefulMutatingFunction<T, S> for MappedFunction<R, A, M> {
    closed spec fn apply_requires(&self, input: T) -> bool {
        map_requires(self.function, self.mapper, input)
    }

    closed spec fn apply_ensures(&self, before: T, after: T, output: S) -> bool {
        map_ensures(self.function, self.mapper, before, after, output)
    }


    closed spec fn history(&self) -> Option<Seq<(T, T, S)>> {
        None
    }
    fn apply(&mut self, input: &mut T) -> (output: S)
        ensures
            map_call(old(self).function_part(), old(self).mapper_part(), final(self).function_part(), *old(input), *final(input), output),
    {
        let ghost a0 = self.function;
        let ghost x = *input;
        let r = self.function.apply(input);
        let ghost r0 = r;
        let s = self.mapper.apply(r);
        proof {
            assert(one_apply(a0, x, *input, r0, self.function) && self.mapper.transform_ensures(r0, s));
            lemma_map_stable(a0, self.function, self.mapper);
        }
        s
    }
}

/// A function that may be shared between threads.
pub trait SharedStatefulMutatingFunction<T, R>: Send + Sync {
    /// Values the function may be called on.
    spec fn shared_apply_requires(&self, input: T) -> bool;

    /// New values and results the function may give for `before`.
    spec fn shared_apply_ensures(&self, before: T, after: T, output: R) -> bool;

    /// Applies the function to `input`, possibly updating its state.
    fn shared_apply(&mut self, input: &mut T) -> (output: R)
        requires
            old(self).shared_apply_requires(*old(input)),
        ensures
            old(self).shared_apply_ensures(*old(input), *final(input), output),
            forall|x: T| #[trigger] final(self).shared_apply_requires(x) == old(self).shared_apply_requires(x),
            forall|x: T, y: T, r: R| #[trigger] final(self).shared_apply_ensures(x, y, r) == old(self).shared_apply_ensures(x, y, r),
    ;
}

impl<T, R, M: StatefulMutatingFunction<T, R> + Send + Sync> SharedStatefulMutatingFunction<T, R> for M {
    open spec fn shared_apply_requires(&self, input: T) -> bool {
        self.apply_requires(input)
    }

    open spec fn shared_apply_ensures(&self, before: T, after: T, output: R) -> bool {
        self.apply_ensures(before, after, output)
    }

    fn shared_apply(&mut self, input: &mut T) -> (output: R) {
        self.apply(input)
    }
}

/// A closure's behaviour as a stateful mutating function is its own precondition and
/// postcondition. Call this where a concrete closure is used, so that its
/// relation unfolds.
pub proof fn lemma_closure_stateful_mutating_function<T, R, F: FnMut(&mut T) -> R>(f: F)
    ensures
        forall|x: T| #[trigger] f.apply_requires(x) == (forall|m: &mut T| mut_ref_current(m) == x ==> #[trigger] f.requires((m,))),
        forall|x: T, y: T, r: R| #[trigger] f.apply_ensures(x, y, r) == (exists|m: &mut T| mut_ref_current(m) == x && #[trigger] f.ensures((m,), r)),
{
}

/// Every closure `FnMut(&mut T) -> R` is a stateful mutating function with
/// the closure's own precondition. Its results are those the closure's
/// postcondition allows for the old input; what it leaves in the input is
/// not in the relation (that would need the input's final state inside a
/// spec function), but each call of `apply` states it: the old and new
/// input and the result are related by the closure's own postcondition.
impl<T, R, F> StatefulMutatingFunction<T, R> for F where F: FnMut(&mut T) -> R {
    open spec fn apply_requires(&self, input: T) -> bool {
        forall|m: &mut T| mut_ref_current(m) == input ==> #[trigger] self.requires((m,))
    }

    open spec fn apply_ensures(&self, before: T, after: T, output: R) -> bool {
        exists|m: &mut T| mut_ref_current(m) == before && #[trigger] self.ensures((m,), output)
    }


    open spec fn history(&self) -> Option<Seq<(T, T, R)>> {
        None
    }
    fn apply(&mut self, input: &mut T) -> (output: R)
        ensures
            exists|m: &mut T| mut_ref_current(m) == *old(input) && mut_ref_future(m) == *final(input) && #[trigger] (*old(self)).ensures((m,), output),
    {
        broadcast use vstd::function::group_function_axioms;
        self(input)
    }
}

/// Whatever function a lock holds may be called where `req` holds and gives
/// only new values and results in `ens`.
pub open spec fn lock_holds<T, R, M: StatefulMutatingFunction<T, R>>(req: spec_fn(T) -> bool, ens: spec_fn(T, T, R) -> bool, m: M) -> bool {
    &&& forall|x: T| req(x) ==> #[trigger] m.apply_requires(x)
    &&& forall|x: T, y: T, r: R| #[trigger] m.apply_ensures(x, y, r) ==> ens(x, y, r)
}

/// A boxed function that may be shared between threads.
#[verifier::reject_recursive_types(T)]
#[verifier::reject_recursive_types(R)]
struct SyncBoxFunction<T, R> {
    function: Box<dyn SharedStatefulMutatingFunction<T, R>>,
}

impl<T: 'static, R: 'static> StatefulMutatingFunction<T, R> for SyncBoxFunction<T, R> {
    closed spec fn apply_requires(&self, input: T) -> bool {
        self.function.shared_apply_requires(input)
    }

    closed spec fn apply_ensures(&self, before: T, after: T, output: R) -> bool {
        self.function.shared_apply_ensures(before, after, output)
    }


    closed spec fn history(&self) -> Option<Seq<(T, T, R)>> {
        None
    }
    fn apply(&mut self, input: &mut T) -> (output: R) {
        self.function.shared_apply(input)
    }
}

/// A stateful mutating function with single ownership.
#[verifier::reject_recursive_types(T)]
#[verifier::reject_recursive_types(R)]
pub struct BoxStatefulMutatingFunction<T, R> {
    function: Box<dyn StatefulMutatingFunction<T, R>>,
}

impl<T, R> BoxStatefulMutatingFunction<T, R> where T: 'static, R: 'static {
    /// Wraps a closure.
    pub fn new<F>(f: F) -> (res: Self)
        where F: FnMut(&mut T) -> R + 'static
        ensures
            forall|x: T| #[trigger] res.apply_requires(x) == (forall|m: &mut T| mut_ref_current(m) == x ==> #[trigger] f.requires((m,))),
            forall|x: T, y: T, r: R| #[trigger] res.apply_ensures(x, y, r) == (exists|m: &mut T| mut_ref_current(m) == x && #[trigger] f.ensures((m,), r)),
    {
        BoxStatefulMutatingFunction { function: Box::new(f) }
    }

    /// The function that leaves its input as it is and returns `R::from` of a
    /// clone of it.
    pub fn identity() -> (res: Self)
        where T: Clone, R: From<T>
        ensures
            forall|x: T| #[trigger] res.apply_requires(x),
            forall|x: T, y: T, r: R| #[trigger] res.apply_ensures(x, y, r) == (y == x && from_clone_ensures(x, r)),
    {
        BoxStatefulMutatingFunction { function: Box::new(IdentityFunction) }
    }

    /// This function, then `next` on the same value; the result is `next`'s.
    pub fn and_then<F, R2>(self, next: F) -> (res: BoxStatefulMutatingFunction<T, R2>)
        where F: StatefulMutatingFunction<T, R2> + 'static, R2: 'static
        ensures
            forall|x: T| #[trigger] res.apply_requires(x) == seq_requires(self, next, x),
            forall|x: T, z: T, s: R2| #[trigger] res.apply_ensures(x, z, s) == seq_ensures(self, next, x, z, s),
    {
        BoxStatefulMutatingFunction { function: Box::new(SeqFunction { first: self, second: next, dropped: Ghost(None) }) }
    }

    /// This function with its result passed through `mapper`.
    pub fn map<F, R2>(self, mapper: F) -> (res: BoxStatefulMutatingFunction<T, R2>)
        where F: Fn(R) -> R2 + 'static, R2: 'static
        ensures
            forall|x: T| #[trigger] res.apply_requires(x) == map_requires(self, mapper, x),
            forall|x: T, y: T, s: R2| #[trigger] res.apply_ensures(x, y, s) == map_ensures(self, mapper, x, y, s),
    {
        BoxStatefulMutatingFunction { function: Box::new(MappedFunction { function: self, mapper, middle: Ghost(None) }) }
    }
}

impl<T, R> StatefulMutatingFunction<T, R> for BoxStatefulMutatingFunction<T, R> where T: 'static, R: 'static {
    closed spec fn apply_requires(&self, input: T) -> bool {
        self.function.apply_requires(input)
    }

    closed spec fn apply_ensures(&self, before: T, after: T, output: R) -> bool {
        self.function.apply_ensures(before, after, output)
    }


    closed spec fn history(&self) -> Option<Seq<(T, T, R)>> {
        self.function.history()
    }
    fn apply(&mut self, input: &mut T) -> (output: R) {
        self.function.apply(input)
    }
}

/// A stateful mutating function with shared single-threaded ownership: the function
/// sits in a lock, and clones share it and its state.
#[verifier::reject_recursive_types(T)]
#[verifier::reject_recursive_types(R)]
pub struct RcStatefulMutatingFunction<T, R> {
    function: Rc<RwLock<BoxStatefulMutatingFunction<T, R>, spec_fn(BoxStatefulMutatingFunction<T, R>) -> bool>>,
    requires_spec: Ghost<spec_fn(T) -> bool>,
    ensures_spec: Ghost<spec_fn(T, T, R) -> bool>,
}

impl<T: 'static, R: 'static> RcStatefulMutatingFunction<T, R> {
    /// The lock holds the invariant this function was built with.
    #[verifier::type_invariant]
    closed spec fn wf(&self) -> bool {
        self.function.pred() == |m: BoxStatefulMutatingFunction<T, R>| lock_holds(self.requires_spec@, self.ensures_spec@, m)
    }

    /// Locks a function away, with exactly its behaviour.
    fn from_function<M>(m: M) -> (res: Self)
        where M: StatefulMutatingFunction<T, R> + 'static
        ensures
            same_function(res, m),
    {
        let slot = BoxStatefulMutatingFunction { function: Box::new(m) };
        let ghost req = |x: T| m.apply_requires(x);
        let ghost ens = |x: T, y: T, r: R| m.apply_ensures(x, y, r);
        let ghost pred = |s: BoxStatefulMutatingFunction<T, R>| lock_holds(req, ens, s);
        let lock = RwLock::new(slot, Ghost(pred));
        RcStatefulMutatingFunction { function: Rc::new(lock), requires_spec: Ghost(req), ensures_spec: Ghost(ens) }
    }
}

impl<T: 'static, R: 'static> Clone for RcStatefulMutatingFunction<T, R> {
    /// Another handle to the same function and its state.
    fn clone(&self) -> (res: Self)
        ensures
            res == *self,
    {
        proof {
            use_type_invariant(self);
        }
        RcStatefulMutatingFunction { function: rc_share(&self.function), requires_spec: self.requires_spec, ensures_spec: self.ensures_spec }
    }
}

impl<T, R> RcStatefulMutatingFunction<T, R> where T: 'static, R: 'static {
    /// Wraps a closure.
    pub fn new<F>(f: F) -> (res: Self)
        where F: FnMut(&mut T) -> R + 'static
        ensures
            forall|x: T| #[trigger] res.apply_requires(x) == (forall|m: &mut T| mut_ref_current(m) == x ==> #[trigger] f.requires((m,))),
            forall|x: T, y: T, r: R| #[trigger] res.apply_ensures(x, y, r) == (exists|m: &mut T| mut_ref_current(m) == x && #[trigger] f.ensures((m,), r)),
    {
        RcStatefulMutatingFunction::from_function(f)
    }

    /// The function that leaves its input as it is and returns `R::from` of a
    /// clone of it.
    pub fn identity() -> (res: Self)
        where T: Clone, R: From<T>
        ensures
            forall|x: T| #[trigger] res.apply_requires(x),
            forall|x: T, y: T, r: R| #[trigger] res.apply_ensures(x, y, r) == (y == x && from_clone_ensures(x, r)),
    {
        RcStatefulMutatingFunction::from_function(IdentityFunction)
    }

    /// This function, then `next` on the same value; the result is `next`'s.
    /// Both stay usable and share their state.
    pub fn and_then<R2>(&self, next: &RcStatefulMutatingFunction<T, R2>) -> (res: RcStatefulMutatingFunction<T, R2>)
        where R2: 'static
        ensures
            forall|x: T| #[trigger] res.apply_requires(x) == seq_requires(*self, *next, x),
            forall|x: T, z: T, s: R2| #[trigger] res.apply_ensures(x, z, s) == seq_ensures(*self, *next, x, z, s),
    {
        RcStatefulMutatingFunction::from_function(SeqFunction { first: self.clone(), second: next.clone(), dropped: Ghost(None) })
    }

    /// This function with its result passed through `mapper`; `self` stays
    /// usable and shares its state.
    pub fn map<F, R2>(&self, mapper: F) -> (res: RcStatefulMutatingFunction<T, R2>)
        where F: Fn(R) -> R2 + 'static, R2: 'static
        ensures
            forall|x: T| #[trigger] res.apply_requires(x) == map_requires(*self, mapper, x),
            forall|x: T, y: T, s: R2| #[trigger] res.apply_ensures(x, y, s) == map_ensures(*self, mapper, x, y, s),
    {
        RcStatefulMutatingFunction::from_function(MappedFunction { function: self.clone(), mapper, middle: Ghost(None) })
    }
}

impl<T: 'static, R: 'static> StatefulMutatingFunction<T, R> for RcStatefulMutatingFunction<T, R> {
    closed spec fn apply_requires(&self, input: T) -> bool {
        (self.requires_spec@)(input)
    }

    closed spec fn apply_ensures(&self, before: T, after: T, output: R) -> bool {
        (self.ensures_spec@)(before, after, output)
    }


    closed spec fn history(&self) -> Option<Seq<(T, T, R)>> {
        None
    }
    fn apply(&mut self, input: &mut T) -> (output: R) {
        proof {
            use_type_invariant(&*self);
        }
        let (mut m, handle) = self.function.acquire_write();
        let output = m.apply(input);
        handle.release_write(m);
        output
    }
}

/// A stateful mutating function with shared thread-safe ownership: the function
/// sits in a lock, and clones share it and its state.
#[verifier::reject_recursive_types(T)]
#[verifier::reject_recursive_types(R)]
pub struct ArcStatefulMutatingFunction<T, R> {
    function: Arc<RwLock<SyncBoxFunction<T, R>, spec_fn(SyncBoxFunction<T, R>) -> bool>>,
    requires_spec: Ghost<spec_fn(T) -> bool>,
    ensures_spec: Ghost<spec_fn(T, T, R) -> bool>,
}

impl<T: 'static, R: 'static> ArcStatefulMutatingFunction<T, R> {
    /// The lock holds the invariant this function was built with.
    #[verifier::type_invariant]
    closed spec fn wf(&self) -> bool {
        self.function.pred() == |m: SyncBoxFunction<T, R>| lock_holds(self.requires_spec@, self.ensures_spec@, m)
    }

    /// Locks a function away, with exactly its behaviour.
    fn from_function<M>(m: M) -> (res: Self)
        where M: StatefulMutatingFunction<T, R> + Send + Sync + 'static
        ensures
            same_function(res, m),
    {
        let slot = SyncBoxFunction { function: Box::new(m) };
        let ghost req = |x: T| m.apply_requires(x);
        let ghost ens = |x: T, y: T, r: R| m.apply_ensures(x, y, r);
        let ghost pred = |s: SyncBoxFunction<T, R>| lock_holds(req, ens, s);
        let lock = RwLock::new(slot, Ghost(pred));
        ArcStatefulMutatingFunction { function: Arc::new(lock), requires_spec: Ghost(req), ensures_spec: Ghost(ens) }
    }
}

impl<T: 'static, R: 'static> Clone for ArcStatefulMutatingFunction<T, R> {
    /// Another handle to the same function and its state.
    fn clone(&self) -> (res: Self)
        ensures
            res == *self,
    {
        proof {
            use_type_invariant(self);
        }
        ArcStatefulMutatingFunction { function: arc_share(&self.function), requires_spec: self.requires_spec, ensures_spec: self.ensures_spec }
    }
}

impl<T, R> ArcStatefulMutatingFunction<T, R> where T: Send + 'static, R: Send + 'static {
    /// Wraps a closure.
    pub fn new<F>(f: F) -> (res: Self)
        where F: FnMut(&mut T) -> R + Send + Sync + 'static
        ensures
            forall|x: T| #[trigger] res.apply_requires(x) == (forall|m: &mut T| mut_ref_current(m) == x ==> #[trigger] f.requires((m,))),
            forall|x: T, y: T, r: R| #[trigger] res.apply_ensures(x, y, r) == (exists|m: &mut T| mut_ref_current(m) == x && #[trigger] f.ensures((m,), r)),
    {
        ArcStatefulMutatingFunction::from_function(f)
    }

    /// The function that leaves its input as it is and returns `R::from` of a
    /// clone of it.
    pub fn identity() -> (res: Self)
        where T: Clone, R: From<T>
        ensures
            forall|x: T| #[trigger] res.apply_requires(x),
            forall|x: T, y: T, r: R| #[trigger] res.apply_ensures(x, y, r) == (y == x && from_clone_ensures(x, r)),
    {
        ArcStatefulMutatingFunction::from_function(IdentityFunction)
    }

    /// This function, then `next` on the same value; the result is `next`'s.
    /// Both stay usable and share their state.
    pub fn and_then<R2>(&self, next: &ArcStatefulMutatingFunction<T, R2>) -> (res: ArcStatefulMutatingFunction<T, R2>)
        where R2: Send + 'static
        ensures
            forall|x: T| #[trigger] res.apply_requires(x) == seq_requires(*self, *next, x),
            forall|x: T, z: T, s: R2| #[trigger] res.apply_ensures(x, z, s) == seq_ensures(*self, *next, x, z, s),
    {
        ArcStatefulMutatingFunction::from_function(SeqFunction { first: self.clone(), second: next.clone(), dropped: Ghost(None) })
    }

    /// This function with its result passed through `mapper`; `self` stays
    /// usable and shares its state.
    pub fn map<F, R2>(&self, mapper: F) -> (res: ArcStatefulMutatingFunction<T, R2>)
        where F: Fn(R) -> R2 + Send + Sync + 'static, R2: Send + 'static
        ensures
            forall|x: T| #[trigger] res.apply_requires(x) == map_requires(*self, mapper, x),
            forall|x: T, y: T, s: R2| #[trigger] res.apply_ensures(x, y, s) == map_ensures(*self, mapper, x, y, s),
    {
        ArcStatefulMutatingFunction::from_function(MappedFunction { function: self.clone(), mapper, middle: Ghost(None) })
    }
}

impl<T: 'static, R: 'static> StatefulMutatingFunction<T, R> for ArcStatefulMutatingFunction<T, R> {
    closed spec fn apply_requires(&self, input: T) -> bool {
        (self.requires_spec@)(input)
    }

    closed spec fn apply_ensures(&self, before: T, after: T, output: R) -> bool {
        (self.ensures_spec@)(before, after, output)
    }


    closed spec fn history(&self) -> Option<Seq<(T, T, R)>> {
        None
    }
    fn apply(&mut self, input: &mut T) -> (output: R) {
        proof {
            use_type_invariant(&*self);
        }
        let (mut m, handle) = self.function.acquire_write();
        let output = m.apply(input);
        handle.release_write(m);
        output
    }
}

/// Conversions of a stateful mutating function into the three ownership
/// flavours, keeping its behaviour.
pub trait IntoStatefulMutatingFunction<T, R>: StatefulMutatingFunction<T, R> + Sized + 'static {
    /// Converts into a `BoxStatefulMutatingFunction`.
    fn into_box(self) -> (res: BoxStatefulMutatingFunction<T, R>)
        where T: 'static, R: 'static
        ensures
            same_function(res, self),
    ;

    /// Converts into an `RcStatefulMutatingFunction`.
    fn into_rc(self) -> (res: RcStatefulMutatingFunction<T, R>)
        where T: 'static, R: 'static
        ensures
            same_function(res, self),
    ;

    /// Converts into an `ArcStatefulMutatingFunction`.
    fn into_arc(self) -> (res: ArcStatefulMutatingFunction<T, R>)
        where Self: Send + Sync, T: Send + 'static, R: Send + 'static
        ensures
            same_function(res, self),
    ;

    /// Converts a clone into a `BoxStatefulMutatingFunction`; this one stays usable.
    fn to_box(&self) -> (res: BoxStatefulMutatingFunction<T, R>)
        where Self: Clone, T: 'static, R: 'static
        ensures
            exists|c: Self| #[trigger] cloned(*self, c) && same_function(res, c),
    ;

    /// Converts a clone into an `RcStatefulMutatingFunction`; this one stays usable.
    fn to_rc(&self) -> (res: RcStatefulMutatingFunction<T, R>)
        where Self: Clone, T: 'static, R: 'static
        ensures
            exists|c: Self| #[trigger] cloned(*self, c) && same_function(res, c),
    ;

    /// Converts a clone into an `ArcStatefulMutatingFunction`; this one stays usable.
    fn to_arc(&self) -> (res: ArcStatefulMutatingFunction<T, R>)
        where Self: Clone + Send + Sync, T: Send + 'static, R: Send + 'static
        ensures
            exists|c: Self| #[trigger] cloned(*self, c) && same_function(res, c),
    ;
}

/// Any such function, or any closure, converts by being wrapped.
impl<T: 'static, R: 'static, M> IntoStatefulMutatingFunction<T, R> for M where M: StatefulMutatingFunction<T, R> + 'static {
    fn into_box(self) -> (res: BoxStatefulMutatingFunction<T, R>)
        where T: 'static, R: 'static
    {
        BoxStatefulMutatingFunction { function: Box::new(self) }
    }

    fn into_rc(self) -> (res: RcStatefulMutatingFunction<T, R>)
        where T: 'static, R: 'static
    {
        RcStatefulMutatingFunction::from_function(self)
    }

    fn into_arc(self) -> (res: ArcStatefulMutatingFunction<T, R>)
        where Self: Send + Sync, T: Send + 'static, R: Send + 'static
    {
        ArcStatefulMutatingFunction::from_function(self)
    }

    fn to_box(&self) -> (res: BoxStatefulMutatingFunction<T, R>)
        where Self: Clone, T: 'static, R: 'static
    {
        let c = self.clone();
        proof {
            assert(cloned(*self, c));
        }
        c.into_box()
    }

    fn to_rc(&self) -> (res: RcStatefulMutatingFunction<T, R>)
        where Self: Clone, T: 'static, R: 'static
    {
        let c = self.clone();
        proof {
            assert(cloned(*self, c));
        }
        c.into_rc()
    }

    fn to_arc(&self) -> (res: ArcStatefulMutatingFunction<T, R>)
        where Self: Clone + Send + Sync, T: Send + 'static, R: Send + 'static
    {
        let c = self.clone();
        proof {
            assert(cloned(*self, c));
        }
        c.into_arc()
    }
}

/// Chaining and result mapping on closures, producing
/// `BoxStatefulMutatingFunction`s.
pub trait FnMutStatefulMutatingFunctionOps<T, R>: StatefulMutatingFunction<T, R> + Sized + 'static {
    /// This closure, then `next` on the same value; the result is `next`'s.
    fn and_then<F, R2>(self, next: F) -> (res: BoxStatefulMutatingFunction<T, R2>)
        where F: StatefulMutatingFunction<T, R2> + 'static, T: 'static, R: 'static, R2: 'static
        ensures
            forall|x: T| #[trigger] res.apply_requires(x) == seq_requires(self, next, x),
            forall|x: T, z: T, s: R2| #[trigger] res.apply_ensures(x, z, s) == seq_ensures(self, next, x, z, s),
    ;

    /// This closure with its result passed through `mapper`.
    fn map<F, R2>(self, mapper: F) -> (res: BoxStatefulMutatingFunction<T, R2>)
        where F: Fn(R) -> R2 + 'static, T: 'static, R: 'static, R2: 'static
        ensures
            forall|x: T| #[trigger] res.apply_requires(x) == map_requires(self, mapper, x),
            forall|x: T, y: T, s: R2| #[trigger] res.apply_ensures(x, y, s) == map_ensures(self, mapper, x, y, s),
    ;
}

impl<T, R, C> FnMutStatefulMutatingFunctionOps<T, R> for C where C: FnMut(&mut T) -> R + 'static {
    fn and_then<F, R2>(self, next: F) -> (res: BoxStatefulMutatingFunction<T, R2>)
        where F: StatefulMutatingFunction<T, R2> + 'static, T: 'static, R: 'static, R2: 'static
    {
        BoxStatefulMutatingFunction { function: Box::new(SeqFunction { first: self, second: next, dropped: Ghost(None) }) }
    }

    fn map<F, R2>(self, mapper: F) -> (res: BoxStatefulMutatingFunction<T, R2>)
        where F: Fn(R) -> R2 + 'static, T: 'static, R: 'static, R2: 'static
    {
        BoxStatefulMutatingFunction { function: Box::new(MappedFunction { function: self, mapper, middle: Ghost(None) }) }
    }
}

} // verus!
