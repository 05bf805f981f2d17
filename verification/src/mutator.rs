//! Mutators: stateful operations `FnMut(&mut T)` that change a value in
//! place, in three ownership flavours, with chaining and conditional
//! application.
//!
//! A mutator's behaviour is modelled as a relation that holds on every call:
//! `mutate_requires(v)` says on which values it may be called, and
//! `mutate_ensures(v, w)` which new values `w` it may leave in place of `v`.
//! A call does not change this relation. For a closure the relation holds
//! its precondition only; what it does to the value is stated by each direct
//! call of `mutate` on it, not by the relation. The mutators
//! this module builds (`noop`, chains, conditionals) are modelled exactly in
//! terms of their parts. The shared flavours keep the mutator in a lock, so
//! clones share its state.
use vstd::prelude::*;
use vstd::rwlock::RwLock;
use std::rc::Rc;
use std::sync::Arc;
use crate::predicate::{Predicate, BoxPredicate, RcPredicate, ArcPredicate, same_predicate};
use crate::shared::{rc_share, arc_share, record};

verus! {

/// An operation that changes values of type `T` in place.
pub trait Mutator<T> {
    /// Values the mutator may be called on.
    spec fn mutate_requires(&self, value: T) -> bool;

    /// New values the mutator may leave in place of `before`.
    spec fn mutate_ensures(&self, before: T, after: T) -> bool;

    /// The calls the mutator has answered, as `(before, after)` pairs, oldest
    /// first, where it keeps a record of them; `None` where it keeps none.
    spec fn history(&self) -> Option<Seq<(T, T)>>;

    /// Changes `value` in place, possibly updating the mutator's state. A
    /// mutator that keeps a record of its calls records this one.
    fn mutate(&mut self, value: &mut T)
        requires
            old(self).mutate_requires(*old(value)),
        ensures
            old(self).mutate_ensures(*old(value), *final(value)),
            final(self).history() == record(old(self).history(), (*old(value), *final(value))),
            forall|x: T| #[trigger] final(self).mutate_requires(x) == old(self).mutate_requires(x),
            forall|x: T, y: T| #[trigger] final(self).mutate_ensures(x, y) == old(self).mutate_ensures(x, y),
    ;
}

/// Two mutators may be called on the same values and may leave the same new
/// values.
pub open spec fn same_mutator<T, A: Mutator<T>, B: Mutator<T>>(a: A, b: B) -> bool {
    &&& forall|x: T| #[trigger] a.mutate_requires(x) == b.mutate_requires(x)
    &&& forall|x: T, y: T| #[trigger] a.mutate_ensures(x, y) == b.mutate_ensures(x, y)
}

/// When `a` then `b` may be called on `x`.
pub open spec fn seq_requires<T, A: Mutator<T>, B: Mutator<T>>(a: A, b: B, x: T) -> bool {
    &&& a.mutate_requires(x)
    &&& forall|y: T| #[trigger] a.mutate_ensures(x, y) ==> b.mutate_requires(y)
}

/// New values of `a` then `b`.
pub open spec fn seq_ensures<T, A: Mutator<T>, B: Mutator<T>>(a: A, b: B, x: T, z: T) -> bool {
    exists|y: T| #[trigger] a.mutate_ensures(x, y) && b.mutate_ensures(y, z)
}

/// When `a`, applied only where `p` holds, may be called on `x`.
pub open spec fn cond_requires<T, P: Predicate<T>, A: Mutator<T>>(p: P, a: A, x: T) -> bool {
    &&& p.test_requires(x)
    &&& p.test_ensures(x, true) ==> a.mutate_requires(x)
}

/// New values of `a` applied only where `p` holds; elsewhere the value stays.
pub open spec fn cond_ensures<T, P: Predicate<T>, A: Mutator<T>>(p: P, a: A, x: T, y: T) -> bool {
    ||| p.test_ensures(x, true) && a.mutate_ensures(x, y)
    ||| p.test_ensures(x, false) && y == x
}

/// When `p ? a : b` may be called on `x`.
pub open spec fn branch_requires<T, P: Predicate<T>, A: Mutator<T>, B: Mutator<T>>(p: P, a: A, b: B, x: T) -> bool {
    &&& p.test_requires(x)
    &&& p.test_ensures(x, true) ==> a.mutate_requires(x)
    &&& p.test_ensures(x, false) ==> b.mutate_requires(x)
}

/// New values of `p ? a : b`.
pub open spec fn branch_ensures<T, P: Predicate<T>, A: Mutator<T>, B: Mutator<T>>(p: P, a: A, b: B, x: T, y: T) -> bool {
    ||| p.test_ensures(x, true) && a.mutate_ensures(x, y)
    ||| p.test_ensures(x, false) && b.mutate_ensures(x, y)
}

/// Running two mutators whose behaviour is unchanged leaves the sequence's
/// behaviour unchanged.
proof fn lemma_seq_stable<T, A: Mutator<T>, B: Mutator<T>>(a0: A, b0: B, a1: A, b1: B)
    requires
        same_mutator(a0, a1),
        same_mutator(b0, b1),
    ensures
        forall|x: T| #[trigger] seq_requires(a1, b1, x) == seq_requires(a0, b0, x),
        forall|x: T, z: T| #[trigger] seq_ensures(a1, b1, x, z) == seq_ensures(a0, b0, x, z),
{
    assert forall|x: T| #[trigger] seq_requires(a1, b1, x) == seq_requires(a0, b0, x) by {
        assert forall|y: T| #[trigger] a1.mutate_ensures(x, y) ==> b1.mutate_requires(y)
            <==> (a0.mutate_ensures(x, y) ==> b0.mutate_requires(y)) by {
            assert(a1.mutate_ensures(x, y) == a0.mutate_ensures(x, y));
            assert(b1.mutate_requires(y) == b0.mutate_requires(y));
        }
        assert(a1.mutate_requires(x) == a0.mutate_requires(x));
    }
    assert forall|x: T, z: T| #[trigger] seq_ensures(a1, b1, x, z) == seq_ensures(a0, b0, x, z) by {
        if seq_ensures(a1, b1, x, z) {
            let y = choose|y: T| #[trigger] a1.mutate_ensures(x, y) && b1.mutate_ensures(y, z);
            assert(a0.mutate_ensures(x, y) && b0.mutate_ensures(y, z));
        }
        if seq_ensures(a0, b0, x, z) {
            let y = choose|y: T| #[trigger] a0.mutate_ensures(x, y) && b0.mutate_ensures(y, z);
            assert(a1.mutate_ensures(x, y) && b1.mutate_ensures(y, z));
        }
    }
}


/// `s` behaves as `a` then `b`, as `a.and_then(b)` does.
pub open spec fn is_sequence<T, S: Mutator<T>, A: Mutator<T>, B: Mutator<T>>(s: S, a: A, b: B) -> bool {
    &&& forall|x: T| #[trigger] s.mutate_requires(x) == seq_requires(a, b, x)
    &&& forall|x: T, z: T| #[trigger] s.mutate_ensures(x, z) == seq_ensures(a, b, x, z)
}

/// `m` may be called on every value and leaves it as it is, as `noop()`
/// does.
pub open spec fn is_noop<T, M: Mutator<T>>(m: M) -> bool {
    &&& forall|x: T| #[trigger] m.mutate_requires(x)
    &&& forall|x: T, y: T| #[trigger] m.mutate_ensures(x, y) == (y == x)
}

/// The no-op is a left unit of chaining: `noop().and_then(m)` behaves as
/// `m`.
pub proof fn law_noop_then<T, N: Mutator<T>, M: Mutator<T>, S: Mutator<T>>(n: N, m: M, s: S)
    requires
        is_noop(n),
        is_sequence(s, n, m),
    ensures
        same_mutator(s, m),
{
    assert forall|x: T| #[trigger] s.mutate_requires(x) == m.mutate_requires(x) by {
        assert(n.mutate_ensures(x, x));
    }
    assert forall|x: T, z: T| #[trigger] s.mutate_ensures(x, z) == m.mutate_ensures(x, z) by {
        if m.mutate_ensures(x, z) {
            assert(n.mutate_ensures(x, x));
        }
    }
}

/// The no-op is a right unit of chaining: `m.and_then(noop())` behaves as
/// `m`.
pub proof fn law_then_noop<T, M: Mutator<T>, N: Mutator<T>, S: Mutator<T>>(m: M, n: N, s: S)
    requires
        is_noop(n),
        is_sequence(s, m, n),
    ensures
        same_mutator(s, m),
{
    assert forall|x: T, z: T| #[trigger] s.mutate_ensures(x, z) == m.mutate_ensures(x, z) by {
        if m.mutate_ensures(x, z) {
            assert(n.mutate_ensures(z, z));
        }
    }
}

/// Chaining is associative: `(a then b) then c` behaves as
/// `a then (b then c)`.
pub proof fn law_sequence_associative<T, A: Mutator<T>, B: Mutator<T>, C: Mutator<T>, AB: Mutator<T>, LeftNested: Mutator<T>, BC: Mutator<T>, RightNested: Mutator<T>>(
    a: A,
    b: B,
    c: C,
    ab: AB,
    ab_c: LeftNested,
    bc: BC,
    a_bc: RightNested,
)
    requires
        is_sequence(ab, a, b),
        is_sequence(ab_c, ab, c),
        is_sequence(bc, b, c),
        is_sequence(a_bc, a, bc),
    ensures
        same_mutator(ab_c, a_bc),
{
    assert forall|x: T| #[trigger] ab_c.mutate_requires(x) == a_bc.mutate_requires(x) by {
        if ab_c.mutate_requires(x) {
            assert forall|y: T| #[trigger] a.mutate_ensures(x, y) implies bc.mutate_requires(y) by {
                assert forall|z: T| #[trigger] b.mutate_ensures(y, z) implies c.mutate_requires(z) by {
                    assert(ab.mutate_ensures(x, z));
                }
            }
        }
        if a_bc.mutate_requires(x) {
            assert forall|z: T| #[trigger] ab.mutate_ensures(x, z) implies c.mutate_requires(z) by {
                let y = choose|y: T| #[trigger] a.mutate_ensures(x, y) && b.mutate_ensures(y, z);
                assert(bc.mutate_requires(y));
            }
        }
    }
    assert forall|x: T, w: T| #[trigger] ab_c.mutate_ensures(x, w) == a_bc.mutate_ensures(x, w) by {
        if ab_c.mutate_ensures(x, w) {
            let z = choose|z: T| #[trigger] ab.mutate_ensures(x, z) && c.mutate_ensures(z, w);
            let y = choose|y: T| #[trigger] a.mutate_ensures(x, y) && b.mutate_ensures(y, z);
            assert(bc.mutate_ensures(y, w));
        }
        if a_bc.mutate_ensures(x, w) {
            let y = choose|y: T| #[trigger] a.mutate_ensures(x, y) && bc.mutate_ensures(y, w);
            let z = choose|z: T| #[trigger] b.mutate_ensures(y, z) && c.mutate_ensures(z, w);
            assert(ab.mutate_ensures(x, z));
        }
    }
}

/// Where the predicate never holds, `m.when(p)` leaves every value as it is.
pub proof fn law_when_never_is_noop<T, P: Predicate<T>, M: Mutator<T>, C: Mutator<T>>(p: P, m: M, c: C)
    requires
        forall|x: T| #[trigger] p.test_requires(x),
        forall|x: T, r: bool| #[trigger] p.test_ensures(x, r) == !r,
        forall|x: T| #[trigger] c.mutate_requires(x) == cond_requires(p, m, x),
        forall|x: T, y: T| #[trigger] c.mutate_ensures(x, y) == cond_ensures(p, m, x, y),
    ensures
        is_noop(c),
{
    assert forall|x: T| #[trigger] c.mutate_requires(x) by {
        assert(!p.test_ensures(x, true));
    }
    assert forall|x: T, y: T| #[trigger] c.mutate_ensures(x, y) == (y == x) by {
        assert(!p.test_ensures(x, true));
        assert(p.test_ensures(x, false));
    }
}

/// `m.when(p).or_else(noop())` behaves as `m.when(p)`.
pub proof fn law_or_else_noop_is_when<T, P: Predicate<T>, M: Mutator<T>, N: Mutator<T>, B: Mutator<T>, C: Mutator<T>>(p: P, m: M, n: N, b: B, c: C)
    requires
        is_noop(n),
        forall|x: T| #[trigger] b.mutate_requires(x) == branch_requires(p, m, n, x),
        forall|x: T, y: T| #[trigger] b.mutate_ensures(x, y) == branch_ensures(p, m, n, x, y),
        forall|x: T| #[trigger] c.mutate_requires(x) == cond_requires(p, m, x),
        forall|x: T, y: T| #[trigger] c.mutate_ensures(x, y) == cond_ensures(p, m, x, y),
    ensures
        same_mutator(b, c),
{
    assert forall|x: T| #[trigger] b.mutate_requires(x) == c.mutate_requires(x) by {
        assert(n.mutate_requires(x));
    }
    assert forall|x: T, y: T| #[trigger] b.mutate_ensures(x, y) == c.mutate_ensures(x, y) by {
        assert(n.mutate_ensures(x, y) == (y == x));
    }
}

/// `m0` answered one call on `x`, left `y` and became `m1`: `y` is a new
/// value it may leave for `x`, and its record, where it keeps one, gained
/// exactly that call.
pub open spec fn one_mutate<T, M: Mutator<T>>(m0: M, x: T, y: T, m1: M) -> bool {
    &&& m0.mutate_ensures(x, y)
    &&& m1.history() == record(m0.history(), (x, y))
}

/// One call of `a` then `b` on `x` leaving `z`: `a` answered one call on
/// `x`, and `b` one call on the value `a` left, leaving `z`.
pub open spec fn seq_call<T, A: Mutator<T>, B: Mutator<T>>(a0: A, b0: B, a1: A, b1: B, x: T, z: T) -> bool {
    exists|y: T| #[trigger] one_mutate(a0, x, y, a1) && one_mutate(b0, y, z, b1)
}

/// One call of `a` applied where `p` holds, on `x`, leaving `y`: where the
/// predicate holds `a` answered one call, and elsewhere `a` was not called
/// and the value stayed.
pub open spec fn cond_call<T, P: Predicate<T>, A: Mutator<T>>(p: P, a0: A, a1: A, x: T, y: T) -> bool {
    ||| p.test_ensures(x, true) && one_mutate(a0, x, y, a1)
    ||| p.test_ensures(x, false) && y == x && a1 == a0
}

/// One call of `p ? a : b` on `x` leaving `y`: exactly the chosen mutator
/// answered one call, and the other was left as it was.
pub open spec fn branch_call<T, P: Predicate<T>, A: Mutator<T>, B: Mutator<T>>(p: P, a0: A, b0: B, a1: A, b1: B, x: T, y: T) -> bool {
    ||| p.test_ensures(x, true) && one_mutate(a0, x, y, a1) && b1 == b0
    ||| p.test_ensures(x, false) && one_mutate(b0, x, y, b1) && a1 == a0
}

/// Each call of `a.and_then(b)` makes exactly one call of each part, in
/// turn: where both keep records, each gains exactly one entry, `b`'s entry
/// starts from the value `a` left, and the chain's new value is `b`'s.
pub proof fn law_sequence_calls_each_part_once<T, A: Mutator<T>, B: Mutator<T>>(a0: A, b0: B, a1: A, b1: B, x: T, z: T)
    requires
        seq_call(a0, b0, a1, b1, x, z),
        a0.history() is Some,
        b0.history() is Some,
    ensures
        a1.history() is Some && b1.history() is Some,
        a1.history()->0.len() == a0.history()->0.len() + 1,
        b1.history()->0.len() == b0.history()->0.len() + 1,
        a1.history()->0.last().0 == x,
        b1.history()->0.last().0 == a1.history()->0.last().1,
        b1.history()->0.last().1 == z,
{
    let y = choose|y: T| #[trigger] one_mutate(a0, x, y, a1) && one_mutate(b0, y, z, b1);
}

/// A conditional mutator calls its mutator at most once per call: once,
/// recording exactly this call, where the predicate holds; not at all, with
/// the value unchanged, where it does not.
pub proof fn law_when_calls_at_most_once<T, P: Predicate<T>, A: Mutator<T>>(p: P, a0: A, a1: A, x: T, y: T)
    requires
        cond_call(p, a0, a1, x, y),
        forall|b: bool| #[trigger] p.test_ensures(x, b) ==> b == p.test_ensures(x, true),
    ensures
        p.test_ensures(x, true) ==> (a0.history() matches Some(h) ==> a1.history() == Some(h.push((x, y)))),
        !p.test_ensures(x, true) ==> a1 == a0 && y == x,
{
}

/// Each call of `p ? a : b` calls exactly the chosen mutator once and leaves
/// the other as it was.
pub proof fn law_branch_calls_chosen_once<T, P: Predicate<T>, A: Mutator<T>, B: Mutator<T>>(p: P, a0: A, b0: B, a1: A, b1: B, x: T, y: T)
    requires
        branch_call(p, a0, b0, a1, b1, x, y),
        forall|b: bool| #[trigger] p.test_ensures(x, b) ==> b == p.test_ensures(x, true),
    ensures
        p.test_ensures(x, true) ==> b1 == b0 && (a0.history() matches Some(h) ==> a1.history() == Some(h.push((x, y)))),
        !p.test_ensures(x, true) ==> a1 == a0 && (b0.history() matches Some(h) ==> b1.history() == Some(h.push((x, y)))),
{
}

/// The mutator that leaves every value as it is.
struct NoopMutator;

impl<T> Mutator<T> for NoopMutator {
    closed spec fn mutate_requires(&self, value: T) -> bool {
        true
    }

    closed spec fn mutate_ensures(&self, before: T, after: T) -> bool {
        after == before
    }


    closed spec fn history(&self) -> Option<Seq<(T, T)>> {
        None
    }
    fn mutate(&mut self, value: &mut T) {
    }
}

/// Two mutators run in turn on the same value: what `and_then` builds.
pub struct SeqMutator<A, B> {
    first: A,
    second: B,
}

impl<A, B> SeqMutator<A, B> {
    /// The mutator run first.
    pub closed spec fn first_part(&self) -> A {
        self.first
    }

    /// The mutator run second.
    pub closed spec fn second_part(&self) -> B {
        self.second
    }
}

impl<T, A: Mutator<T>, B: Mutator<T>> Mutator<T> for SeqMutator<A, B> {
    closed spec fn mutate_requires(&self, value: T) -> bool {
        seq_requires(self.first, self.second, value)
    }

    closed spec fn mutate_ensures(&self, before: T, after: T) -> bool {
        seq_ensures(self.first, self.second, before, after)
    }


    closed spec fn history(&self) -> Option<Seq<(T, T)>> {
        None
    }
    fn mutate(&mut self, value: &mut T)
        ensures
            seq_call(old(self).first_part(), old(self).second_part(), final(self).first_part(), final(self).second_part(), *old(value), *final(value)),
    {
        let ghost a0 = self.first;
        let ghost b0 = self.second;
        let ghost x = *value;
        self.first.mutate(value);
        let ghost y = *value;
        self.second.mutate(value);
        proof {
            assert(one_mutate(a0, x, y, self.first) && one_mutate(b0, y, *value, self.second));
            lemma_seq_stable(a0, b0, self.first, self.second);
        }
    }
}

/// A mutator applied only where a predicate holds.
pub struct CondMutator<P, A> {
    predicate: P,
    mutator: A,
}

impl<P, A> CondMutator<P, A> {
    /// The predicate that decides.
    pub closed spec fn chooser(&self) -> P {
        self.predicate
    }

    /// The mutator applied where the predicate holds.
    pub closed spec fn then_part(&self) -> A {
        self.mutator
    }
}

impl<T, P: Predicate<T>, A: Mutator<T>> Mutator<T> for CondMutator<P, A> {
    closed spec fn mutate_requires(&self, value: T) -> bool {
        cond_requires(self.predicate, self.mutator, value)
    }

    closed spec fn mutate_ensures(&self, before: T, after: T) -> bool {
        cond_ensures(self.predicate, self.mutator, before, after)
    }


    closed spec fn history(&self) -> Option<Seq<(T, T)>> {
        None
    }
    fn mutate(&mut self, value: &mut T)
        ensures
            cond_call(old(self).chooser(), old(self).then_part(), final(self).then_part(), *old(value), *final(value)),
    {
        if self.predicate.test(value) {
            self.mutator.mutate(value);
        }
    }
}

/// A mutator chosen per value by a predicate: what `or_else` builds.
pub struct BranchMutator<P, A, B> {
    predicate: P,
    then_mutator: A,
    else_mutator: B,
}

impl<P, A, B> BranchMutator<P, A, B> {
    /// The predicate that chooses.
    pub closed spec fn chooser(&self) -> P {
        self.predicate
    }

    /// The mutator used where the predicate holds.
    pub closed spec fn then_part(&self) -> A {
        self.then_mutator
    }

    /// The mutator used where it does not.
    pub closed spec fn else_part(&self) -> B {
        self.else_mutator
    }
}

impl<T, P: Predicate<T>, A: Mutator<T>, B: Mutator<T>> Mutator<T> for BranchMutator<P, A, B> {
    closed spec fn mutate_requires(&self, value: T) -> bool {
        branch_requires(self.predicate, self.then_mutator, self.else_mutator, value)
    }

    closed spec fn mutate_ensures(&self, before: T, after: T) -> bool {
        branch_ensures(self.predicate, self.then_mutator, self.else_mutator, before, after)
    }


    closed spec fn history(&self) -> Option<Seq<(T, T)>> {
        None
    }
    fn mutate(&mut self, value: &mut T)
        ensures
            branch_call(
                old(self).chooser(),
                old(self).then_part(),
                old(self).else_part(),
                final(self).then_part(),
                final(self).else_part(),
                *old(value),
                *final(value),
            ),
    {
        if self.predicate.test(value) {
            self.then_mutator.mutate(value);
        } else {
            self.else_mutator.mutate(value);
        }
    }
}

/// A mutator that may be shared between threads.
pub trait SharedMutator<T>: Send + Sync {
    /// Values the mutator may be called on.
    spec fn shared_mutate_requires(&self, value: T) -> bool;

    /// New values the mutator may leave in place of `before`.
    spec fn shared_mutate_ensures(&self, before: T, after: T) -> bool;

    /// Changes `value` in place, possibly updating the mutator's state.
    fn shared_mutate(&mut self, value: &mut T)
        requires
            old(self).shared_mutate_requires(*old(value)),
        ensures
            old(self).shared_mutate_ensures(*old(value), *final(value)),
            forall|x: T| #[trigger] final(self).shared_mutate_requires(x) == old(self).shared_mutate_requires(x),
            forall|x: T, y: T| #[trigger] final(self).shared_mutate_ensures(x, y) == old(self).shared_mutate_ensures(x, y),
    ;
}

impl<T, M: Mutator<T> + Send + Sync> SharedMutator<T> for M {
    open spec fn shared_mutate_requires(&self, value: T) -> bool {
        self.mutate_requires(value)
    }

    open spec fn shared_mutate_ensures(&self, before: T, after: T) -> bool {
        self.mutate_ensures(before, after)
    }

    fn shared_mutate(&mut self, value: &mut T) {
        self.mutate(value)
    }
}

/// A closure's behaviour as a mutator is its own precondition and
/// postcondition. Call this where a concrete closure is used, so that its
/// relation unfolds.
pub proof fn lemma_closure_mutator<T, F: FnMut(&mut T)>(f: F)
    ensures
        forall|x: T| #[trigger] f.mutate_requires(x) == (forall|m: &mut T| mut_ref_current(m) == x ==> #[trigger] f.requires((m,))),
        forall|x: T, y: T| #[trigger] f.mutate_ensures(x, y),
{
}

/// Every closure `FnMut(&mut T)` is a mutator with the closure's own
/// precondition. The relation does not say what the closure does to the
/// value (that would need the value's final state inside a spec function);
/// each call of `mutate` states it: the old and new value are related by the
/// closure's own postcondition.
impl<T, F> Mutator<T> for F where F: FnMut(&mut T) {
    open spec fn mutate_requires(&self, value: T) -> bool {
        forall|m: &mut T| mut_ref_current(m) == value ==> #[trigger] self.requires((m,))
    }

    open spec fn mutate_ensures(&self, before: T, after: T) -> bool {
        true
    }


    open spec fn history(&self) -> Option<Seq<(T, T)>> {
        None
    }
    fn mutate(&mut self, value: &mut T)
        ensures
            exists|m: &mut T| mut_ref_current(m) == *old(value) && mut_ref_future(m) == *final(value) && #[trigger] (*old(self)).ensures((m,), ()),
    {
        broadcast use vstd::function::group_function_axioms;
        self(value)
    }
}

/// Whatever mutator a lock holds may be called where `req` holds and leaves
/// only new values in `ens`.
pub open spec fn lock_holds<T, M: Mutator<T>>(req: spec_fn(T) -> bool, ens: spec_fn(T, T) -> bool, m: M) -> bool {
    &&& forall|x: T| req(x) ==> #[trigger] m.mutate_requires(x)
    &&& forall|x: T, y: T| #[trigger] m.mutate_ensures(x, y) ==> ens(x, y)
}

/// A boxed mutator that may be shared between threads.
#[verifier::reject_recursive_types(T)]
struct SyncBoxMutator<T> {
    function: Box<dyn SharedMutator<T>>,
}

impl<T: 'static> Mutator<T> for SyncBoxMutator<T> {
    closed spec fn mutate_requires(&self, value: T) -> bool {
        self.function.shared_mutate_requires(value)
    }

    closed spec fn mutate_ensures(&self, before: T, after: T) -> bool {
        self.function.shared_mutate_ensures(before, after)
    }


    closed spec fn history(&self) -> Option<Seq<(T, T)>> {
        None
    }
    fn mutate(&mut self, value: &mut T) {
        self.function.shared_mutate(value)
    }
}

/// A mutator with single ownership.
#[verifier::reject_recursive_types(T)]
pub struct BoxMutator<T> {
    func: Box<dyn Mutator<T>>,
}

impl<T: 'static> BoxMutator<T> {
    /// Wraps a closure.
    pub fn new<F>(f: F) -> (res: Self)
        where F: FnMut(&mut T) + 'static
        ensures
            forall|x: T| #[trigger] res.mutate_requires(x) == (forall|m: &mut T| mut_ref_current(m) == x ==> #[trigger] f.requires((m,))),
            forall|x: T, y: T| #[trigger] res.mutate_ensures(x, y),
    {
        BoxMutator { func: Box::new(f) }
    }

    /// The mutator that leaves every value as it is.
    pub fn noop() -> (res: Self)
        ensures
            forall|x: T| #[trigger] res.mutate_requires(x),
            forall|x: T, y: T| #[trigger] res.mutate_ensures(x, y) == (y == x),
    {
        BoxMutator { func: Box::new(NoopMutator) }
    }

    /// This mutator, then `next`, on the same value.
    pub fn and_then<C>(self, next: C) -> (res: Self)
        where C: Mutator<T> + 'static
        ensures
            forall|x: T| #[trigger] res.mutate_requires(x) == seq_requires(self, next, x),
            forall|x: T, z: T| #[trigger] res.mutate_ensures(x, z) == seq_ensures(self, next, x, z),
    {
        BoxMutator { func: Box::new(SeqMutator { first: self, second: next }) }
    }

    /// This mutator, applied only where `predicate` holds.
    pub fn when<P>(self, predicate: P) -> (res: BoxConditionalMutator<T>)
        where P: Predicate<T> + 'static
        ensures
            res.mutator() == self,
            same_predicate(res.predicate(), predicate),
            forall|x: T| #[trigger] res.mutate_requires(x) == cond_requires(predicate, self, x),
            forall|x: T, y: T| #[trigger] res.mutate_ensures(x, y) == cond_ensures(predicate, self, x, y),
    {
        BoxConditionalMutator { mutator: self, predicate: BoxPredicate::wrap(predicate) }
    }
}

impl<T: 'static> Mutator<T> for BoxMutator<T> {
    closed spec fn mutate_requires(&self, value: T) -> bool {
        self.func.mutate_requires(value)
    }

    closed spec fn mutate_ensures(&self, before: T, after: T) -> bool {
        self.func.mutate_ensures(before, after)
    }


    closed spec fn history(&self) -> Option<Seq<(T, T)>> {
        self.func.history()
    }
    fn mutate(&mut self, value: &mut T) {
        self.func.mutate(value)
    }
}

/// An `BoxMutator` applied only where a predicate holds; elsewhere values
/// stay as they are.
#[verifier::reject_recursive_types(T)]
pub struct BoxConditionalMutator<T> {
    mutator: BoxMutator<T>,
    predicate: BoxPredicate<T>,
}

impl<T> BoxConditionalMutator<T> {
    /// The mutator used where the predicate holds.
    pub closed spec fn mutator(&self) -> BoxMutator<T> {
        self.mutator
    }

    /// The predicate that chooses.
    pub closed spec fn predicate(&self) -> BoxPredicate<T> {
        self.predicate
    }
}

impl<T: 'static> Mutator<T> for BoxConditionalMutator<T> {
    closed spec fn mutate_requires(&self, value: T) -> bool {
        cond_requires(self.predicate, self.mutator, value)
    }

    closed spec fn mutate_ensures(&self, before: T, after: T) -> bool {
        cond_ensures(self.predicate, self.mutator, before, after)
    }


    closed spec fn history(&self) -> Option<Seq<(T, T)>> {
        None
    }
    fn mutate(&mut self, value: &mut T)
        ensures
            cond_call(old(self).predicate(), old(self).mutator(), final(self).mutator(), *old(value), *final(value)),
    {
        if self.predicate.test(value) {
            self.mutator.mutate(value);
        }
    }
}

impl<T> BoxConditionalMutator<T> where T: 'static {
    /// This conditional mutator, then `next` on every value.
    pub fn and_then<C>(self, next: C) -> (res: BoxMutator<T>)
        where C: Mutator<T> + 'static
        ensures
            forall|x: T| #[trigger] res.mutate_requires(x) == seq_requires(self, next, x),
            forall|x: T, z: T| #[trigger] res.mutate_ensures(x, z) == seq_ensures(self, next, x, z),
    {
        BoxMutator { func: Box::new(SeqMutator { first: self, second: next }) }
    }

    /// The conditional mutator where the predicate holds, `else_mutator`
    /// elsewhere.
    pub fn or_else<C>(self, else_mutator: C) -> (res: BoxMutator<T>)
        where C: Mutator<T> + 'static
        ensures
            forall|x: T| #[trigger] res.mutate_requires(x) == branch_requires(self.predicate(), self.mutator(), else_mutator, x),
            forall|x: T, y: T| #[trigger] res.mutate_ensures(x, y) == branch_ensures(self.predicate(), self.mutator(), else_mutator, x, y),
    {
        BoxMutator { func: Box::new(BranchMutator { predicate: self.predicate, then_mutator: self.mutator, else_mutator }) }
    }
}

/// A mutator with shared single-threaded ownership: the mutator sits in a lock, and
/// clones share it and its state.
#[verifier::reject_recursive_types(T)]
pub struct RcMutator<T> {
    func: Rc<RwLock<BoxMutator<T>, spec_fn(BoxMutator<T>) -> bool>>,
    requires_spec: Ghost<spec_fn(T) -> bool>,
    ensures_spec: Ghost<spec_fn(T, T) -> bool>,
}

impl<T: 'static> RcMutator<T> {
    /// The lock holds the invariant this mutator was built with.
    #[verifier::type_invariant]
    closed spec fn wf(&self) -> bool {
        self.func.pred() == |m: BoxMutator<T>| lock_holds(self.requires_spec@, self.ensures_spec@, m)
    }

    /// Locks a mutator away, with exactly its behaviour.
    fn from_mutator<M>(m: M) -> (res: Self)
        where M: Mutator<T> + 'static
        ensures
            same_mutator(res, m),
    {
        let slot = BoxMutator { func: Box::new(m) };
        let ghost req = |x: T| m.mutate_requires(x);
        let ghost ens = |x: T, y: T| m.mutate_ensures(x, y);
        let ghost pred = |s: BoxMutator<T>| lock_holds(req, ens, s);
        let lock = RwLock::new(slot, Ghost(pred));
        RcMutator { func: Rc::new(lock), requires_spec: Ghost(req), ensures_spec: Ghost(ens) }
    }
}

impl<T: 'static> Clone for RcMutator<T> {
    /// Another handle to the same mutator and its state.
    fn clone(&self) -> (res: Self)
        ensures
            res == *self,
    {
        proof {
            use_type_invariant(self);
        }
        RcMutator { func: rc_share(&self.func), requires_spec: self.requires_spec, ensures_spec: self.ensures_spec }
    }
}

impl<T> RcMutator<T> where T: 'static {
    /// Wraps a closure.
    pub fn new<F>(f: F) -> (res: Self)
        where F: FnMut(&mut T) + 'static
        ensures
            forall|x: T| #[trigger] res.mutate_requires(x) == (forall|m: &mut T| mut_ref_current(m) == x ==> #[trigger] f.requires((m,))),
            forall|x: T, y: T| #[trigger] res.mutate_ensures(x, y),
    {
        RcMutator::from_mutator(f)
    }

    /// The mutator that leaves every value as it is.
    pub fn noop() -> (res: Self)
        ensures
            forall|x: T| #[trigger] res.mutate_requires(x),
            forall|x: T, y: T| #[trigger] res.mutate_ensures(x, y) == (y == x),
    {
        RcMutator::from_mutator(NoopMutator)
    }

    /// This mutator, then `next`, on the same value; both stay usable and
    /// share their state.
    pub fn and_then(&self, next: &RcMutator<T>) -> (res: RcMutator<T>)
        ensures
            forall|x: T| #[trigger] res.mutate_requires(x) == seq_requires(*self, *next, x),
            forall|x: T, z: T| #[trigger] res.mutate_ensures(x, z) == seq_ensures(*self, *next, x, z),
    {
        RcMutator::from_mutator(SeqMutator { first: self.clone(), second: next.clone() })
    }

    /// This mutator, applied only where `predicate` holds.
    pub fn when<P>(self, predicate: P) -> (res: RcConditionalMutator<T>)
        where P: Predicate<T> + 'static
        ensures
            res.mutator() == self,
            same_predicate(res.predicate(), predicate),
            forall|x: T| #[trigger] res.mutate_requires(x) == cond_requires(predicate, self, x),
            forall|x: T, y: T| #[trigger] res.mutate_ensures(x, y) == cond_ensures(predicate, self, x, y),
    {
        RcConditionalMutator { mutator: self, predicate: RcPredicate::wrap(predicate) }
    }
}

impl<T: 'static> Mutator<T> for RcMutator<T> {
    closed spec fn mutate_requires(&self, value: T) -> bool {
        (self.requires_spec@)(value)
    }

    closed spec fn mutate_ensures(&self, before: T, after: T) -> bool {
        (self.ensures_spec@)(before, after)
    }


    closed spec fn history(&self) -> Option<Seq<(T, T)>> {
        None
    }
    fn mutate(&mut self, value: &mut T) {
        proof {
            use_type_invariant(&*self);
        }
        let (mut m, handle) = self.func.acquire_write();
        m.mutate(value);
        handle.release_write(m);
    }
}

impl<T: 'static> Clone for RcConditionalMutator<T> {
    /// Another handle to the same mutator and predicate.
    fn clone(&self) -> (res: Self)
        ensures
            res.mutator() == self.mutator(),
            same_predicate(res.predicate(), self.predicate()),
    {
        RcConditionalMutator { mutator: self.mutator.clone(), predicate: self.predicate.clone() }
    }
}

/// An `RcMutator` applied only where a predicate holds; elsewhere values
/// stay as they are.
#[verifier::reject_recursive_types(T)]
pub struct RcConditionalMutator<T> {
    mutator: RcMutator<T>,
    predicate: RcPredicate<T>,
}

impl<T> RcConditionalMutator<T> {
    /// The mutator used where the predicate holds.
    pub closed spec fn mutator(&self) -> RcMutator<T> {
        self.mutator
    }

    /// The predicate that chooses.
    pub closed spec fn predicate(&self) -> RcPredicate<T> {
        self.predicate
    }
}

impl<T: 'static> Mutator<T> for RcConditionalMutator<T> {
    closed spec fn mutate_requires(&self, value: T) -> bool {
        cond_requires(self.predicate, self.mutator, value)
    }

    closed spec fn mutate_ensures(&self, before: T, after: T) -> bool {
        cond_ensures(self.predicate, self.mutator, before, after)
    }


    closed spec fn history(&self) -> Option<Seq<(T, T)>> {
        None
    }
    fn mutate(&mut self, value: &mut T)
        ensures
            cond_call(old(self).predicate(), old(self).mutator(), final(self).mutator(), *old(value), *final(value)),
    {
        if self.predicate.test(value) {
            self.mutator.mutate(value);
        }
    }
}

impl<T> RcConditionalMutator<T> where T: 'static {

    /// The conditional mutator where the predicate holds, `else_mutator`
    /// elsewhere.
    pub fn or_else<C>(self, else_mutator: C) -> (res: RcMutator<T>)
        where C: Mutator<T> + 'static
        ensures
            forall|x: T| #[trigger] res.mutate_requires(x) == branch_requires(self.predicate(), self.mutator(), else_mutator, x),
            forall|x: T, y: T| #[trigger] res.mutate_ensures(x, y) == branch_ensures(self.predicate(), self.mutator(), else_mutator, x, y),
    {
        RcMutator::from_mutator(BranchMutator { predicate: self.predicate, then_mutator: self.mutator, else_mutator })
    }
}

/// A mutator with shared thread-safe ownership: the mutator sits in a lock, and
/// clones share it and its state.
#[verifier::reject_recursive_types(T)]
pub struct ArcMutator<T> {
    func: Arc<RwLock<SyncBoxMutator<T>, spec_fn(SyncBoxMutator<T>) -> bool>>,
    requires_spec: Ghost<spec_fn(T) -> bool>,
    ensures_spec: Ghost<spec_fn(T, T) -> bool>,
}

impl<T: 'static> ArcMutator<T> {
    /// The lock holds the invariant this mutator was built with.
    #[verifier::type_invariant]
    closed spec fn wf(&self) -> bool {
        self.func.pred() == |m: SyncBoxMutator<T>| lock_holds(self.requires_spec@, self.ensures_spec@, m)
    }

    /// Locks a mutator away, with exactly its behaviour.
    fn from_mutator<M>(m: M) -> (res: Self)
        where M: Mutator<T> + Send + Sync + 'static
        ensures
            same_mutator(res, m),
    {
        let slot = SyncBoxMutator { function: Box::new(m) };
        let ghost req = |x: T| m.mutate_requires(x);
        let ghost ens = |x: T, y: T| m.mutate_ensures(x, y);
        let ghost pred = |s: SyncBoxMutator<T>| lock_holds(req, ens, s);
        let lock = RwLock::new(slot, Ghost(pred));
        ArcMutator { func: Arc::new(lock), requires_spec: Ghost(req), ensures_spec: Ghost(ens) }
    }
}

impl<T: 'static> Clone for ArcMutator<T> {
    /// Another handle to the same mutator and its state.
    fn clone(&self) -> (res: Self)
        ensures
            res == *self,
    {
        proof {
            use_type_invariant(self);
        }
        ArcMutator { func: arc_share(&self.func), requires_spec: self.requires_spec, ensures_spec: self.ensures_spec }
    }
}

impl<T> ArcMutator<T> where T: Send + 'static {
    /// Wraps a closure.
    pub fn new<F>(f: F) -> (res: Self)
        where F: FnMut(&mut T) + Send + Sync + 'static
        ensures
            forall|x: T| #[trigger] res.mutate_requires(x) == (forall|m: &mut T| mut_ref_current(m) == x ==> #[trigger] f.requires((m,))),
            forall|x: T, y: T| #[trigger] res.mutate_ensures(x, y),
    {
        ArcMutator::from_mutator(f)
    }

    /// The mutator that leaves every value as it is.
    pub fn noop() -> (res: Self)
        ensures
            forall|x: T| #[trigger] res.mutate_requires(x),
            forall|x: T, y: T| #[trigger] res.mutate_ensures(x, y) == (y == x),
    {
        ArcMutator::from_mutator(NoopMutator)
    }

    /// This mutator, then `next`, on the same value; both stay usable and
    /// share their state.
    pub fn and_then(&self, next: &ArcMutator<T>) -> (res: ArcMutator<T>)
        ensures
            forall|x: T| #[trigger] res.mutate_requires(x) == seq_requires(*self, *next, x),
            forall|x: T, z: T| #[trigger] res.mutate_ensures(x, z) == seq_ensures(*self, *next, x, z),
    {
        ArcMutator::from_mutator(SeqMutator { first: self.clone(), second: next.clone() })
    }

    /// This mutator, applied only where `predicate` holds.
    pub fn when<P>(self, predicate: P) -> (res: ArcConditionalMutator<T>)
        where P: Predicate<T> + Send + Sync + 'static, T: Sync
        ensures
            res.mutator() == self,
            same_predicate(res.predicate(), predicate),
            forall|x: T| #[trigger] res.mutate_requires(x) == cond_requires(predicate, self, x),
            forall|x: T, y: T| #[trigger] res.mutate_ensures(x, y) == cond_ensures(predicate, self, x, y),
    {
        ArcConditionalMutator { mutator: self, predicate: ArcPredicate::wrap(predicate) }
    }
}

impl<T: 'static> Mutator<T> for ArcMutator<T> {
    closed spec fn mutate_requires(&self, value: T) -> bool {
        (self.requires_spec@)(value)
    }

    closed spec fn mutate_ensures(&self, before: T, after: T) -> bool {
        (self.ensures_spec@)(before, after)
    }


    closed spec fn history(&self) -> Option<Seq<(T, T)>> {
        None
    }
    fn mutate(&mut self, value: &mut T) {
        proof {
            use_type_invariant(&*self);
        }
        let (mut m, handle) = self.func.acquire_write();
        m.mutate(value);
        handle.release_write(m);
    }
}

impl<T: 'static> Clone for ArcConditionalMutator<T> {
    /// Another handle to the same mutator and predicate.
    fn clone(&self) -> (res: Self)
        ensures
            res.mutator() == self.mutator(),
            same_predicate(res.predicate(), self.predicate()),
    {
        ArcConditionalMutator { mutator: self.mutator.clone(), predicate: self.predicate.clone() }
    }
}

/// An `ArcMutator` applied only where a predicate holds; elsewhere values
/// stay as they are.
#[verifier::reject_recursive_types(T)]
pub struct ArcConditionalMutator<T> {
    mutator: ArcMutator<T>,
    predicate: ArcPredicate<T>,
}

impl<T> ArcConditionalMutator<T> {
    /// The mutator used where the predicate holds.
    pub closed spec fn mutator(&self) -> ArcMutator<T> {
        self.mutator
    }

    /// The predicate that chooses.
    pub closed spec fn predicate(&self) -> ArcPredicate<T> {
        self.predicate
    }
}

impl<T: 'static> Mutator<T> for ArcConditionalMutator<T> {
    closed spec fn mutate_requires(&self, value: T) -> bool {
        cond_requires(self.predicate, self.mutator, value)
    }

    closed spec fn mutate_ensures(&self, before: T, after: T) -> bool {
        cond_ensures(self.predicate, self.mutator, before, after)
    }


    closed spec fn history(&self) -> Option<Seq<(T, T)>> {
        None
    }
    fn mutate(&mut self, value: &mut T)
        ensures
            cond_call(old(self).predicate(), old(self).mutator(), final(self).mutator(), *old(value), *final(value)),
    {
        if self.predicate.test(value) {
            self.mutator.mutate(value);
        }
    }
}

impl<T> ArcConditionalMutator<T> where T: Send + 'static {

    /// The conditional mutator where the predicate holds, `else_mutator`
    /// elsewhere.
    pub fn or_else<C>(self, else_mutator: C) -> (res: ArcMutator<T>)
        where C: Mutator<T> + Send + Sync + 'static, T: Sync
        ensures
            forall|x: T| #[trigger] res.mutate_requires(x) == branch_requires(self.predicate(), self.mutator(), else_mutator, x),
            forall|x: T, y: T| #[trigger] res.mutate_ensures(x, y) == branch_ensures(self.predicate(), self.mutator(), else_mutator, x, y),
    {
        ArcMutator::from_mutator(BranchMutator { predicate: self.predicate, then_mutator: self.mutator, else_mutator })
    }
}

/// Conversions of a mutator into the three ownership flavours, keeping its
/// behaviour.
pub trait IntoMutator<T>: Mutator<T> + Sized + 'static {
    /// Converts into a `BoxMutator`.
    fn into_box(self) -> (res: BoxMutator<T>)
        where T: 'static
        ensures
            same_mutator(res, self),
    ;

    /// Converts into an `RcMutator`.
    fn into_rc(self) -> (res: RcMutator<T>)
        where T: 'static
        ensures
            same_mutator(res, self),
    ;

    /// Converts into an `ArcMutator`.
    fn into_arc(self) -> (res: ArcMutator<T>)
        where Self: Send + Sync, T: Send + 'static
        ensures
            same_mutator(res, self),
    ;
}

/// Any mutator of this module, or any closure, converts by being wrapped.
impl<T: 'static, M> IntoMutator<T> for M where M: Mutator<T> + 'static {
    fn into_box(self) -> (res: BoxMutator<T>)
        where T: 'static
    {
        BoxMutator { func: Box::new(self) }
    }

    fn into_rc(self) -> (res: RcMutator<T>)
        where T: 'static
    {
        RcMutator::from_mutator(self)
    }

    fn into_arc(self) -> (res: ArcMutator<T>)
        where Self: Send + Sync, T: Send + 'static
    {
        ArcMutator::from_mutator(self)
    }
}

/// Chaining on closures, producing `BoxMutator`s.
pub trait FnMutatorOps<T>: Mutator<T> + Sized + 'static {
    /// This closure, then `next`, on the same value.
    fn and_then<C>(self, next: C) -> (res: BoxMutator<T>)
        where C: Mutator<T> + 'static, T: 'static
        ensures
            forall|x: T| #[trigger] res.mutate_requires(x) == seq_requires(self, next, x),
            forall|x: T, z: T| #[trigger] res.mutate_ensures(x, z) == seq_ensures(self, next, x, z),
    ;
}

impl<T, F> FnMutatorOps<T> for F where F: FnMut(&mut T) + 'static {
    fn and_then<C>(self, next: C) -> (res: BoxMutator<T>)
        where C: Mutator<T> + 'static, T: 'static
    {
        BoxMutator { func: Box::new(SeqMutator { first: self, second: next }) }
    }
}

} // verus!
