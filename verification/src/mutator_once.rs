//! One-shot mutators: operations `FnOnce(&mut T)` that change a value in
//! place and are used up by their single call, boxed, with chaining.
//!
//! A one-shot mutator's behaviour is modelled as a relation:
//! `once_requires(v)` says on which values it may be called, and
//! `once_ensures(v, w)` which new values it may leave. For a closure the
//! relation holds its precondition only; what it does to the value is stated
//! by each direct call of `mutate` on it, not by the relation.
use vstd::prelude::*;

verus! {

/// An operation that changes a value of type `T` in place, once.
pub trait MutatorOnce<T> {
    /// Values the mutator may be called on.
    spec fn once_requires(&self, value: T) -> bool;

    /// New values the mutator may leave in place of `before`.
    spec fn once_ensures(&self, before: T, after: T) -> bool;

    /// Changes `value` in place, using the mutator up.
    fn mutate(self, value: &mut T)
        where Self: Sized
        requires
            self.once_requires(*old(value)),
        ensures
            self.once_ensures(*old(value), *final(value)),
    ;

    /// Changes `value` in place, using up the boxed mutator.
    fn mutate_boxed(self: Box<Self>, value: &mut T)
        requires
            self.once_requires(*old(value)),
        ensures
            self.once_ensures(*old(value), *final(value)),
    ;
}

/// Two one-shot mutators may be called on the same values and may leave the
/// same new values.
pub open spec fn same_mutator_once<T, A: MutatorOnce<T>, B: MutatorOnce<T>>(a: A, b: B) -> bool {
    &&& forall|x: T| #[trigger] a.once_requires(x) == b.once_requires(x)
    &&& forall|x: T, y: T| #[trigger] a.once_ensures(x, y) == b.once_ensures(x, y)
}

/// When `a` then `b` may be called on `x`.
pub open spec fn seq_requires<T, A: MutatorOnce<T>, B: MutatorOnce<T>>(a: A, b: B, x: T) -> bool {
    &&& a.once_requires(x)
    &&& forall|y: T| #[trigger] a.once_ensures(x, y) ==> b.once_requires(y)
}

/// New values of `a` then `b`.
pub open spec fn seq_ensures<T, A: MutatorOnce<T>, B: MutatorOnce<T>>(a: A, b: B, x: T, z: T) -> bool {
    exists|y: T| #[trigger] a.once_ensures(x, y) && b.once_ensures(y, z)
}

/// `s` behaves as `a` then `b`, as `a.and_then(b)` does.
pub open spec fn is_sequence<T, S: MutatorOnce<T>, A: MutatorOnce<T>, B: MutatorOnce<T>>(s: S, a: A, b: B) -> bool {
    &&& forall|x: T| #[trigger] s.once_requires(x) == seq_requires(a, b, x)
    &&& forall|x: T, z: T| #[trigger] s.once_ensures(x, z) == seq_ensures(a, b, x, z)
}

/// `m` may be called on every value and leaves it as it is, as `noop()`
/// does.
pub open spec fn is_noop<T, M: MutatorOnce<T>>(m: M) -> bool {
    &&& forall|x: T| #[trigger] m.once_requires(x)
    &&& forall|x: T, y: T| #[trigger] m.once_ensures(x, y) == (y == x)
}

/// The no-op is a left unit of chaining: `noop().and_then(m)` behaves as
/// `m`.
pub proof fn law_noop_then<T, N: MutatorOnce<T>, M: MutatorOnce<T>, S: MutatorOnce<T>>(n: N, m: M, s: S)
    requires
        is_noop(n),
        is_sequence(s, n, m),
    ensures
        same_mutator_once(s, m),
{
    assert forall|x: T| #[trigger] s.once_requires(x) == m.once_requires(x) by {
        assert(n.once_ensures(x, x));
    }
    assert forall|x: T, z: T| #[trigger] s.once_ensures(x, z) == m.once_ensures(x, z) by {
        if m.once_ensures(x, z) {
            assert(n.once_ensures(x, x));
        }
    }
}

/// The no-op is a right unit of chaining: `m.and_then(noop())` behaves as
/// `m`.
pub proof fn law_then_noop<T, M: MutatorOnce<T>, N: MutatorOnce<T>, S: MutatorOnce<T>>(m: M, n: N, s: S)
    requires
        is_noop(n),
        is_sequence(s, m, n),
    ensures
        same_mutator_once(s, m),
{
    assert forall|x: T, z: T| #[trigger] s.once_ensures(x, z) == m.once_ensures(x, z) by {
        if m.once_ensures(x, z) {
            assert(n.once_ensures(z, z));
        }
    }
}

/// Chaining is associative: `(a then b) then c` behaves as
/// `a then (b then c)`.
pub proof fn law_sequence_associative<T, A: MutatorOnce<T>, B: MutatorOnce<T>, C: MutatorOnce<T>, AB: MutatorOnce<T>, LeftNested: MutatorOnce<T>, BC: MutatorOnce<T>, RightNested: MutatorOnce<T>>(
    a: A,
    b: B,
    c: C,
    ab: AB,
    ab_c: LeftNested,
    bc: BC,
    a_bc: RightNested,
)
    requires
        is_sequence(ab, a, b),
        is_sequence(ab_c, ab, c),
        is_sequence(bc, b, c),
        is_sequence(a_bc, a, bc),
    ensures
        same_mutator_once(ab_c, a_bc),
{
    assert forall|x: T| #[trigger] ab_c.once_requires(x) == a_bc.once_requires(x) by {
        if ab_c.once_requires(x) {
            assert forall|y: T| #[trigger] a.once_ensures(x, y) implies bc.once_requires(y) by {
                assert forall|z: T| #[trigger] b.once_ensures(y, z) implies c.once_requires(z) by {
                    assert(ab.once_ensures(x, z));
                }
            }
        }
        if a_bc.once_requires(x) {
            assert forall|z: T| #[trigger] ab.once_ensures(x, z) implies c.once_requires(z) by {
                let y = choose|y: T| #[trigger] a.once_ensures(x, y) && b.once_ensures(y, z);
                assert(bc.once_requires(y));
            }
        }
    }
    assert forall|x: T, w: T| #[trigger] ab_c.once_ensures(x, w) == a_bc.once_ensures(x, w) by {
        if ab_c.once_ensures(x, w) {
            let z = choose|z: T| #[trigger] ab.once_ensures(x, z) && c.once_ensures(z, w);
            let y = choose|y: T| #[trigger] a.once_ensures(x, y) && b.once_ensures(y, z);
            assert(bc.once_ensures(y, w));
        }
        if a_bc.once_ensures(x, w) {
            let y = choose|y: T| #[trigger] a.once_ensures(x, y) && bc.once_ensures(y, w);
            let z = choose|z: T| #[trigger] b.once_ensures(y, z) && c.once_ensures(z, w);
            assert(ab.once_ensures(x, z));
        }
    }
}

/// The one-shot mutator that leaves the value as it is.
struct NoopOnce;

impl<T> MutatorOnce<T> for NoopOnce {
    closed spec fn once_requires(&self, value: T) -> bool {
        true
    }

    closed spec fn once_ensures(&self, before: T, after: T) -> bool {
        after == before
    }

    fn mutate(self, value: &mut T) {
    }

    fn mutate_boxed(self: Box<Self>, value: &mut T) {
    }
}

/// Two one-shot mutators run in turn on the same value.
struct SeqOnce<A, B> {
    first: A,
    second: B,
}

impl<T, A: MutatorOnce<T>, B: MutatorOnce<T>> MutatorOnce<T> for SeqOnce<A, B> {
    closed spec fn once_requires(&self, value: T) -> bool {
        seq_requires(self.first, self.second, value)
    }

    closed spec fn once_ensures(&self, before: T, after: T) -> bool {
        seq_ensures(self.first, self.second, before, after)
    }

    fn mutate(self, value: &mut T) {
        self.first.mutate(value);
        self.second.mutate(value);
    }

    fn mutate_boxed(self: Box<Self>, value: &mut T) {
        let me = *self;
        me.first.mutate(value);
        me.second.mutate(value);
    }
}

/// A closure's behaviour as an one-shot mutator is its own precondition and
/// postcondition. Call this where a concrete closure is used, so that its
/// relation unfolds.
pub proof fn lemma_closure_mutator_once<T, F: FnOnce(&mut T)>(f: F)
    ensures
        forall|x: T| #[trigger] f.once_requires(x) == (forall|m: &mut T| mut_ref_current(m) == x ==> #[trigger] f.requires((m,))),
        forall|x: T, y: T| #[trigger] f.once_ensures(x, y),
{
}

/// Every closure `FnOnce(&mut T)` is a one-shot mutator with the closure's
/// own precondition. The relation does not say what the closure does to the
/// value (that would need the value's final state inside a spec function);
/// each call states it: the old and new value are related by the closure's
/// own postcondition.
impl<T, F> MutatorOnce<T> for F where F: FnOnce(&mut T) {
    open spec fn once_requires(&self, value: T) -> bool {
        forall|m: &mut T| mut_ref_current(m) == value ==> #[trigger] self.requires((m,))
    }

    open spec fn once_ensures(&self, before: T, after: T) -> bool {
        true
    }

    fn mutate(self, value: &mut T)
        ensures
            exists|m: &mut T| mut_ref_current(m) == *old(value) && mut_ref_future(m) == *final(value) && #[trigger] self.ensures((m,), ()),
    {
        self(value)
    }

    fn mutate_boxed(self: Box<Self>, value: &mut T)
        ensures
            exists|m: &mut T| mut_ref_current(m) == *old(value) && mut_ref_future(m) == *final(value) && #[trigger] (*self).ensures((m,), ()),
    {
        (*self)(value)
    }
}

/// A boxed one-shot mutator.
#[verifier::reject_recursive_types(T)]
pub struct BoxMutatorOnce<T> {
    func: Box<dyn MutatorOnce<T>>,
}

impl<T: 'static> BoxMutatorOnce<T> {
    /// Wraps a closure.
    pub fn new<F>(f: F) -> (res: Self)
        where F: FnOnce(&mut T) + 'static
        ensures
            forall|x: T| #[trigger] res.once_requires(x) == (forall|m: &mut T| mut_ref_current(m) == x ==> #[trigger] f.requires((m,))),
            forall|x: T, y: T| #[trigger] res.once_ensures(x, y),
    {
        BoxMutatorOnce { func: Box::new(f) }
    }

    /// The one-shot mutator that leaves the value as it is.
    pub fn noop() -> (res: Self)
        ensures
            forall|x: T| #[trigger] res.once_requires(x),
            forall|x: T, y: T| #[trigger] res.once_ensures(x, y) == (y == x),
    {
        BoxMutatorOnce { func: Box::new(NoopOnce) }
    }

    /// This mutator, then `next`, on the same value.
    pub fn and_then<C>(self, next: C) -> (res: Self)
        where C: MutatorOnce<T> + 'static
        ensures
            forall|x: T| #[trigger] res.once_requires(x) == seq_requires(self, next, x),
            forall|x: T, z: T| #[trigger] res.once_ensures(x, z) == seq_ensures(self, next, x, z),
    {
        BoxMutatorOnce { func: Box::new(SeqOnce { first: self, second: next }) }
    }
}

impl<T: 'static> MutatorOnce<T> for BoxMutatorOnce<T> {
    closed spec fn once_requires(&self, value: T) -> bool {
        self.func.once_requires(value)
    }

    closed spec fn once_ensures(&self, before: T, after: T) -> bool {
        self.func.once_ensures(before, after)
    }

    fn mutate(self, value: &mut T) {
        self.func.mutate_boxed(value)
    }

    fn mutate_boxed(self: Box<Self>, value: &mut T) {
        let me = *self;
        me.func.mutate_boxed(value)
    }
}

/// Conversion of a one-shot mutator into a `BoxMutatorOnce`.
pub trait IntoMutatorOnce<T>: MutatorOnce<T> + Sized + 'static {
    /// Boxes the mutator, keeping its behaviour.
    fn into_box(self) -> (res: BoxMutatorOnce<T>)
        where T: 'static
        ensures
            same_mutator_once(res, self),
    ;
}

impl<T: 'static, M> IntoMutatorOnce<T> for M where M: MutatorOnce<T> + 'static {
    fn into_box(self) -> (res: BoxMutatorOnce<T>)
        where T: 'static
    {
        BoxMutatorOnce { func: Box::new(self) }
    }
}

/// Chaining on closures, producing `BoxMutatorOnce`s.
pub trait FnMutatorOnceOps<T>: MutatorOnce<T> + Sized + 'static {
    /// This closure, then `next`, on the same value.
    fn and_then<C>(self, next: C) -> (res: BoxMutatorOnce<T>)
        where C: MutatorOnce<T> + 'static, T: 'static
        ensures
            forall|x: T| #[trigger] res.once_requires(x) == seq_requires(self, next, x),
            forall|x: T, z: T| #[trigger] res.once_ensures(x, z) == seq_ensures(self, next, x, z),
    ;
}

impl<T, F> FnMutatorOnceOps<T> for F where F: FnOnce(&mut T) + 'static {
    fn and_then<C>(self, next: C) -> (res: BoxMutatorOnce<T>)
        where C: MutatorOnce<T> + 'static, T: 'static
    {
        BoxMutatorOnce { func: Box::new(SeqOnce { first: self, second: next }) }
    }
}

} // verus!
