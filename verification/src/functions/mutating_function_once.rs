//! One-shot mutating functions: closures `FnOnce(&mut T) -> R` that may
//! change their input in place and return a result, used up by their single
//! call; boxed, with chaining and result mapping.
//!
//! The behaviour is modelled as a relation: `once_requires(v)` says on which
//! values the function may be called, and `once_ensures(v, w, r)` which new
//! value `w` it may leave and which result `r` it may give. For a closure
//! the relation holds its precondition and the results its postcondition
//! allows; what it leaves in the input is not stated.
use vstd::prelude::*;
use vstd::std_specs::convert::FromSpec;
use crate::mapper_once::MapperOnce;

verus! {

/// A function that may change its input in place and returns a result, once.
pub trait MutatingFunctionOnce<T, R> {
    /// Values the function may be called on.
    spec fn once_requires(&self, input: T) -> bool;

    /// New values and results the function may give for `before`.
    spec fn once_ensures(&self, before: T, after: T, output: R) -> bool;

    /// Applies the function to `input`, using it up.
    fn apply_once(self, input: &mut T) -> (output: R)
        where Self: Sized
        requires
            self.once_requires(*old(input)),
        ensures
            self.once_ensures(*old(input), *final(input), output),
    ;

    /// Applies the boxed function to `input`, using it up.
    fn apply_once_boxed(self: Box<Self>, input: &mut T) -> (output: R)
        requires
            self.once_requires(*old(input)),
        ensures
            self.once_ensures(*old(input), *final(input), output),
    ;
}

/// Two one-shot mutating functions may be called on the same values and may
/// give the same new values and results.
pub open spec fn same_mutating_function_once<T, R, A: MutatingFunctionOnce<T, R>, B: MutatingFunctionOnce<T, R>>(a: A, b: B) -> bool {
    &&& forall|x: T| #[trigger] a.once_requires(x) == b.once_requires(x)
    &&& forall|x: T, y: T, r: R| #[trigger] a.once_ensures(x, y, r) == b.once_ensures(x, y, r)
}

/// Results of converting a clone of `x` with `R::from`.
pub open spec fn from_clone_ensures<T: Clone, R: From<T>>(x: T, r: R) -> bool {
    exists|c: T| #[trigger] cloned(x, c) && (<R as FromSpec<T>>::obeys_from_spec() ==> r == <R as FromSpec<T>>::from_spec(c))
}

/// When `a` then `b` may be called on `x`.
pub open spec fn seq_requires<T, R, S, A: MutatingFunctionOnce<T, R>, B: MutatingFunctionOnce<T, S>>(a: A, b: B, x: T) -> bool {
    &&& a.once_requires(x)
    &&& forall|y: T, r: R| #[trigger] a.once_ensures(x, y, r) ==> b.once_requires(y)
}

/// New values and results of `a` then `b`: the result of `b`.
pub open spec fn seq_ensures<T, R, S, A: MutatingFunctionOnce<T, R>, B: MutatingFunctionOnce<T, S>>(a: A, b: B, x: T, z: T, s: S) -> bool {
    exists|y: T, r: R| #[trigger] a.once_ensures(x, y, r) && b.once_ensures(y, z, s)
}

/// When `a` with its result passed through `m` may be called on `x`.
pub open spec fn map_requires<T, R, S, A: MutatingFunctionOnce<T, R>, M: MapperOnce<R, S>>(a: A, m: M, x: T) -> bool {
    &&& a.once_requires(x)
    &&& forall|y: T, r: R| #[trigger] a.once_ensures(x, y, r) ==> m.once_requires(r)
}

/// New values and results of `a` with its result passed through `m`.
pub open spec fn map_ensures<T, R, S, A: MutatingFunctionOnce<T, R>, M: MapperOnce<R, S>>(a: A, m: M, x: T, y: T, s: S) -> bool {
    exists|r: R| #[trigger] a.once_ensures(x, y, r) && m.once_ensures(r, s)
}

/// `s` behaves as `a` then `b`, as `a.and_then(b)` does.
pub open spec fn is_sequence<T, R, S, Q: MutatingFunctionOnce<T, S>, A: MutatingFunctionOnce<T, R>, B: MutatingFunctionOnce<T, S>>(q: Q, a: A, b: B) -> bool {
    &&& forall|x: T| #[trigger] q.once_requires(x) == seq_requires(a, b, x)
    &&& forall|x: T, z: T, s: S| #[trigger] q.once_ensures(x, z, s) == seq_ensures(a, b, x, z, s)
}

/// Chaining is associative: `(a then b) then c` behaves as
/// `a then (b then c)`.
pub proof fn law_sequence_associative<T, R, S, U, A: MutatingFunctionOnce<T, R>, B: MutatingFunctionOnce<T, S>, C: MutatingFunctionOnce<T, U>, AB: MutatingFunctionOnce<T, S>, LeftNested: MutatingFunctionOnce<T, U>, BC: MutatingFunctionOnce<T, U>, RightNested: MutatingFunctionOnce<T, U>>(
    a: A,
    b: B,
    c: C,
    ab: AB,
    ab_c: LeftNested,
    bc: BC,
    a_bc: RightNested,
)
    requires
        is_sequence(ab, a, b),
        is_sequence(ab_c, ab, c),
        is_sequence(bc, b, c),
        is_sequence(a_bc, a, bc),
    ensures
        same_mutating_function_once(ab_c, a_bc),
{
    assert forall|x: T| #[trigger] ab_c.once_requires(x) == a_bc.once_requires(x) by {
        if ab_c.once_requires(x) {
            assert forall|y: T, r: R| #[trigger] a.once_ensures(x, y, r) implies bc.once_requires(y) by {
                assert forall|z: T, s: S| #[trigger] b.once_ensures(y, z, s) implies c.once_requires(z) by {
                    assert(ab.once_ensures(x, z, s));
                }
            }
        }
        if a_bc.once_requires(x) {
            assert forall|z: T, s: S| #[trigger] ab.once_ensures(x, z, s) implies c.once_requires(z) by {
                let (y, r) = choose|y: T, r: R| #[trigger] a.once_ensures(x, y, r) && b.once_ensures(y, z, s);
                assert(bc.once_requires(y));
            }
        }
    }
    assert forall|x: T, w: T, u: U| #[trigger] ab_c.once_ensures(x, w, u) == a_bc.once_ensures(x, w, u) by {
        if ab_c.once_ensures(x, w, u) {
            let (z, s) = choose|z: T, s: S| #[trigger] ab.once_ensures(x, z, s) && c.once_ensures(z, w, u);
            let (y, r) = choose|y: T, r: R| #[trigger] a.once_ensures(x, y, r) && b.once_ensures(y, z, s);
            assert(bc.once_ensures(y, w, u));
        }
        if a_bc.once_ensures(x, w, u) {
            let (y, r) = choose|y: T, r: R| #[trigger] a.once_ensures(x, y, r) && bc.once_ensures(y, w, u);
            let (z, s) = choose|z: T, s: S| #[trigger] b.once_ensures(y, z, s) && c.once_ensures(z, w, u);
            assert(ab.once_ensures(x, z, s));
        }
    }
}

/// Where clones are exact and `R::from` follows its specification, the
/// identity leaves the value as it is and returns `R::from` of it.
pub proof fn law_identity_returns_from<T: Clone, R: From<T>, I: MutatingFunctionOnce<T, R>>(i: I, x: T, y: T, r: R)
    requires
        forall|a: T, b: T| #[trigger] cloned(a, b) ==> b == a,
        <R as FromSpec<T>>::obeys_from_spec(),
        forall|a: T, b: T, o: R| #[trigger] i.once_ensures(a, b, o) == (b == a && from_clone_ensures(a, o)),
        i.once_ensures(x, y, r),
    ensures
        y == x,
        r == <R as FromSpec<T>>::from_spec(x),
{
    let c = choose|c: T| #[trigger] cloned(x, c) && (<R as FromSpec<T>>::obeys_from_spec() ==> r == <R as FromSpec<T>>::from_spec(c));
    assert(c == x);
}

/// Converts a clone of the input with `R::from`, leaving the input as it is.
struct IdentityOnce;

impl<T: Clone, R: From<T>> MutatingFunctionOnce<T, R> for IdentityOnce {
    closed spec fn once_requires(&self, input: T) -> bool {
        true
    }

    closed spec fn once_ensures(&self, before: T, after: T, output: R) -> bool {
        after == before && from_clone_ensures(before, output)
    }

    fn apply_once(self, input: &mut T) -> (output: R) {
        let c = input.clone();
        let r = R::from(c);
        proof {
            assert(cloned(*input, c));
        }
        r
    }

    fn apply_once_boxed(self: Box<Self>, input: &mut T) -> (output: R) {
        let c = input.clone();
        let r = R::from(c);
        proof {
            assert(cloned(*input, c));
        }
        r
    }
}

/// Two one-shot mutating functions run in turn on the same value; the result
/// is the second one's.
struct SeqOnce<R, A, B> {
    first: A,
    second: B,
    dropped: Ghost<Option<R>>,
}

impl<T, R, S, A: MutatingFunctionOnce<T, R>, B: MutatingFunctionOnce<T, S>> MutatingFunctionOnce<T, S> for SeqOnce<R, A, B> {
    closed spec fn once_requires(&self, input: T) -> bool {
        seq_requires(self.first, self.second, input)
    }

    closed spec fn once_ensures(&self, before: T, after: T, output: S) -> bool {
        seq_ensures(self.first, self.second, before, after, output)
    }

    fn apply_once(self, input: &mut T) -> (output: S) {
        let ghost x = *input;
        let r = self.first.apply_once(input);
        let ghost y = *input;
        let s = self.second.apply_once(input);
        proof {
            assert(self.first.once_ensures(x, y, r));
        }
        s
    }

    fn apply_once_boxed(self: Box<Self>, input: &mut T) -> (output: S) {
        let me = *self;
        let ghost x = *input;
        let r = me.first.apply_once(input);
        let ghost y = *input;
        let s = me.second.apply_once(input);
        proof {
            assert(me.first.once_ensures(x, y, r));
        }
        s
    }
}

/// A one-shot mutating function whose result is passed through a one-shot
/// mapper.
struct MappedOnce<R, A, M> {
    function: A,
    mapper: M,
    middle: Ghost<Option<R>>,
}

impl<T, R, S, A: MutatingFunctionOnce<T, R>, M: MapperOnce<R, S>> MutatingFunctionOnce<T, S> for MappedOnce<R, A, M> {
    closed spec fn once_requires(&self, input: T) -> bool {
        map_requires(self.function, self.mapper, input)
    }

    closed spec fn once_ensures(&self, before: T, after: T, output: S) -> bool {
        map_ensures(self.function, self.mapper, before, after, output)
    }

    fn apply_once(self, input: &mut T) -> (output: S) {
        let r = self.function.apply_once(input);
        self.mapper.apply_once(r)
    }

    fn apply_once_boxed(self: Box<Self>, input: &mut T) -> (output: S) {
        let me = *self;
        let r = me.function.apply_once(input);
        me.mapper.apply_once(r)
    }
}

/// A closure's behaviour as an one-shot mutating function is its own precondition and
/// postcondition. Call this where a concrete closure is used, so that its
/// relation unfolds.
pub proof fn lemma_closure_mutating_function_once<T, R, F: FnOnce(&mut T) -> R>(f: F)
    ensures
        forall|x: T| #[trigger] <F as MutatingFunctionOnce<T, R>>::once_requires(&f, x) == (forall|m: &mut T| mut_ref_current(m) == x ==> #[trigger] f.requires((m,))),
        forall|x: T, y: T, r: R| #[trigger] <F as MutatingFunctionOnce<T, R>>::once_ensures(&f, x, y, r) == (exists|m: &mut T| mut_ref_current(m) == x && #[trigger] f.ensures((m,), r)),
{
}

/// Every closure `FnOnce(&mut T) -> R` is a one-shot mutating function with
/// the closure's own precondition. Its results are those the closure's
/// postcondition allows for the old input; what it leaves in the input is
/// not in the relation (that would need the input's final state inside a
/// spec function).
impl<T, R, F> MutatingFunctionOnce<T, R> for F where F: FnOnce(&mut T) -> R {
    open spec fn once_requires(&self, input: T) -> bool {
        forall|m: &mut T| mut_ref_current(m) == input ==> #[trigger] self.requires((m,))
    }

    open spec fn once_ensures(&self, before: T, after: T, output: R) -> bool {
        exists|m: &mut T| mut_ref_current(m) == before && #[trigger] self.ensures((m,), output)
    }

    fn apply_once(self, input: &mut T) -> (output: R) {
        self(input)
    }

    fn apply_once_boxed(self: Box<Self>, input: &mut T) -> (output: R) {
        (*self)(input)
    }
}

/// A boxed one-shot mutating function.
#[verifier::reject_recursive_types(T)]
#[verifier::reject_recursive_types(R)]
pub struct BoxMutatingFunctionOnce<T, R> {
    function: Box<dyn MutatingFunctionOnce<T, R>>,
}

impl<T, R> BoxMutatingFunctionOnce<T, R> where T: 'static, R: 'static {
    /// Wraps a closure.
    pub fn new<F>(f: F) -> (res: Self)
        where F: FnOnce(&mut T) -> R + 'static
        ensures
            forall|x: T| #[trigger] res.once_requires(x) == (forall|m: &mut T| mut_ref_current(m) == x ==> #[trigger] f.requires((m,))),
            forall|x: T, y: T, r: R| #[trigger] res.once_ensures(x, y, r) == (exists|m: &mut T| mut_ref_current(m) == x && #[trigger] f.ensures((m,), r)),
    {
        BoxMutatingFunctionOnce { function: Box::new(f) }
    }

    /// The function that leaves its input as it is and returns `R::from` of a
    /// clone of it.
    pub fn identity() -> (res: Self)
        where T: Clone, R: From<T>
        ensures
            forall|x: T| #[trigger] res.once_requires(x),
            forall|x: T, y: T, r: R| #[trigger] res.once_ensures(x, y, r) == (y == x && from_clone_ensures(x, r)),
    {
        BoxMutatingFunctionOnce { function: Box::new(IdentityOnce) }
    }

    /// This function, then `next` on the same value; the result is `next`'s.
    pub fn and_then<F, R2>(self, next: F) -> (res: BoxMutatingFunctionOnce<T, R2>)
        where F: MutatingFunctionOnce<T, R2> + 'static, R2: 'static
        ensures
            forall|x: T| #[trigger] res.once_requires(x) == seq_requires(self, next, x),
            forall|x: T, z: T, s: R2| #[trigger] res.once_ensures(x, z, s) == seq_ensures(self, next, x, z, s),
    {
        BoxMutatingFunctionOnce { function: Box::new(SeqOnce { first: self, second: next, dropped: Ghost(None) }) }
    }

    /// This function with its result passed through `mapper`.
    pub fn map<F, R2>(self, mapper: F) -> (res: BoxMutatingFunctionOnce<T, R2>)
        where F: FnOnce(R) -> R2 + 'static, R2: 'static
        ensures
            forall|x: T| #[trigger] res.once_requires(x) == map_requires(self, mapper, x),
            forall|x: T, y: T, s: R2| #[trigger] res.once_ensures(x, y, s) == map_ensures(self, mapper, x, y, s),
    {
        BoxMutatingFunctionOnce { function: Box::new(MappedOnce { function: self, mapper, middle: Ghost(None) }) }
    }
}

impl<T, R> MutatingFunctionOnce<T, R> for BoxMutatingFunctionOnce<T, R> where T: 'static, R: 'static {
    closed spec fn once_requires(&self, input: T) -> bool {
        self.function.once_requires(input)
    }

    closed spec fn once_ensures(&self, before: T, after: T, output: R) -> bool {
        self.function.once_ensures(before, after, output)
    }

    fn apply_once(self, input: &mut T) -> (output: R) {
        self.function.apply_once_boxed(input)
    }

    fn apply_once_boxed(self: Box<Self>, input: &mut T) -> (output: R) {
        let me = *self;
        me.function.apply_once_boxed(input)
    }
}

/// Conversion of a one-shot mutating function into a
/// `BoxMutatingFunctionOnce`.
pub trait IntoMutatingFunctionOnce<T, R>: MutatingFunctionOnce<T, R> + Sized + 'static {
    /// Boxes the function, keeping its behaviour.
    fn into_box_once(self) -> (res: BoxMutatingFunctionOnce<T, R>)
        where T: 'static, R: 'static
        ensures
            same_mutating_function_once(res, self),
    ;

    /// Boxes a clone of the function, keeping its behaviour; this one stays
    /// usable.
    fn to_box_once(&self) -> (res: BoxMutatingFunctionOnce<T, R>)
        where Self: Clone, T: 'static, R: 'static
        ensures
            exists|c: Self| #[trigger] cloned(*self, c) && same_mutating_function_once(res, c),
    ;
}

impl<T: 'static, R: 'static, M> IntoMutatingFunctionOnce<T, R> for M where M: MutatingFunctionOnce<T, R> + 'static {
    fn into_box_once(self) -> (res: BoxMutatingFunctionOnce<T, R>)
        where T: 'static, R: 'static
    {
        BoxMutatingFunctionOnce { function: Box::new(self) }
    }

    fn to_box_once(&self) -> (res: BoxMutatingFunctionOnce<T, R>)
        where Self: Clone, T: 'static, R: 'static
    {
        let c = self.clone();
        proof {
            assert(cloned(*self, c));
        }
        c.into_box_once()
    }
}

/// Chaining and result mapping on closures, producing
/// `BoxMutatingFunctionOnce`s.
pub trait FnOnceMutatingFunctionOps<T, R>: MutatingFunctionOnce<T, R> + Sized + 'static {
    /// This closure, then `next` on the same value; the result is `next`'s.
    fn and_then<F, R2>(self, next: F) -> (res: BoxMutatingFunctionOnce<T, R2>)
        where F: MutatingFunctionOnce<T, R2> + 'static, T: 'static, R: 'static, R2: 'static
        ensures
            forall|x: T| #[trigger] res.once_requires(x) == seq_requires(self, next, x),
            forall|x: T, z: T, s: R2| #[trigger] res.once_ensures(x, z, s) == seq_ensures(self, next, x, z, s),
    ;

    /// This closure with its result passed through `mapper`.
    fn map<F, R2>(self, mapper: F) -> (res: BoxMutatingFunctionOnce<T, R2>)
        where F: FnOnce(R) -> R2 + 'static, T: 'static, R: 'static, R2: 'static
        ensures
            forall|x: T| #[trigger] res.once_requires(x) == map_requires(self, mapper, x),
            forall|x: T, y: T, s: R2| #[trigger] res.once_ensures(x, y, s) == map_ensures(self, mapper, x, y, s),
    ;
}

impl<T, R, C> FnOnceMutatingFunctionOps<T, R> for C where C: FnOnce(&mut T) -> R + 'static {
    fn and_then<F, R2>(self, next: F) -> (res: BoxMutatingFunctionOnce<T, R2>)
        where F: MutatingFunctionOnce<T, R2> + 'static, T: 'static, R: 'static, R2: 'static
    {
        BoxMutatingFunctionOnce { function: Box::new(SeqOnce { first: self, second: next, dropped: Ghost(None) }) }
    }

    fn map<F, R2>(self, mapper: F) -> (res: BoxMutatingFunctionOnce<T, R2>)
        where F: FnOnce(R) -> R2 + 'static, T: 'static, R: 'static, R2: 'static
    {
        BoxMutatingFunctionOnce { function: Box::new(MappedOnce { function: self, mapper, middle: Ghost(None) }) }
    }
}

} // verus!
