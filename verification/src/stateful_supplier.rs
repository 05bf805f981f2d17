//! Stateful suppliers: producers `FnMut() -> T`, in three ownership
//! flavours, with `map`, `filter`, `zip` and `memoized`.
//!
//! A supplier's behaviour is modelled as a relation that holds on every call,
//! whatever state the supplier has reached: `get_requires()` says whether it
//! may be called, `get_ensures(v)` which values it may produce. A call may
//! narrow the values, never widen them; a supplier that `keeps_first` gives,
//! after any call, only values `alike` that call's value, which is how
//! `memoized` states its cache. The shared flavours keep the supplier in a lock,
//! so clones share its state.
use vstd::prelude::*;
use vstd::rwlock::RwLock;
use std::rc::Rc;
use std::sync::Arc;
use crate::mapper::{Mapper, is_identity, is_chain};
use crate::stateful_function::{StatefulFunction, one_call};
use crate::shared::{rc_share, arc_share, record};
use crate::supplier_once::SupplierOnce;

verus! {

/// A producer of values of type `T` that may keep state.
pub trait StatefulSupplier<T> {
    /// Whether the supplier may be called.
    spec fn get_requires(&self) -> bool;

    /// Values the supplier may produce.
    spec fn get_ensures(&self, value: T) -> bool;

    /// Whether every value the supplier gives after a call is `alike` the
    /// value of that call.
    spec fn keeps_first(&self) -> bool;

    /// Pairs of values that count as the same value for `keeps_first`.
    spec fn alike(&self, first: T, later: T) -> bool;

    /// The values the supplier has given, oldest first, where it keeps a
    /// record of them; `None` where it keeps none.
    spec fn history(&self) -> Option<Seq<T>>;

    /// Produces a value, possibly updating the supplier's state. A call may
    /// narrow the values the supplier may produce later, never widen them.
    fn get(&mut self) -> (value: T)
        requires
            old(self).get_requires(),
        ensures
            old(self).get_ensures(value),
            final(self).history() == record(old(self).history(), value),
            final(self).get_requires() == old(self).get_requires(),
            forall|v: T| #[trigger] final(self).get_ensures(v) ==> old(self).get_ensures(v),
            final(self).keeps_first() == old(self).keeps_first(),
            forall|a: T, b: T| #[trigger] final(self).alike(a, b) == old(self).alike(a, b),
            old(self).keeps_first() ==> forall|v: T| #[trigger] final(self).get_ensures(v) ==> old(self).alike(value, v),
    ;
}

/// Two suppliers may be called alike and may produce the same values.
pub open spec fn same_stateful_supplier<T, A: StatefulSupplier<T>, B: StatefulSupplier<T>>(a: A, b: B) -> bool {
    &&& a.get_requires() == b.get_requires()
    &&& forall|v: T| #[trigger] a.get_ensures(v) == b.get_ensures(v)
}

/// When `s.map(m)` may be called: `m` accepts every value `s` may produce.
pub open spec fn map_requires<T, U, S: StatefulSupplier<T>, M: Mapper<T, U>>(s: S, m: M) -> bool {
    &&& s.get_requires()
    &&& forall|v: T| #[trigger] s.get_ensures(v) ==> m.apply_requires(v)
}

/// Values of `s.map(m)`: `m` applied to a value of `s`.
pub open spec fn map_ensures<T, U, S: StatefulSupplier<T>, M: Mapper<T, U>>(s: S, m: M, u: U) -> bool {
    exists|v: T| #[trigger] s.get_ensures(v) && m.apply_ensures(v, u)
}

/// When `s.filter(p)` may be called: `p` accepts every value `s` may produce.
pub open spec fn filter_requires<T, S: StatefulSupplier<T>, P: StatefulFunction<T, bool>>(s: S, p: P) -> bool {
    &&& s.get_requires()
    &&& forall|v: T| #[trigger] s.get_ensures(v) ==> p.apply_requires(v)
}

/// Values of `s.filter(p)`: a value of `s` that passed `p`, or `None` when a
/// value of `s` failed it.
pub open spec fn filter_ensures<T, S: StatefulSupplier<T>, P: StatefulFunction<T, bool>>(s: S, p: P, o: Option<T>) -> bool {
    match o {
        Some(v) => s.get_ensures(v) && p.apply_ensures(v, true),
        None => exists|v: T| #[trigger] s.get_ensures(v) && p.apply_ensures(v, false),
    }
}

/// When `a.zip(b)` may be called.
pub open spec fn zip_requires<T, U, A: StatefulSupplier<T>, B: StatefulSupplier<U>>(a: A, b: B) -> bool {
    a.get_requires() && b.get_requires()
}

/// Values of `a.zip(b)`: a value of `a` paired with a value of `b`.
pub open spec fn zip_ensures<T, U, A: StatefulSupplier<T>, B: StatefulSupplier<U>>(a: A, b: B, pair: (T, U)) -> bool {
    a.get_ensures(pair.0) && b.get_ensures(pair.1)
}

/// `r` is what `s.memoized()` gives from the source value `v` it cached as
/// `c`: `v` itself (the first call) or a clone of `c` (every later call).
pub open spec fn memo_value<T: Clone>(v: T, c: T, r: T) -> bool {
    r == v || cloned(c, r)
}

/// Values of `s.memoized()`: a value `v` of `s`, or a clone of the clone `c`
/// of `v` that it caches.
pub open spec fn memoize_ensures<T: Clone, S: StatefulSupplier<T>>(s: S, r: T) -> bool {
    exists|v: T, c: T| #![trigger s.get_ensures(v), cloned(v, c)] s.get_ensures(v) && cloned(v, c) && memo_value(v, c, r)
}

/// Values of `s.memoized()` that count as the same value: both come from one
/// value of `s` and the clone of it that is cached. Every value a memoized
/// supplier gives after its first call is alike the first.
pub open spec fn memoize_alike<T: Clone, S: StatefulSupplier<T>>(s: S, first: T, later: T) -> bool {
    exists|v: T, c: T| #![trigger s.get_ensures(v), cloned(v, c)] s.get_ensures(v) && cloned(v, c) && memo_value(v, c, first) && memo_value(v, c, later)
}


/// `r` behaves as `s.map(m)`.
pub open spec fn is_mapped<T, U, R: StatefulSupplier<U>, S: StatefulSupplier<T>, M: Mapper<T, U>>(r: R, s: S, m: M) -> bool {
    &&& r.get_requires() == map_requires(s, m)
    &&& forall|u: U| #[trigger] r.get_ensures(u) == map_ensures(s, m, u)
}

/// Mapping with the identity changes nothing: `s.map(identity())` behaves
/// as `s`.
pub proof fn law_map_identity<T, S: StatefulSupplier<T>, I: Mapper<T, T>, R: StatefulSupplier<T>>(s: S, i: I, r: R)
    requires
        is_identity(i),
        is_mapped(r, s, i),
    ensures
        same_stateful_supplier(r, s),
{
    assert forall|v: T| #[trigger] r.get_ensures(v) == s.get_ensures(v) by {
        if s.get_ensures(v) {
            assert(i.apply_ensures(v, v));
        }
    }
}

/// Mapping twice is mapping once with the chained mappers:
/// `s.map(f).map(g)` behaves as `s.map(f.and_then(g))`.
pub proof fn law_map_fusion<T, U, W, S: StatefulSupplier<T>, F: Mapper<T, U>, G: Mapper<U, W>, FG: Mapper<T, W>, SF: StatefulSupplier<U>, SFG1: StatefulSupplier<W>, SFG2: StatefulSupplier<W>>(
    s: S,
    f: F,
    g: G,
    fg: FG,
    sf: SF,
    sfg1: SFG1,
    sfg2: SFG2,
)
    requires
        is_mapped(sf, s, f),
        is_mapped(sfg1, sf, g),
        is_chain(fg, f, g),
        is_mapped(sfg2, s, fg),
    ensures
        same_stateful_supplier(sfg1, sfg2),
{
    if sfg1.get_requires() {
        assert forall|v: T| #[trigger] s.get_ensures(v) implies fg.apply_requires(v) by {
            assert forall|u: U| #[trigger] f.apply_ensures(v, u) implies g.apply_requires(u) by {
                assert(sf.get_ensures(u));
            }
        }
    }
    if sfg2.get_requires() {
        assert forall|u: U| #[trigger] sf.get_ensures(u) implies g.apply_requires(u) by {
            let v = choose|v: T| #[trigger] s.get_ensures(v) && f.apply_ensures(v, u);
            assert(fg.apply_requires(v));
        }
    }
    assert forall|w: W| #[trigger] sfg1.get_ensures(w) == sfg2.get_ensures(w) by {
        if sfg1.get_ensures(w) {
            let u = choose|u: U| #[trigger] sf.get_ensures(u) && g.apply_ensures(u, w);
            let v = choose|v: T| #[trigger] s.get_ensures(v) && f.apply_ensures(v, u);
            assert(fg.apply_ensures(v, w));
        }
        if sfg2.get_ensures(w) {
            let v = choose|v: T| #[trigger] s.get_ensures(v) && fg.apply_ensures(v, w);
            let u = choose|u: U| #[trigger] f.apply_ensures(v, u) && g.apply_ensures(u, w);
            assert(sf.get_ensures(u));
        }
    }
}

/// Where clones are exact, a memoized supplier repeats its first value:
/// values alike for `s.memoized()` are equal, so every value it gives after
/// its first call equals the first.
pub proof fn law_memoized_repeats_first<T: Clone, S: StatefulSupplier<T>, M: StatefulSupplier<T>>(s: S, m: M, first: T, later: T)
    requires
        forall|a: T, b: T| #[trigger] cloned(a, b) ==> b == a,
        forall|a: T, b: T| #[trigger] m.alike(a, b) == memoize_alike(s, a, b),
        m.alike(first, later),
    ensures
        later == first,
{
    let (v, c) = choose|v: T, c: T| #![trigger s.get_ensures(v), cloned(v, c)] s.get_ensures(v) && cloned(v, c) && memo_value(v, c, first) && memo_value(v, c, later);
    assert(c == v);
    assert(first == v && later == v);
}

/// `s` may be called and gives exactly `v`.
pub open spec fn gives_only<T, S: StatefulSupplier<T>>(s: S, v: T) -> bool {
    &&& s.get_requires()
    &&& forall|w: T| #[trigger] s.get_ensures(w) == (w == v)
}

/// Mapping a supplier that gives exactly `v` through a mapper that maps `v`
/// to exactly `u` gives exactly `u`: `s.map(m).get()` is `m` applied to the
/// value of `s.get()`.
pub proof fn law_map_single<T, U, S: StatefulSupplier<T>, M: Mapper<T, U>, R: StatefulSupplier<U>>(s: S, m: M, r: R, v: T, u: U)
    requires
        gives_only(s, v),
        m.apply_requires(v),
        forall|y: U| #[trigger] m.apply_ensures(v, y) == (y == u),
        is_mapped(r, s, m),
    ensures
        gives_only(r, u),
{
    assert(m.apply_ensures(v, u));
    assert(s.get_ensures(v));
    assert forall|w: U| #[trigger] r.get_ensures(w) == (w == u) by {
        if r.get_ensures(w) {
            let x = choose|x: T| #[trigger] s.get_ensures(x) && m.apply_ensures(x, w);
            assert(x == v);
        }
    }
}

/// Filtering a supplier that gives exactly `v` with a predicate that
/// answers exactly `keep` on `v` gives exactly `Some(v)` when `keep` holds
/// and `None` otherwise.
pub proof fn law_filter_single<T, S: StatefulSupplier<T>, P: StatefulFunction<T, bool>, R: StatefulSupplier<Option<T>>>(s: S, p: P, r: R, v: T, keep: bool)
    requires
        gives_only(s, v),
        p.apply_requires(v),
        forall|b: bool| #[trigger] p.apply_ensures(v, b) == (b == keep),
        r.get_requires() == filter_requires(s, p),
        forall|o: Option<T>| #[trigger] r.get_ensures(o) == filter_ensures(s, p, o),
    ensures
        gives_only(r, if keep { Some(v) } else { None }),
{
    assert(p.apply_ensures(v, keep));
    assert(s.get_ensures(v));
    assert forall|o: Option<T>| #[trigger] r.get_ensures(o) == (o == if keep { Some(v) } else { None }) by {
        match o {
            Some(w) => {
                if r.get_ensures(o) {
                    assert(s.get_ensures(w));
                    assert(w == v);
                }
            },
            None => {
                if r.get_ensures(o) {
                    let x = choose|x: T| #[trigger] s.get_ensures(x) && p.apply_ensures(x, false);
                    assert(x == v);
                }
            },
        }
    }
}

/// Zipping suppliers that give exactly `x` and exactly `y` gives exactly
/// `(x, y)`.
pub proof fn law_zip_single<T, U, A: StatefulSupplier<T>, B: StatefulSupplier<U>, R: StatefulSupplier<(T, U)>>(a: A, b: B, r: R, x: T, y: U)
    requires
        gives_only(a, x),
        gives_only(b, y),
        r.get_requires() == zip_requires(a, b),
        forall|p: (T, U)| #[trigger] r.get_ensures(p) == zip_ensures(a, b, p),
    ensures
        gives_only(r, (x, y)),
{
}

/// Where clones are exact, a supplier of clones of `value` gives exactly
/// `value` on every call.
pub proof fn law_constant_repeats<T: Clone, R: StatefulSupplier<T>>(r: R, value: T)
    requires
        forall|a: T, b: T| #[trigger] cloned(a, b) ==> b == a,
        r.get_requires(),
        forall|w: T| #[trigger] r.get_ensures(w) == cloned(value, w),
    ensures
        gives_only(r, value),
{
    assert(cloned(value, value));
}

/// `s0` gave `v` in one call and became `s1`: `v` is a value it may give,
/// and its record, where it keeps one, gained exactly `v`.
pub open spec fn one_get<T, S: StatefulSupplier<T>>(s0: S, v: T, s1: S) -> bool {
    &&& s0.get_ensures(v)
    &&& s1.history() == record(s0.history(), v)
}

/// One call of `s.map(m)` giving `u`, where the source was `s0` and became
/// `s1` and the mapper was `m0` and became `m1`: the source gave one value,
/// and the mapper answered one call on it with `u`.
pub open spec fn map_call<T, U, S: StatefulSupplier<T>, M: Mapper<T, U>>(s0: S, m0: M, s1: S, m1: M, u: U) -> bool {
    exists|v: T| #[trigger] one_get(s0, v, s1) && crate::mapper::one_call(m0, v, u, m1)
}

/// One call of `s.filter(p)` giving `o`: the source gave one value `v`, the
/// predicate answered one call on it, and `o` is `Some(v)` when it said yes,
/// `None` when it said no.
pub open spec fn filter_call<T, S: StatefulSupplier<T>, P: StatefulFunction<T, bool>>(s0: S, p0: P, s1: S, p1: P, o: Option<T>) -> bool {
    exists|v: T, b: bool| #![trigger one_get(s0, v, s1), one_call(p0, v, b, p1)]
        one_get(s0, v, s1) && one_call(p0, v, b, p1) && o == (if b { Some(v) } else { None })
}

/// One call of `a.zip(b)` giving `pair`: each source gave exactly one value,
/// the first component and the second.
pub open spec fn zip_call<T, U, A: StatefulSupplier<T>, B: StatefulSupplier<U>>(a0: A, b0: B, a1: A, b1: B, pair: (T, U)) -> bool {
    &&& one_get(a0, pair.0, a1)
    &&& one_get(b0, pair.1, b1)
}

/// One call of a memo whose cache was `cache0`, over a source that was `s0`
/// and became `s1`, giving `v`: with an empty cache the source gave one
/// value, `v`; with a full cache the source was not called.
pub open spec fn memo_call<T, S: StatefulSupplier<T>>(cache0: Option<T>, s0: S, s1: S, v: T) -> bool {
    match cache0 {
        None => one_get(s0, v, s1),
        Some(c) => s1 == s0,
    }
}

/// Each call of `a.zip(b)` takes exactly one value from each source: where a
/// source keeps a record, it gains exactly one entry, the matching component
/// of the pair.
pub proof fn law_zip_takes_one_value_each<T, U, A: StatefulSupplier<T>, B: StatefulSupplier<U>>(a0: A, b0: B, a1: A, b1: B, pair: (T, U))
    requires
        zip_call(a0, b0, a1, b1, pair),
    ensures
        a0.history() matches Some(h) ==> a1.history() == Some(h.push(pair.0)),
        b0.history() matches Some(h) ==> b1.history() == Some(h.push(pair.1)),
{
}

/// Each call of `s.map(m)` takes exactly one value from the source and maps
/// it once: where the source and the mapper keep records, each gains exactly
/// one entry, the mapper's input is the source's value and its output is
/// the result.
pub proof fn law_map_takes_one_value<T, U, S: StatefulSupplier<T>, M: Mapper<T, U>>(s0: S, m0: M, s1: S, m1: M, u: U)
    requires
        map_call(s0, m0, s1, m1, u),
        s0.history() is Some,
        m0.history() is Some,
    ensures
        s1.history() is Some && m1.history() is Some,
        s1.history()->0.len() == s0.history()->0.len() + 1,
        m1.history()->0.len() == m0.history()->0.len() + 1,
        m1.history()->0.last() == (s1.history()->0.last(), u),
        m0.apply_ensures(s1.history()->0.last(), u),
{
    let v = choose|v: T| #[trigger] one_get(s0, v, s1) && crate::mapper::one_call(m0, v, u, m1);
}

/// Each call of `s.filter(p)` takes exactly one value from the source and
/// asks the predicate once about it: the result is that value or `None`.
pub proof fn law_filter_takes_one_value<T, S: StatefulSupplier<T>, P: StatefulFunction<T, bool>>(s0: S, p0: P, s1: S, p1: P, o: Option<T>)
    requires
        filter_call(s0, p0, s1, p1, o),
        s0.history() is Some,
        p0.history() is Some,
    ensures
        s1.history() is Some && p1.history() is Some,
        s1.history()->0.len() == s0.history()->0.len() + 1,
        p1.history()->0.len() == p0.history()->0.len() + 1,
        p1.history()->0.last().0 == s1.history()->0.last(),
        o == (if p1.history()->0.last().1 { Some(s1.history()->0.last()) } else { None }),
{
    let (v, b) = choose|v: T, b: bool| #![trigger one_get(s0, v, s1), one_call(p0, v, b, p1)]
        one_get(s0, v, s1) && one_call(p0, v, b, p1) && o == (if b { Some(v) } else { None });
}

/// A memo calls its source only on its first call: two calls in a row add
/// exactly one value to the source's record, the value the first call gave,
/// and the second call leaves the source as the first left it.
pub proof fn law_memoized_calls_source_once<T, S: StatefulSupplier<T>>(s0: S, s1: S, s2: S, c: T, v1: T, v2: T)
    requires
        memo_call(None, s0, s1, v1),
        memo_call(Some(c), s1, s2, v2),
    ensures
        s2 == s1,
        s0.history() matches Some(h) ==> s2.history() == Some(h.push(v1)),
{
}

/// A supplier of clones of one value.
struct ConstantStatefulSupplier<T> {
    value: T,
}

impl<T: Clone> StatefulSupplier<T> for ConstantStatefulSupplier<T> {
    closed spec fn get_requires(&self) -> bool {
        true
    }

    closed spec fn get_ensures(&self, value: T) -> bool {
        cloned(self.value, value)
    }

    closed spec fn keeps_first(&self) -> bool {
        false
    }

    closed spec fn alike(&self, first: T, later: T) -> bool {
        false
    }

    closed spec fn history(&self) -> Option<Seq<T>> {
        None
    }

    fn get(&mut self) -> (value: T) {
        self.value.clone()
    }
}

/// A supplier followed by a mapper: what `map` builds.
pub struct MappedStatefulSupplier<T, S, M> {
    source: S,
    mapper: M,
    input: Ghost<Option<T>>,
}

impl<T, S, M> MappedStatefulSupplier<T, S, M> {
    /// The supplier whose values are mapped.
    pub closed spec fn source_part(&self) -> S {
        self.source
    }

    /// The mapper.
    pub closed spec fn mapper_part(&self) -> M {
        self.mapper
    }
}

impl<T, U, S: StatefulSupplier<T>, M: Mapper<T, U>> StatefulSupplier<U> for MappedStatefulSupplier<T, S, M> {
    closed spec fn get_requires(&self) -> bool {
        map_requires(self.source, self.mapper)
    }

    closed spec fn get_ensures(&self, value: U) -> bool {
        map_ensures(self.source, self.mapper, value)
    }

    closed spec fn keeps_first(&self) -> bool {
        false
    }

    closed spec fn alike(&self, first: U, later: U) -> bool {
        false
    }

    closed spec fn history(&self) -> Option<Seq<U>> {
        None
    }

    fn get(&mut self) -> (value: U)
        ensures
            map_call(old(self).source_part(), old(self).mapper_part(), final(self).source_part(), final(self).mapper_part(), value),
    {
        let ghost s0 = self.source;
        let ghost m0 = self.mapper;
        let v = self.source.get();
        let u = self.mapper.apply(v);
        proof {
            assert forall|w: T| #[trigger] self.source.get_ensures(w) implies self.mapper.apply_requires(w) by {
                assert(s0.get_ensures(w));
                assert(self.mapper.apply_requires(w) == m0.apply_requires(w));
            }
            assert forall|x: U| #[trigger] map_ensures(self.source, self.mapper, x) implies map_ensures(s0, m0, x) by {
                let w = choose|w: T| #[trigger] self.source.get_ensures(w) && self.mapper.apply_ensures(w, x);
                assert(s0.get_ensures(w) && m0.apply_ensures(w, x));
            }
            assert(self.mapper.apply_ensures(v, u));
            assert(one_get(s0, v, self.source) && crate::mapper::one_call(m0, v, u, self.mapper));
        }
        u
    }
}

/// A supplier whose values are kept only when a predicate accepts them.
pub struct FilteredStatefulSupplier<S, P> {
    source: S,
    predicate: P,
}

impl<S, P> FilteredStatefulSupplier<S, P> {
    /// The supplier whose values are filtered.
    pub closed spec fn source_part(&self) -> S {
        self.source
    }

    /// The predicate that keeps values.
    pub closed spec fn predicate_part(&self) -> P {
        self.predicate
    }
}

impl<T, S: StatefulSupplier<T>, P: StatefulFunction<T, bool>> StatefulSupplier<Option<T>> for FilteredStatefulSupplier<S, P> {
    closed spec fn get_requires(&self) -> bool {
        filter_requires(self.source, self.predicate)
    }

    closed spec fn get_ensures(&self, value: Option<T>) -> bool {
        filter_ensures(self.source, self.predicate, value)
    }

    closed spec fn keeps_first(&self) -> bool {
        false
    }

    closed spec fn alike(&self, first: Option<T>, later: Option<T>) -> bool {
        false
    }

    closed spec fn history(&self) -> Option<Seq<Option<T>>> {
        None
    }

    fn get(&mut self) -> (value: Option<T>)
        ensures
            filter_call(old(self).source_part(), old(self).predicate_part(), final(self).source_part(), final(self).predicate_part(), value),
    {
        let ghost s0 = self.source;
        let ghost p0 = self.predicate;
        let v = self.source.get();
        let keep = self.predicate.apply(&v);
        proof {
            assert forall|w: T| #[trigger] self.source.get_ensures(w) implies self.predicate.apply_requires(w) by {
                assert(s0.get_ensures(w));
                assert(self.predicate.apply_requires(w) == p0.apply_requires(w));
            }
            assert forall|o: Option<T>| #[trigger] filter_ensures(self.source, self.predicate, o) implies filter_ensures(s0, p0, o) by {
                match o {
                    Some(w) => {
                        assert(s0.get_ensures(w));
                        assert(self.predicate.apply_ensures(w, true) == p0.apply_ensures(w, true));
                    },
                    None => {
                        let w = choose|w: T| #[trigger] self.source.get_ensures(w) && self.predicate.apply_ensures(w, false);
                        assert(s0.get_ensures(w) && p0.apply_ensures(w, false));
                    },
                }
            }
            assert(s0.get_ensures(v));
            assert(one_get(s0, v, self.source) && one_call(p0, v, keep, self.predicate));
        }
        if keep {
            Some(v)
        } else {
            None
        }
    }
}

/// Two suppliers called in turn.
pub struct ZippedStatefulSupplier<A, B> {
    first: A,
    second: B,
}

impl<A, B> ZippedStatefulSupplier<A, B> {
    /// The supplier of the first components.
    pub closed spec fn first_part(&self) -> A {
        self.first
    }

    /// The supplier of the second components.
    pub closed spec fn second_part(&self) -> B {
        self.second
    }
}

impl<T, U, A: StatefulSupplier<T>, B: StatefulSupplier<U>> StatefulSupplier<(T, U)> for ZippedStatefulSupplier<A, B> {
    closed spec fn get_requires(&self) -> bool {
        zip_requires(self.first, self.second)
    }

    closed spec fn get_ensures(&self, value: (T, U)) -> bool {
        zip_ensures(self.first, self.second, value)
    }

    closed spec fn keeps_first(&self) -> bool {
        false
    }

    closed spec fn alike(&self, first: (T, U), later: (T, U)) -> bool {
        false
    }

    closed spec fn history(&self) -> Option<Seq<(T, U)>> {
        None
    }

    fn get(&mut self) -> (value: (T, U))
        ensures
            zip_call(old(self).first_part(), old(self).second_part(), final(self).first_part(), final(self).second_part(), value),
    {
        let a = self.first.get();
        let b = self.second.get();
        (a, b)
    }
}

/// A supplier that calls its source once, gives the value it got and caches
/// a clone of it, and then gives clones of the cached value. `origin` keeps
/// the values the source could give when the memo was made.
#[verifier::reject_recursive_types(T)]
pub struct MemoizedStatefulSupplier<T, S> {
    source: S,
    cache: Option<T>,
    origin: Ghost<spec_fn(T) -> bool>,
}

impl<T, S> MemoizedStatefulSupplier<T, S> {
    /// The supplier that is called once.
    pub closed spec fn source_part(&self) -> S {
        self.source
    }

    /// The cached clone, once the source has been called.
    pub closed spec fn cached(&self) -> Option<T> {
        self.cache
    }
}

impl<T: Clone, S: StatefulSupplier<T>> MemoizedStatefulSupplier<T, S> {
    /// A memo of `source` that has not called it yet.
    fn new(source: S) -> (res: Self)
        ensures
            res.get_requires() == source.get_requires(),
            forall|v: T| #[trigger] res.get_ensures(v) == memoize_ensures(source, v),
            res.keeps_first(),
            forall|a: T, b: T| #[trigger] res.alike(a, b) == memoize_alike(source, a, b),
    {
        let ghost origin = |c: T| source.get_ensures(c);
        let memo = MemoizedStatefulSupplier { source, cache: None, origin: Ghost(origin) };
        proof {
            assert forall|a: T, b: T| #[trigger] memo.alike(a, b) == memoize_alike(source, a, b) by {
                if memo.alike(a, b) {
                    let (v, c) = choose|v: T, c: T| #![trigger (memo.origin@)(v), cloned(v, c)] (memo.origin@)(v) && cloned(v, c) && memo_value(v, c, a) && memo_value(v, c, b);
                    assert(source.get_ensures(v) && cloned(v, c));
                }
                if memoize_alike(source, a, b) {
                    let (v, c) = choose|v: T, c: T| #![trigger source.get_ensures(v), cloned(v, c)] source.get_ensures(v) && cloned(v, c) && memo_value(v, c, a) && memo_value(v, c, b);
                    assert((memo.origin@)(v) && cloned(v, c));
                }
            }
        }
        memo
    }
}

impl<T: Clone, S: StatefulSupplier<T>> StatefulSupplier<T> for MemoizedStatefulSupplier<T, S> {
    closed spec fn get_requires(&self) -> bool {
        &&& self.source.get_requires()
        &&& forall|c: T| #[trigger] self.source.get_ensures(c) ==> (self.origin@)(c)
        &&& self.cache matches Some(c) ==> exists|v: T| #[trigger] (self.origin@)(v) && cloned(v, c)
    }

    closed spec fn get_ensures(&self, value: T) -> bool {
        match self.cache {
            Some(c) => cloned(c, value),
            None => memoize_ensures(self.source, value),
        }
    }

    closed spec fn keeps_first(&self) -> bool {
        true
    }

    closed spec fn alike(&self, first: T, later: T) -> bool {
        exists|v: T, c: T| #![trigger (self.origin@)(v), cloned(v, c)] (self.origin@)(v) && cloned(v, c) && memo_value(v, c, first) && memo_value(v, c, later)
    }

    closed spec fn history(&self) -> Option<Seq<T>> {
        None
    }

    fn get(&mut self) -> (value: T)
        ensures
            memo_call(old(self).cached(), old(self).source_part(), final(self).source_part(), value),
            final(self).cached() is Some,
    {
        let ghost me = *self;
        match &self.cache {
            Some(cached) => {
                let r = cached.clone();
                proof {
                    assert(self.get_requires() == me.get_requires());
                    assert(forall|a: T, b: T| #[trigger] self.alike(a, b) == me.alike(a, b));
                    let c = *cached;
                    let v = choose|v: T| #[trigger] (self.origin@)(v) && cloned(v, c);
                    assert(cloned(c, r));
                    assert forall|w: T| #[trigger] cloned(c, w) implies self.alike(r, w) by {
                        assert((self.origin@)(v) && cloned(v, c) && memo_value(v, c, r) && memo_value(v, c, w));
                    }
                }
                r
            },
            None => {
                let ghost s0 = self.source;
                let v = self.source.get();
                let c = v.clone();
                proof {
                    assert(cloned(v, c));
                    assert(s0.get_ensures(v) && cloned(v, c) && memo_value(v, c, v));
                    assert((self.origin@)(v));
                }
                self.cache = Some(c);
                proof {
                    assert forall|w: T| #[trigger] cloned(c, w) implies memoize_ensures(s0, w) && self.alike(v, w) by {
                        assert(s0.get_ensures(v) && cloned(v, c) && memo_value(v, c, w));
                        assert((self.origin@)(v) && cloned(v, c) && memo_value(v, c, v) && memo_value(v, c, w));
                    }
                    assert((self.origin@)(v) && cloned(v, c));
                    assert(self.get_requires() == me.get_requires());
                    assert(forall|a: T, b: T| #[trigger] self.alike(a, b) == me.alike(a, b));
                }
                v
            },
        }
    }
}

/// A supplier that may be shared between threads.
pub trait SharedStatefulSupplier<T>: Send + Sync {
    /// Whether the supplier may be called.
    spec fn shared_get_requires(&self) -> bool;

    /// Values the supplier may produce.
    spec fn shared_get_ensures(&self, value: T) -> bool;

    /// Produces a value, possibly updating the supplier's state.
    fn shared_get(&mut self) -> (value: T)
        requires
            old(self).shared_get_requires(),
        ensures
            old(self).shared_get_ensures(value),
            final(self).shared_get_requires() == old(self).shared_get_requires(),
            forall|v: T| #[trigger] final(self).shared_get_ensures(v) ==> old(self).shared_get_ensures(v),
    ;
}

impl<T, S: StatefulSupplier<T> + Send + Sync> SharedStatefulSupplier<T> for S {
    open spec fn shared_get_requires(&self) -> bool {
        self.get_requires()
    }

    open spec fn shared_get_ensures(&self, value: T) -> bool {
        self.get_ensures(value)
    }

    fn shared_get(&mut self) -> (value: T) {
        self.get()
    }
}

/// A closure's behaviour as a stateful supplier is its own precondition and
/// postcondition. Call this where a concrete closure is used, so that its
/// relation unfolds.
pub proof fn lemma_closure_stateful_supplier<T, F: FnMut() -> T>(f: F)
    ensures
        f.get_requires() == f.requires(()),
        forall|v: T| #[trigger] f.get_ensures(v) == f.ensures((), v),
        !f.keeps_first(),
{
}

/// Every closure `FnMut() -> T` is a supplier, with the closure's own
/// precondition and postcondition.
impl<T, F> StatefulSupplier<T> for F where F: FnMut() -> T {
    open spec fn get_requires(&self) -> bool {
        self.requires(())
    }

    open spec fn get_ensures(&self, value: T) -> bool {
        self.ensures((), value)
    }

    open spec fn keeps_first(&self) -> bool {
        false
    }

    open spec fn alike(&self, first: T, later: T) -> bool {
        false
    }

    open spec fn history(&self) -> Option<Seq<T>> {
        None
    }

    fn get(&mut self) -> (value: T) {
        broadcast use vstd::function::group_function_axioms;
        self()
    }
}

/// Whatever supplier a lock holds may be called where `req` holds and
/// produces only values in `ens`.
pub open spec fn lock_holds<T, S: StatefulSupplier<T>>(req: bool, ens: spec_fn(T) -> bool, s: S) -> bool {
    &&& req ==> s.get_requires()
    &&& forall|v: T| #[trigger] s.get_ensures(v) ==> ens(v)
}

/// A boxed supplier that may be shared between threads.
#[verifier::reject_recursive_types(T)]
struct SyncBoxStatefulSupplier<T> {
    function: Box<dyn SharedStatefulSupplier<T>>,
}

impl<T: 'static> StatefulSupplier<T> for SyncBoxStatefulSupplier<T> {
    closed spec fn get_requires(&self) -> bool {
        self.function.shared_get_requires()
    }

    closed spec fn get_ensures(&self, value: T) -> bool {
        self.function.shared_get_ensures(value)
    }

    closed spec fn keeps_first(&self) -> bool {
        false
    }

    closed spec fn alike(&self, first: T, later: T) -> bool {
        false
    }

    closed spec fn history(&self) -> Option<Seq<T>> {
        None
    }

    fn get(&mut self) -> (value: T) {
        self.function.shared_get()
    }
}

/// A supplier with single ownership.
#[verifier::reject_recursive_types(T)]
pub struct BoxStatefulSupplier<T> {
    function: Box<dyn StatefulSupplier<T>>,
}

impl<T: 'static> BoxStatefulSupplier<T> {
    /// Wraps a closure.
    pub fn new<F>(f: F) -> (res: Self)
        where F: FnMut() -> T + 'static
        ensures
            res.get_requires() == f.requires(()),
            forall|v: T| #[trigger] res.get_ensures(v) == f.ensures((), v),
    {
        BoxStatefulSupplier { function: Box::new(f) }
    }

    /// A supplier of clones of `value`.
    pub fn constant(value: T) -> (res: Self)
        where T: Clone
        ensures
            res.get_requires(),
            forall|v: T| #[trigger] res.get_ensures(v) == cloned(value, v),
    {
        BoxStatefulSupplier { function: Box::new(ConstantStatefulSupplier { value }) }
    }

    /// The values of this supplier passed through `mapper`.
    pub fn map<U, F>(self, mapper: F) -> (res: BoxStatefulSupplier<U>)
        where F: Mapper<T, U> + 'static, U: 'static
        ensures
            res.get_requires() == map_requires(self, mapper),
            forall|u: U| #[trigger] res.get_ensures(u) == map_ensures(self, mapper, u),
    {
        BoxStatefulSupplier { function: Box::new(MappedStatefulSupplier { source: self, mapper, input: Ghost(None) }) }
    }

    /// The values of this supplier that pass `predicate`, `None` otherwise.
    pub fn filter<P>(self, predicate: P) -> (res: BoxStatefulSupplier<Option<T>>)
        where P: FnMut(&T) -> bool + 'static
        ensures
            res.get_requires() == filter_requires(self, predicate),
            forall|o: Option<T>| #[trigger] res.get_ensures(o) == filter_ensures(self, predicate, o),
    {
        BoxStatefulSupplier { function: Box::new(FilteredStatefulSupplier { source: self, predicate }) }
    }

    /// Pairs of a value of this supplier and a value of `other`.
    pub fn zip<S, U>(self, other: S) -> (res: BoxStatefulSupplier<(T, U)>)
        where S: StatefulSupplier<U> + 'static, U: 'static
        ensures
            res.get_requires() == zip_requires(self, other),
            forall|p: (T, U)| #[trigger] res.get_ensures(p) == zip_ensures(self, other, p),
    {
        BoxStatefulSupplier { function: Box::new(ZippedStatefulSupplier { first: self, second: other }) }
    }

    /// A supplier that calls this one once and gives that value, then gives
    /// clones of a cached clone of it.
    pub fn memoized(self) -> (res: BoxStatefulSupplier<T>)
        where T: Clone
        ensures
            res.get_requires() == self.get_requires(),
            forall|v: T| #[trigger] res.get_ensures(v) == memoize_ensures(self, v),
            res.keeps_first(),
            forall|a: T, b: T| #[trigger] res.alike(a, b) == memoize_alike(self, a, b),
    {
        BoxStatefulSupplier { function: Box::new(MemoizedStatefulSupplier::new(self)) }
    }
}

impl<T: 'static> StatefulSupplier<T> for BoxStatefulSupplier<T> {
    closed spec fn get_requires(&self) -> bool {
        self.function.get_requires()
    }

    closed spec fn get_ensures(&self, value: T) -> bool {
        self.function.get_ensures(value)
    }

    closed spec fn keeps_first(&self) -> bool {
        self.function.keeps_first()
    }

    closed spec fn alike(&self, first: T, later: T) -> bool {
        self.function.alike(first, later)
    }

    closed spec fn history(&self) -> Option<Seq<T>> {
        self.function.history()
    }

    fn get(&mut self) -> (value: T) {
        self.function.get()
    }
}

/// A supplier with shared single-threaded ownership: the supplier sits in a lock,
/// and clones share it and its state.
#[verifier::reject_recursive_types(T)]
pub struct RcStatefulSupplier<T> {
    function: Rc<RwLock<BoxStatefulSupplier<T>, spec_fn(BoxStatefulSupplier<T>) -> bool>>,
    requires_spec: Ghost<bool>,
    ensures_spec: Ghost<spec_fn(T) -> bool>,
}

impl<T: 'static> RcStatefulSupplier<T> {
    /// The lock holds the invariant this supplier was built with.
    #[verifier::type_invariant]
    closed spec fn wf(&self) -> bool {
        self.function.pred() == |s: BoxStatefulSupplier<T>| lock_holds(self.requires_spec@, self.ensures_spec@, s)
    }

    /// Locks a supplier away, with exactly its behaviour.
    fn from_supplier<S>(s: S) -> (res: Self)
        where S: StatefulSupplier<T> + 'static
        ensures
            same_stateful_supplier(res, s),
    {
        let slot = BoxStatefulSupplier { function: Box::new(s) };
        let ghost req = s.get_requires();
        let ghost ens = |v: T| s.get_ensures(v);
        let ghost pred = |x: BoxStatefulSupplier<T>| lock_holds(req, ens, x);
        let lock = RwLock::new(slot, Ghost(pred));
        RcStatefulSupplier { function: Rc::new(lock), requires_spec: Ghost(req), ensures_spec: Ghost(ens) }
    }
}

impl<T: 'static> Clone for RcStatefulSupplier<T> {
    /// Another handle to the same supplier and its state.
    fn clone(&self) -> (res: Self)
        ensures
            res == *self,
    {
        proof {
            use_type_invariant(self);
        }
        RcStatefulSupplier { function: rc_share(&self.function), requires_spec: self.requires_spec, ensures_spec: self.ensures_spec }
    }
}

impl<T> RcStatefulSupplier<T> where T: 'static {
    /// Wraps a closure.
    pub fn new<F>(f: F) -> (res: Self)
        where F: FnMut() -> T + 'static
        ensures
            res.get_requires() == f.requires(()),
            forall|v: T| #[trigger] res.get_ensures(v) == f.ensures((), v),
    {
        RcStatefulSupplier::from_supplier(f)
    }

    /// A supplier of clones of `value`.
    pub fn constant(value: T) -> (res: Self)
        where T: Clone
        ensures
            res.get_requires(),
            forall|v: T| #[trigger] res.get_ensures(v) == cloned(value, v),
    {
        RcStatefulSupplier::from_supplier(ConstantStatefulSupplier { value })
    }

    /// The values of this supplier passed through `mapper`; `self` stays
    /// usable and shares its state.
    pub fn map<U, F>(&self, mapper: F) -> (res: RcStatefulSupplier<U>)
        where F: Mapper<T, U> + 'static, U: 'static
        ensures
            res.get_requires() == map_requires(*self, mapper),
            forall|u: U| #[trigger] res.get_ensures(u) == map_ensures(*self, mapper, u),
    {
        RcStatefulSupplier::from_supplier(MappedStatefulSupplier { source: self.clone(), mapper, input: Ghost(None) })
    }

    /// The values of this supplier that pass `predicate`, `None` otherwise;
    /// `self` stays usable and shares its state.
    pub fn filter<P>(&self, predicate: P) -> (res: RcStatefulSupplier<Option<T>>)
        where P: FnMut(&T) -> bool + 'static
        ensures
            res.get_requires() == filter_requires(*self, predicate),
            forall|o: Option<T>| #[trigger] res.get_ensures(o) == filter_ensures(*self, predicate, o),
    {
        RcStatefulSupplier::from_supplier(FilteredStatefulSupplier { source: self.clone(), predicate })
    }

    /// Pairs of a value of this supplier and a value of `other`.
    pub fn zip<S, U>(&self, other: S) -> (res: RcStatefulSupplier<(T, U)>)
        where S: StatefulSupplier<U> + 'static, U: 'static
        ensures
            res.get_requires() == zip_requires(*self, other),
            forall|p: (T, U)| #[trigger] res.get_ensures(p) == zip_ensures(*self, other, p),
    {
        RcStatefulSupplier::from_supplier(ZippedStatefulSupplier { first: self.clone(), second: other })
    }

    /// A supplier that calls this one once and gives that value, then gives
    /// clones of a cached clone of it.
    pub fn memoized(&self) -> (res: RcStatefulSupplier<T>)
        where T: Clone
        ensures
            res.get_requires() == self.get_requires(),
            forall|v: T| #[trigger] res.get_ensures(v) == memoize_ensures(*self, v),
    {
        RcStatefulSupplier::from_supplier(MemoizedStatefulSupplier::new(self.clone()))
    }
}

impl<T: 'static> StatefulSupplier<T> for RcStatefulSupplier<T> {
    closed spec fn get_requires(&self) -> bool {
        self.requires_spec@
    }

    closed spec fn get_ensures(&self, value: T) -> bool {
        (self.ensures_spec@)(value)
    }

    closed spec fn keeps_first(&self) -> bool {
        false
    }

    closed spec fn alike(&self, first: T, later: T) -> bool {
        false
    }

    closed spec fn history(&self) -> Option<Seq<T>> {
        None
    }

    fn get(&mut self) -> (value: T) {
        proof {
            use_type_invariant(&*self);
        }
        let (mut s, handle) = self.function.acquire_write();
        let value = StatefulSupplier::get(&mut s);
        handle.release_write(s);
        value
    }
}

/// A supplier with shared thread-safe ownership: the supplier sits in a lock,
/// and clones share it and its state.
#[verifier::reject_recursive_types(T)]
pub struct ArcStatefulSupplier<T> {
    function: Arc<RwLock<SyncBoxStatefulSupplier<T>, spec_fn(SyncBoxStatefulSupplier<T>) -> bool>>,
    requires_spec: Ghost<bool>,
    ensures_spec: Ghost<spec_fn(T) -> bool>,
}

impl<T: 'static> ArcStatefulSupplier<T> {
    /// The lock holds the invariant this supplier was built with.
    #[verifier::type_invariant]
    closed spec fn wf(&self) -> bool {
        self.function.pred() == |s: SyncBoxStatefulSupplier<T>| lock_holds(self.requires_spec@, self.ensures_spec@, s)
    }

    /// Locks a supplier away, with exactly its behaviour.
    fn from_supplier<S>(s: S) -> (res: Self)
        where S: StatefulSupplier<T> + Send + Sync + 'static
        ensures
            same_stateful_supplier(res, s),
    {
        let slot = SyncBoxStatefulSupplier { function: Box::new(s) };
        let ghost req = s.get_requires();
        let ghost ens = |v: T| s.get_ensures(v);
        let ghost pred = |x: SyncBoxStatefulSupplier<T>| lock_holds(req, ens, x);
        let lock = RwLock::new(slot, Ghost(pred));
        ArcStatefulSupplier { function: Arc::new(lock), requires_spec: Ghost(req), ensures_spec: Ghost(ens) }
    }
}

impl<T: 'static> Clone for ArcStatefulSupplier<T> {
    /// Another handle to the same supplier and its state.
    fn clone(&self) -> (res: Self)
        ensures
            res == *self,
    {
        proof {
            use_type_invariant(self);
        }
        ArcStatefulSupplier { function: arc_share(&self.function), requires_spec: self.requires_spec, ensures_spec: self.ensures_spec }
    }
}

impl<T> ArcStatefulSupplier<T> where T: Send + 'static {
    /// Wraps a closure.
    pub fn new<F>(f: F) -> (res: Self)
        where F: FnMut() -> T + Send + Sync + 'static
        ensures
            res.get_requires() == f.requires(()),
            forall|v: T| #[trigger] res.get_ensures(v) == f.ensures((), v),
    {
        ArcStatefulSupplier::from_supplier(f)
    }

    /// A supplier of clones of `value`.
    pub fn constant(value: T) -> (res: Self)
        where T: Clone + Sync
        ensures
            res.get_requires(),
            forall|v: T| #[trigger] res.get_ensures(v) == cloned(value, v),
    {
        ArcStatefulSupplier::from_supplier(ConstantStatefulSupplier { value })
    }

    /// The values of this supplier passed through `mapper`; `self` stays
    /// usable and shares its state.
    pub fn map<U, F>(&self, mapper: F) -> (res: ArcStatefulSupplier<U>)
        where F: Mapper<T, U> + Send + Sync + 'static, U: Send + 'static
        ensures
            res.get_requires() == map_requires(*self, mapper),
            forall|u: U| #[trigger] res.get_ensures(u) == map_ensures(*self, mapper, u),
    {
        ArcStatefulSupplier::from_supplier(MappedStatefulSupplier { source: self.clone(), mapper, input: Ghost(None) })
    }

    /// The values of this supplier that pass `predicate`, `None` otherwise;
    /// `self` stays usable and shares its state.
    pub fn filter<P>(&self, predicate: P) -> (res: ArcStatefulSupplier<Option<T>>)
        where P: FnMut(&T) -> bool + Send + Sync + 'static
        ensures
            res.get_requires() == filter_requires(*self, predicate),
            forall|o: Option<T>| #[trigger] res.get_ensures(o) == filter_ensures(*self, predicate, o),
    {
        ArcStatefulSupplier::from_supplier(FilteredStatefulSupplier { source: self.clone(), predicate })
    }

    /// Pairs of a value of this supplier and a value of `other`.
    pub fn zip<S, U>(&self, other: S) -> (res: ArcStatefulSupplier<(T, U)>)
        where S: StatefulSupplier<U> + Send + Sync + 'static, U: Send + 'static
        ensures
            res.get_requires() == zip_requires(*self, other),
            forall|p: (T, U)| #[trigger] res.get_ensures(p) == zip_ensures(*self, other, p),
    {
        ArcStatefulSupplier::from_supplier(ZippedStatefulSupplier { first: self.clone(), second: other })
    }

    /// A supplier that calls this one once and gives that value, then gives
    /// clones of a cached clone of it.
    pub fn memoized(&self) -> (res: ArcStatefulSupplier<T>)
        where T: Clone + Sync
        ensures
            res.get_requires() == self.get_requires(),
            forall|v: T| #[trigger] res.get_ensures(v) == memoize_ensures(*self, v),
    {
        ArcStatefulSupplier::from_supplier(MemoizedStatefulSupplier::new(self.clone()))
    }
}

impl<T: 'static> StatefulSupplier<T> for ArcStatefulSupplier<T> {
    closed spec fn get_requires(&self) -> bool {
        self.requires_spec@
    }

    closed spec fn get_ensures(&self, value: T) -> bool {
        (self.ensures_spec@)(value)
    }

    closed spec fn keeps_first(&self) -> bool {
        false
    }

    closed spec fn alike(&self, first: T, later: T) -> bool {
        false
    }

    closed spec fn history(&self) -> Option<Seq<T>> {
        None
    }

    fn get(&mut self) -> (value: T) {
        proof {
            use_type_invariant(&*self);
        }
        let (mut s, handle) = self.function.acquire_write();
        let value = s.get();
        handle.release_write(s);
        value
    }
}

/// A `BoxStatefulSupplier` used once: one call of the supplier.
impl<T: 'static> SupplierOnce<T> for BoxStatefulSupplier<T> {
    open spec fn once_requires(&self) -> bool {
        self.get_requires()
    }

    open spec fn once_ensures(&self, value: T) -> bool {
        self.get_ensures(value)
    }

    fn get(self) -> (value: T) {
        let mut s = self;
        StatefulSupplier::get(&mut s)
    }

    fn get_boxed(self: Box<Self>) -> (value: T) {
        let mut s = *self;
        StatefulSupplier::get(&mut s)
    }
}

/// An `RcStatefulSupplier` used once: one call of the shared supplier;
/// other handles keep it.
impl<T: 'static> SupplierOnce<T> for RcStatefulSupplier<T> {
    open spec fn once_requires(&self) -> bool {
        self.get_requires()
    }

    open spec fn once_ensures(&self, value: T) -> bool {
        self.get_ensures(value)
    }

    fn get(self) -> (value: T) {
        let mut s = self;
        StatefulSupplier::get(&mut s)
    }

    fn get_boxed(self: Box<Self>) -> (value: T) {
        let mut s = *self;
        StatefulSupplier::get(&mut s)
    }
}

/// An `ArcStatefulSupplier` used once: one call of the shared supplier;
/// other handles keep it.
impl<T: 'static> SupplierOnce<T> for ArcStatefulSupplier<T> {
    open spec fn once_requires(&self) -> bool {
        self.get_requires()
    }

    open spec fn once_ensures(&self, value: T) -> bool {
        self.get_ensures(value)
    }

    fn get(self) -> (value: T) {
        let mut s = self;
        StatefulSupplier::get(&mut s)
    }

    fn get_boxed(self: Box<Self>) -> (value: T) {
        let mut s = *self;
        StatefulSupplier::get(&mut s)
    }
}

/// Conversions of a supplier into the three ownership flavours, keeping its
/// behaviour.
pub trait IntoStatefulSupplier<T>: StatefulSupplier<T> + Sized + 'static {
    /// Converts into a `BoxStatefulSupplier`.
    fn into_box(self) -> (res: BoxStatefulSupplier<T>)
        where T: 'static
        ensures
            same_stateful_supplier(res, self),
    ;

    /// Converts into an `RcStatefulSupplier`.
    fn into_rc(self) -> (res: RcStatefulSupplier<T>)
        where T: 'static
        ensures
            same_stateful_supplier(res, self),
    ;

    /// Converts into an `ArcStatefulSupplier`.
    fn into_arc(self) -> (res: ArcStatefulSupplier<T>)
        where Self: Send + Sync, T: Send + 'static
        ensures
            same_stateful_supplier(res, self),
    ;

    /// Converts a clone into a `BoxStatefulSupplier`; this one stays usable.
    fn to_box(&self) -> (res: BoxStatefulSupplier<T>)
        where Self: Clone, T: 'static
        ensures
            exists|c: Self| #[trigger] cloned(*self, c) && same_stateful_supplier(res, c),
    ;

    /// Converts a clone into an `RcStatefulSupplier`; this one stays usable.
    fn to_rc(&self) -> (res: RcStatefulSupplier<T>)
        where Self: Clone, T: 'static
        ensures
            exists|c: Self| #[trigger] cloned(*self, c) && same_stateful_supplier(res, c),
    ;

    /// Converts a clone into an `ArcStatefulSupplier`; this one stays usable.
    fn to_arc(&self) -> (res: ArcStatefulSupplier<T>)
        where Self: Clone + Send + Sync, T: Send + 'static
        ensures
            exists|c: Self| #[trigger] cloned(*self, c) && same_stateful_supplier(res, c),
    ;
}

/// Closures convert by being wrapped.
impl<T, F> IntoStatefulSupplier<T> for F where F: FnMut() -> T + 'static {
    fn into_box(self) -> (res: BoxStatefulSupplier<T>)
        where T: 'static
    {
        BoxStatefulSupplier::new(self)
    }

    fn into_rc(self) -> (res: RcStatefulSupplier<T>)
        where T: 'static
    {
        RcStatefulSupplier::new(self)
    }

    fn into_arc(self) -> (res: ArcStatefulSupplier<T>)
        where Self: Send + Sync, T: Send + 'static
    {
        ArcStatefulSupplier::new(self)
    }

    fn to_box(&self) -> (res: BoxStatefulSupplier<T>)
        where Self: Clone, T: 'static
    {
        let c = self.clone();
        proof {
            assert(cloned(*self, c));
        }
        c.into_box()
    }

    fn to_rc(&self) -> (res: RcStatefulSupplier<T>)
        where Self: Clone, T: 'static
    {
        let c = self.clone();
        proof {
            assert(cloned(*self, c));
        }
        c.into_rc()
    }

    fn to_arc(&self) -> (res: ArcStatefulSupplier<T>)
        where Self: Clone + Send + Sync, T: Send + 'static
    {
        let c = self.clone();
        proof {
            assert(cloned(*self, c));
        }
        c.into_arc()
    }
}

impl<T: 'static> IntoStatefulSupplier<T> for BoxStatefulSupplier<T> {
    fn into_box(self) -> (res: BoxStatefulSupplier<T>) {
        self
    }

    fn into_rc(self) -> (res: RcStatefulSupplier<T>) {
        RcStatefulSupplier::from_supplier(self)
    }

    /// Only callable where the supplier may be shared between threads, which
    /// a `BoxStatefulSupplier` never may.
    fn into_arc(self) -> (res: ArcStatefulSupplier<T>)
        where Self: Send + Sync, T: Send + 'static
    {
        ArcStatefulSupplier::from_supplier(self)
    }

    fn to_box(&self) -> (res: BoxStatefulSupplier<T>)
        where Self: Clone, T: 'static
    {
        let c = self.clone();
        proof {
            assert(cloned(*self, c));
        }
        c.into_box()
    }

    fn to_rc(&self) -> (res: RcStatefulSupplier<T>)
        where Self: Clone, T: 'static
    {
        let c = self.clone();
        proof {
            assert(cloned(*self, c));
        }
        c.into_rc()
    }

    fn to_arc(&self) -> (res: ArcStatefulSupplier<T>)
        where Self: Clone + Send + Sync, T: Send + 'static
    {
        let c = self.clone();
        proof {
            assert(cloned(*self, c));
        }
        c.into_arc()
    }
}

impl<T: 'static> IntoStatefulSupplier<T> for RcStatefulSupplier<T> {
    fn into_box(self) -> (res: BoxStatefulSupplier<T>) {
        BoxStatefulSupplier { function: Box::new(self) }
    }

    fn into_rc(self) -> (res: RcStatefulSupplier<T>) {
        self
    }

    /// Only callable where the supplier may be shared between threads, which
    /// an `RcStatefulSupplier` never may.
    fn into_arc(self) -> (res: ArcStatefulSupplier<T>)
        where Self: Send + Sync, T: Send + 'static
    {
        ArcStatefulSupplier::from_supplier(self)
    }

    fn to_box(&self) -> (res: BoxStatefulSupplier<T>)
        where Self: Clone, T: 'static
        ensures
            same_stateful_supplier(res, *self),
    {
        let c = self.clone();
        proof {
            assert(cloned(*self, c));
        }
        c.into_box()
    }

    fn to_rc(&self) -> (res: RcStatefulSupplier<T>)
        where Self: Clone, T: 'static
        ensures
            same_stateful_supplier(res, *self),
    {
        let c = self.clone();
        proof {
            assert(cloned(*self, c));
        }
        c.into_rc()
    }

    fn to_arc(&self) -> (res: ArcStatefulSupplier<T>)
        where Self: Clone + Send + Sync, T: Send + 'static
        ensures
            same_stateful_supplier(res, *self),
    {
        let c = self.clone();
        proof {
            assert(cloned(*self, c));
        }
        c.into_arc()
    }
}

impl<T: 'static> IntoStatefulSupplier<T> for ArcStatefulSupplier<T> {
    fn into_box(self) -> (res: BoxStatefulSupplier<T>) {
        BoxStatefulSupplier { function: Box::new(self) }
    }

    fn into_rc(self) -> (res: RcStatefulSupplier<T>) {
        RcStatefulSupplier::from_supplier(self)
    }

    fn into_arc(self) -> (res: ArcStatefulSupplier<T>)
        where Self: Send + Sync, T: Send + 'static
    {
        self
    }

    fn to_box(&self) -> (res: BoxStatefulSupplier<T>)
        where Self: Clone, T: 'static
        ensures
            same_stateful_supplier(res, *self),
    {
        let c = self.clone();
        proof {
            assert(cloned(*self, c));
        }
        c.into_box()
    }

    fn to_rc(&self) -> (res: RcStatefulSupplier<T>)
        where Self: Clone, T: 'static
        ensures
            same_stateful_supplier(res, *self),
    {
        let c = self.clone();
        proof {
            assert(cloned(*self, c));
        }
        c.into_rc()
    }

    fn to_arc(&self) -> (res: ArcStatefulSupplier<T>)
        where Self: Clone + Send + Sync, T: Send + 'static
        ensures
            same_stateful_supplier(res, *self),
    {
        let c = self.clone();
        proof {
            assert(cloned(*self, c));
        }
        c.into_arc()
    }
}

/// Composition methods on closures, producing `BoxStatefulSupplier`s.
pub trait FnStatefulSupplierOps<T>: StatefulSupplier<T> + Sized + 'static {
    /// The values of this closure passed through `mapper`.
    fn map<U, M>(self, mapper: M) -> (res: BoxStatefulSupplier<U>)
        where M: Mapper<T, U> + 'static, U: 'static, T: 'static
        ensures
            res.get_requires() == map_requires(self, mapper),
            forall|u: U| #[trigger] res.get_ensures(u) == map_ensures(self, mapper, u),
    ;

    /// The values of this closure that pass `predicate`, `None` otherwise.
    fn filter<P>(self, predicate: P) -> (res: BoxStatefulSupplier<Option<T>>)
        where P: FnMut(&T) -> bool + 'static, T: 'static
        ensures
            res.get_requires() == filter_requires(self, predicate),
            forall|o: Option<T>| #[trigger] res.get_ensures(o) == filter_ensures(self, predicate, o),
    ;

    /// Pairs of a value of this closure and a value of `other`.
    fn zip<U>(self, other: BoxStatefulSupplier<U>) -> (res: BoxStatefulSupplier<(T, U)>)
        where U: 'static, T: 'static
        ensures
            res.get_requires() == zip_requires(self, other),
            forall|p: (T, U)| #[trigger] res.get_ensures(p) == zip_ensures(self, other, p),
    ;

    /// A supplier that calls this closure once and gives that value, then
    /// gives clones of a cached clone of it.
    fn memoized(self) -> (res: BoxStatefulSupplier<T>)
        where T: Clone + 'static
        ensures
            res.get_requires() == self.get_requires(),
            forall|v: T| #[trigger] res.get_ensures(v) == memoize_ensures(self, v),
            res.keeps_first(),
            forall|a: T, b: T| #[trigger] res.alike(a, b) == memoize_alike(self, a, b),
    ;
}

impl<T, C> FnStatefulSupplierOps<T> for C where C: FnMut() -> T + 'static {
    fn map<U, M>(self, mapper: M) -> (res: BoxStatefulSupplier<U>)
        where M: Mapper<T, U> + 'static, U: 'static, T: 'static
    {
        BoxStatefulSupplier { function: Box::new(MappedStatefulSupplier { source: self, mapper, input: Ghost(None) }) }
    }

    fn filter<P>(self, predicate: P) -> (res: BoxStatefulSupplier<Option<T>>)
        where P: FnMut(&T) -> bool + 'static, T: 'static
    {
        BoxStatefulSupplier { function: Box::new(FilteredStatefulSupplier { source: self, predicate }) }
    }

    fn zip<U>(self, other: BoxStatefulSupplier<U>) -> (res: BoxStatefulSupplier<(T, U)>)
        where U: 'static, T: 'static
    {
        BoxStatefulSupplier { function: Box::new(ZippedStatefulSupplier { first: self, second: other }) }
    }

    fn memoized(self) -> (res: BoxStatefulSupplier<T>)
        where T: Clone + 'static
    {
        BoxStatefulSupplier { function: Box::new(MemoizedStatefulSupplier::new(self)) }
    }
}

} // verus!
