use prism3_function::functions::stateful_mutating_function::{
    ArcStatefulMutatingFunction, BoxStatefulMutatingFunction, FnMutStatefulMutatingFunctionOps,
    IntoStatefulMutatingFunction, RcStatefulMutatingFunction, StatefulMutatingFunction,
};

#[test]
fn box_stateful_mutating_function_keeps_state() {
    let mut total = 0;
    let mut f = BoxStatefulMutatingFunction::new(move |x: &mut i32| {
        total += *x;
        *x = 0;
        total
    });
    let mut a = 3;
    assert_eq!(f.apply(&mut a), 3);
    assert_eq!(a, 0);
    let mut b = 4;
    assert_eq!(f.apply(&mut b), 7);
    assert_eq!(b, 0);
}

#[test]
fn box_stateful_mutating_function_identity_and_then_map() {
    let mut id = BoxStatefulMutatingFunction::<i32, i32>::identity();
    let mut x = 9;
    assert_eq!(id.apply(&mut x), 9);
    assert_eq!(x, 9);
    let mut chained = BoxStatefulMutatingFunction::new(|x: &mut i32| {
        *x += 1;
        *x
    })
    .and_then(|x: &mut i32| {
        *x *= 2;
        *x
    });
    assert_eq!(chained.apply(&mut x), 20);
    assert_eq!(x, 20);
    let mut mapped = BoxStatefulMutatingFunction::new(|x: &mut i32| {
        *x -= 5;
        *x
    })
    .map(|r: i32| r > 10);
    assert_eq!(mapped.apply(&mut x), true);
    assert_eq!(mapped.apply(&mut x), false);
    assert_eq!(x, 10);
}

#[test]
fn rc_stateful_mutating_function_clones_share_state() {
    let mut calls = 0;
    let f = RcStatefulMutatingFunction::new(move |x: &mut i32| {
        calls += 1;
        *x += calls;
        calls
    });
    let mut a = f.clone();
    let mut b = f.clone();
    let mut v = 0;
    assert_eq!(a.apply(&mut v), 1);
    assert_eq!(b.apply(&mut v), 2);
    assert_eq!(v, 3);
    let doubler = RcStatefulMutatingFunction::new(|x: &mut i32| {
        *x *= 2;
        *x
    });
    let mut chained = f.and_then(&doubler);
    assert_eq!(chained.apply(&mut v), 12);
    let mut mapped = f.map(|c: i32| c * 100);
    assert_eq!(mapped.apply(&mut v), 400);
    assert_eq!(v, 16);
    let mut id = RcStatefulMutatingFunction::<i32, i32>::identity();
    assert_eq!(id.apply(&mut v), 16);
}

#[test]
fn arc_stateful_mutating_function_shares_and_combines() {
    let f = ArcStatefulMutatingFunction::new(|x: &mut i32| {
        *x += 1;
        *x
    });
    let mut v = 0;
    let mut g = f.clone();
    assert_eq!(g.apply(&mut v), 1);
    let mut chained = f.and_then(&ArcStatefulMutatingFunction::new(|x: &mut i32| *x * 10));
    assert_eq!(chained.apply(&mut v), 20);
    let mut mapped = f.map(|r: i32| r - 1);
    assert_eq!(mapped.apply(&mut v), 2);
    let mut id = ArcStatefulMutatingFunction::<i32, i64>::identity();
    assert_eq!(id.apply(&mut v), 3i64);
    fn shareable<X: Send + Sync>(_: &X) {}
    shareable(&f);
}

#[test]
fn stateful_mutating_function_conversions_and_closure_ops() {
    let mut v = 1;
    assert_eq!((|x: &mut i32| { *x += 1; *x }).into_box().apply(&mut v), 2);
    assert_eq!((|x: &mut i32| { *x += 1; *x }).into_rc().apply(&mut v), 3);
    assert_eq!((|x: &mut i32| { *x += 1; *x }).into_arc().apply(&mut v), 4);
    let mut c = (|x: &mut i32| *x += 1).and_then(|x: &mut i32| *x * 2);
    assert_eq!(c.apply(&mut v), 10);
    let mut m = (|x: &mut i32| *x).map(|r: i32| r + 1);
    assert_eq!(m.apply(&mut v), 6);
}

#[test]
fn stateful_mutating_function_laws_on_values() {
    for start in -2..3 {
        let mut a = start;
        let mut b = start;
        let mut l = BoxStatefulMutatingFunction::new(|x: &mut i32| { *x += 1; *x })
            .and_then(|x: &mut i32| { *x *= 2; *x })
            .and_then(|x: &mut i32| { *x -= 3; *x });
        let mut r = BoxStatefulMutatingFunction::new(|x: &mut i32| { *x += 1; *x })
            .and_then(BoxStatefulMutatingFunction::new(|x: &mut i32| { *x *= 2; *x }).and_then(|x: &mut i32| { *x -= 3; *x }));
        assert_eq!(l.apply(&mut a), r.apply(&mut b));
        assert_eq!(a, b);
        let mut id = BoxStatefulMutatingFunction::<i32, i32>::identity();
        let mut c = start;
        assert_eq!(id.apply(&mut c), start);
        assert_eq!(c, start);
    }
}

#[test]
fn stateful_mutating_function_to_conversions_share_state() {
    let mut calls = 0;
    let f = RcStatefulMutatingFunction::new(move |x: &mut i32| {
        calls += 1;
        *x += calls;
        calls
    });
    let mut b = f.to_box();
    let mut r = f.to_rc();
    let mut v = 0;
    assert_eq!(b.apply(&mut v), 1);
    assert_eq!(r.apply(&mut v), 2);
    assert_eq!(v, 3);
    let a = ArcStatefulMutatingFunction::new(|x: &mut i32| *x * 2);
    assert_eq!(a.to_box().apply(&mut v), 6);
    assert_eq!(a.to_rc().apply(&mut v), 6);
    assert_eq!(a.to_arc().apply(&mut v), 6);
}
