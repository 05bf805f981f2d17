use prism3_function::functions::mutating_function_once::{
    BoxMutatingFunctionOnce, FnOnceMutatingFunctionOps, IntoMutatingFunctionOnce,
    MutatingFunctionOnce,
};

#[test]
fn box_mutating_function_once_changes_and_returns() {
    let extra = vec![9];
    let f = BoxMutatingFunctionOnce::new(move |v: &mut Vec<i32>| {
        v.extend(extra);
        v.len()
    });
    let mut v = vec![1];
    assert_eq!(f.apply_once(&mut v), 2);
    assert_eq!(v, vec![1, 9]);
}

#[test]
fn mutating_function_once_identity_and_then_map() {
    let id = BoxMutatingFunctionOnce::<i32, i64>::identity();
    let mut x = 5;
    assert_eq!(id.apply_once(&mut x), 5i64);
    assert_eq!(x, 5);
    let chained = BoxMutatingFunctionOnce::new(|x: &mut i32| {
        *x += 1;
        *x
    })
    .and_then(|x: &mut i32| {
        *x *= 2;
        *x
    });
    assert_eq!(chained.apply_once(&mut x), 12);
    assert_eq!(x, 12);
    let mapped = BoxMutatingFunctionOnce::new(|x: &mut i32| {
        *x -= 2;
        *x
    })
    .map(|r: i32| r.to_string());
    assert_eq!(mapped.apply_once(&mut x), "10");
    assert_eq!(x, 10);
}

#[test]
fn mutating_function_once_closure_ops() {
    let mut x = 1;
    let f = (|x: &mut i32| {
        *x += 1;
        *x
    })
    .into_box_once();
    assert_eq!(f.apply_once(&mut x), 2);
    let g = (|x: &mut i32| {
        *x *= 3;
        *x
    })
    .map(|r: i32| r + 100);
    assert_eq!(g.apply_once(&mut x), 106);
    assert_eq!(x, 6);
    let h = (|x: &mut i32| *x += 1).and_then(|x: &mut i32| *x);
    assert_eq!(h.apply_once(&mut x), 7);
    let plain = |x: &mut i32| std::mem::replace(x, 0);
    assert_eq!(plain.apply_once(&mut x), 7);
    assert_eq!(x, 0);
}

#[test]
fn mutating_function_once_to_box_once_keeps_the_source() {
    let f = |x: &mut i32| {
        *x += 1;
        *x
    };
    let b = f.to_box_once();
    let mut v = 1;
    assert_eq!(b.apply_once(&mut v), 2);
    assert_eq!(f.apply_once(&mut v), 3);
}

#[test]
fn mutating_function_once_laws_on_values() {
    for start in -2..3 {
        let mut a = start;
        let mut b = start;
        let l = BoxMutatingFunctionOnce::new(|x: &mut i32| { *x += 1; *x })
            .and_then(|x: &mut i32| { *x *= 2; *x })
            .and_then(|x: &mut i32| { *x -= 3; *x });
        let r = BoxMutatingFunctionOnce::new(|x: &mut i32| { *x += 1; *x })
            .and_then(BoxMutatingFunctionOnce::new(|x: &mut i32| { *x *= 2; *x }).and_then(|x: &mut i32| { *x -= 3; *x }));
        assert_eq!(l.apply_once(&mut a), r.apply_once(&mut b));
        assert_eq!(a, b);
        let mut c = start;
        assert_eq!(BoxMutatingFunctionOnce::<i32, i32>::identity().apply_once(&mut c), start);
        assert_eq!(c, start);
    }
}
