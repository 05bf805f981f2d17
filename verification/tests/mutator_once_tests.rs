use prism3_function::mutator_once::{
    BoxMutatorOnce, FnMutatorOnceOps, IntoMutatorOnce, MutatorOnce,
};

#[test]
fn box_mutator_once_moves_captured_data() {
    let extra = vec![3, 4];
    let m = BoxMutatorOnce::new(move |x: &mut Vec<i32>| x.extend(extra));
    let mut v = vec![1, 2];
    m.mutate(&mut v);
    assert_eq!(v, vec![1, 2, 3, 4]);
}

#[test]
fn box_mutator_once_chain_and_noop() {
    let tail = String::from("!");
    let m = BoxMutatorOnce::new(|s: &mut String| s.push_str("hi"))
        .and_then(move |s: &mut String| s.push_str(&tail));
    let mut s = String::new();
    m.mutate(&mut s);
    assert_eq!(s, "hi!");
    BoxMutatorOnce::<String>::noop().mutate(&mut s);
    assert_eq!(s, "hi!");
}

#[test]
fn mutator_once_conversions_and_closure_ops() {
    let mut v = 2;
    (|x: &mut i32| *x *= 5).into_box().mutate(&mut v);
    assert_eq!(v, 10);
    (|x: &mut i32| *x += 1).and_then(|x: &mut i32| *x *= 2).mutate(&mut v);
    assert_eq!(v, 22);
    let once = |x: &mut i32| *x = 0;
    once.mutate(&mut v);
    assert_eq!(v, 0);
}

#[test]
fn mutator_once_laws_on_values() {
    for start in -2..3 {
        let mut a = start;
        let mut b = start;
        BoxMutatorOnce::<i32>::noop().and_then(|x: &mut i32| *x *= 7).mutate(&mut a);
        BoxMutatorOnce::new(|x: &mut i32| *x *= 7).and_then(BoxMutatorOnce::<i32>::noop()).mutate(&mut b);
        assert_eq!(a, 7 * start);
        assert_eq!(b, 7 * start);
        let mut l = start;
        let mut r = start;
        BoxMutatorOnce::new(|x: &mut i32| *x += 1)
            .and_then(|x: &mut i32| *x *= 2)
            .and_then(|x: &mut i32| *x -= 3)
            .mutate(&mut l);
        BoxMutatorOnce::new(|x: &mut i32| *x += 1)
            .and_then(BoxMutatorOnce::new(|x: &mut i32| *x *= 2).and_then(|x: &mut i32| *x -= 3))
            .mutate(&mut r);
        assert_eq!(l, r);
    }
}
