use prism3_function::mutator::{
    ArcMutator, BoxMutator, FnMutatorOps, IntoMutator, Mutator, RcMutator,
};

#[test]
fn closure_is_a_mutator() {
    let mut double = |x: &mut i32| *x *= 2;
    let mut v = 5;
    double.mutate(&mut v);
    assert_eq!(v, 10);
}

#[test]
fn box_mutator_chain_runs_in_order() {
    let mut m = BoxMutator::new(|x: &mut i32| *x *= 2).and_then(|x: &mut i32| *x += 10);
    let mut v = 5;
    m.mutate(&mut v);
    assert_eq!(v, 20);
    let mut n = BoxMutator::<i32>::noop();
    n.mutate(&mut v);
    assert_eq!(v, 20);
}

#[test]
fn box_mutator_when_and_or_else() {
    let mut w = BoxMutator::new(|x: &mut i32| *x *= 2).when(|x: &i32| *x > 0);
    let mut a = 5;
    w.mutate(&mut a);
    assert_eq!(a, 10);
    let mut b = -5;
    w.mutate(&mut b);
    assert_eq!(b, -5);
    let mut e = BoxMutator::new(|x: &mut i32| *x *= 2)
        .when(|x: &i32| *x > 0)
        .or_else(|x: &mut i32| *x = 0);
    let mut c = 3;
    e.mutate(&mut c);
    assert_eq!(c, 6);
    let mut d = -3;
    e.mutate(&mut d);
    assert_eq!(d, 0);
    let mut t = BoxMutator::new(|x: &mut i32| *x += 1)
        .when(|x: &i32| *x % 2 == 0)
        .and_then(|x: &mut i32| *x *= 100);
    let mut f = 2;
    t.mutate(&mut f);
    assert_eq!(f, 300);
    let mut g = 3;
    t.mutate(&mut g);
    assert_eq!(g, 300);
}

#[test]
fn rc_mutator_clones_share_state() {
    let mut calls = 0;
    let m = RcMutator::new(move |x: &mut i32| {
        calls += 1;
        *x += calls;
    });
    let mut a = m.clone();
    let mut b = m.clone();
    let mut v = 0;
    a.mutate(&mut v);
    assert_eq!(v, 1);
    b.mutate(&mut v);
    assert_eq!(v, 3);
    let mut chained = m.and_then(&RcMutator::new(|x: &mut i32| *x *= 10));
    chained.mutate(&mut v);
    assert_eq!(v, 60);
    let mut cond = RcMutator::new(|x: &mut i32| *x = -*x)
        .when(|x: &i32| *x < 0)
        .or_else(|x: &mut i32| *x += 1);
    let mut p = -4;
    cond.mutate(&mut p);
    assert_eq!(p, 4);
    cond.mutate(&mut p);
    assert_eq!(p, 5);
    let mut n = RcMutator::<i32>::noop();
    n.mutate(&mut p);
    assert_eq!(p, 5);
}

#[test]
fn arc_mutator_shares_and_combines() {
    let m = ArcMutator::new(|x: &mut Vec<i32>| x.push(1));
    let mut chained = m.and_then(&ArcMutator::new(|x: &mut Vec<i32>| x.push(2)));
    let mut v = Vec::new();
    chained.mutate(&mut v);
    assert_eq!(v, vec![1, 2]);
    let mut cond = m
        .clone()
        .when(|x: &Vec<i32>| x.len() < 3)
        .or_else(|x: &mut Vec<i32>| x.clear());
    cond.mutate(&mut v);
    assert_eq!(v, vec![1, 2, 1]);
    cond.mutate(&mut v);
    assert!(v.is_empty());
    let mut n = ArcMutator::<Vec<i32>>::noop();
    n.mutate(&mut v);
    assert!(v.is_empty());
    fn shareable<X: Send + Sync>(_: &X) {}
    shareable(&m);
}

#[test]
fn mutator_conversions_and_closure_ops() {
    let mut v = 1;
    (|x: &mut i32| *x += 1).into_box().mutate(&mut v);
    (|x: &mut i32| *x += 1).into_rc().mutate(&mut v);
    (|x: &mut i32| *x += 1).into_arc().mutate(&mut v);
    assert_eq!(v, 4);
    BoxMutator::new(|x: &mut i32| *x *= 3).into_rc().mutate(&mut v);
    assert_eq!(v, 12);
    RcMutator::new(|x: &mut i32| *x -= 2).into_box().mutate(&mut v);
    assert_eq!(v, 10);
    let mut c = (|x: &mut i32| *x += 5).and_then(|x: &mut i32| *x *= 2);
    c.mutate(&mut v);
    assert_eq!(v, 30);
}

#[test]
fn mutator_laws_on_values() {
    for start in -3..3 {
        let mut a = start;
        let mut b = start;
        BoxMutator::<i32>::noop().and_then(|x: &mut i32| *x *= 7).mutate(&mut a);
        (|x: &mut i32| *x *= 7).mutate(&mut b);
        assert_eq!(a, b);
        let mut never = start;
        BoxMutator::new(|x: &mut i32| *x += 1).when(|_: &i32| false).mutate(&mut never);
        assert_eq!(never, start);
        let mut l = start;
        let mut r = start;
        BoxMutator::new(|x: &mut i32| *x += 1)
            .and_then(|x: &mut i32| *x *= 2)
            .and_then(|x: &mut i32| *x -= 3)
            .mutate(&mut l);
        BoxMutator::new(|x: &mut i32| *x += 1)
            .and_then(BoxMutator::new(|x: &mut i32| *x *= 2).and_then(|x: &mut i32| *x -= 3))
            .mutate(&mut r);
        assert_eq!(l, r);
    }
}

#[test]
fn conditional_mutators_in_a_chain_cap_values() {
    let cond1 = BoxMutator::new(|x: &mut i32| *x *= 2).when(|x: &i32| *x > 0);
    let cond2 = BoxMutator::new(|x: &mut i32| *x = 100).when(|x: &i32| *x > 100);
    let mut chained = cond1.and_then(cond2);
    let mut value = 60;
    chained.mutate(&mut value);
    assert_eq!(value, 100);
    let mut cond3 = BoxMutator::new(|x: &mut i32| *x = 100).when(|x: &i32| *x > 100);
    let mut value2 = 50;
    cond3.mutate(&mut value2);
    assert_eq!(value2, 50);
}

#[test]
fn conditional_mutator_or_else_takes_the_else_branch_at_zero() {
    let mut m = BoxMutator::new(|x: &mut i32| *x *= 2)
        .when(|x: &i32| *x > 0)
        .or_else(|x: &mut i32| *x -= 1);
    let (mut a, mut b, mut z) = (5, -5, 0);
    m.mutate(&mut a);
    m.mutate(&mut b);
    m.mutate(&mut z);
    assert_eq!((a, b, z), (10, -6, -1));
}
