use prism3_function::mapper::{ArcMapper, BoxMapper, FnMapperOps, IntoMapper, Mapper, RcMapper};

#[test]
fn closure_mapper_counts_calls() {
    let mut count = 0;
    let mut m = BoxMapper::new(move |x: i32| {
        count += 1;
        x + count
    });
    assert_eq!(m.apply(10), 11);
    assert_eq!(m.apply(10), 12);
}

#[test]
fn box_mapper_composition() {
    let mut id = BoxMapper::<i32, i32>::identity();
    assert_eq!(id.apply(7), 7);
    let mut c = BoxMapper::<i32, i32>::constant(42);
    assert_eq!(c.apply(1), 42);
    assert_eq!(c.apply(2), 42);
    let mut chained = BoxMapper::new(|x: i32| x + 1).and_then(|x: i32| x * 2);
    assert_eq!(chained.apply(3), 8);
    let mut composed = BoxMapper::new(|x: i32| x + 1).compose(|x: i32| x * 2);
    assert_eq!(composed.apply(3), 7);
    let mut cond = BoxMapper::new(|x: i32| x * 10)
        .when(|x: &i32| *x > 0)
        .or_else(|x: i32| -x);
    assert_eq!(cond.apply(3), 30);
    assert_eq!(cond.apply(-3), 3);
}

#[test]
fn rc_mapper_clones_share_state() {
    let mut count = 0;
    let m = RcMapper::new(move |x: i32| {
        count += 1;
        x * count
    });
    let mut a = m.clone();
    let mut b = m.clone();
    assert_eq!(a.apply(10), 10);
    assert_eq!(b.apply(10), 20);
    let mut chained = m.and_then(|x: i32| x + 1);
    assert_eq!(chained.apply(10), 31);
    let mut composed = m.compose(|x: i32| x - 1);
    assert_eq!(composed.apply(11), 40);
    let mut id = RcMapper::<i32, i32>::identity();
    assert_eq!(id.apply(5), 5);
    let mut k = RcMapper::<i32, &str>::constant("k");
    assert_eq!(k.apply(5), "k");
    let mut cond = RcMapper::new(|x: i32| x + 100).when(|x: &i32| *x % 2 == 0).or_else(|x: i32| x);
    assert_eq!(cond.apply(2), 102);
    assert_eq!(cond.apply(3), 3);
}

#[test]
fn arc_mapper_composition() {
    let m = ArcMapper::new(|x: i32| x * 3);
    let mut chained = m.and_then(|x: i32| x + 1);
    assert_eq!(chained.apply(2), 7);
    let mut composed = m.compose(|x: i32| x + 1);
    assert_eq!(composed.apply(2), 9);
    let mut id = ArcMapper::<u8, u8>::identity();
    assert_eq!(id.apply(9), 9);
    let mut k = ArcMapper::<u8, u32>::constant(77);
    assert_eq!(k.apply(1), 77);
    let mut cond = m.clone().when(|x: &i32| *x > 5).or_else(|x: i32| 0 - x);
    assert_eq!(cond.apply(6), 18);
    assert_eq!(cond.apply(1), -1);
    fn shareable<X: Send + Sync>(_: &X) {}
    shareable(&m);
}

#[test]
fn mapper_conversions_keep_behaviour() {
    let mut r = (|x: i32| x + 5).into_rc();
    assert_eq!(r.apply(1), 6);
    let mut a = (|x: i32| x + 6).into_arc();
    assert_eq!(a.apply(1), 7);
    let mut b = BoxMapper::new(|x: i32| x - 1).into_rc();
    assert_eq!(b.apply(1), 0);
    let mut ab = a.into_box();
    assert_eq!(ab.apply(2), 8);
}

#[test]
fn fn_mapper_ops_on_closures() {
    let mut m = (|x: i32| x + 1).and_then(|x: i32| x * 10);
    assert_eq!(m.apply(1), 20);
    let mut n = (|x: i32| x + 1).compose(|x: i32| x * 10);
    assert_eq!(n.apply(1), 11);
    let mut w = (|x: i32| x + 1).when(|x: &i32| *x == 0).or_else(|x: i32| x);
    assert_eq!(w.apply(0), 1);
    assert_eq!(w.apply(5), 5);
}

#[test]
fn identity_and_associativity_laws_on_values() {
    for v in -5..5 {
        let mut left = BoxMapper::<i32, i32>::identity().and_then(|x: i32| x * 7);
        let mut plain = BoxMapper::new(|x: i32| x * 7);
        assert_eq!(left.apply(v), plain.apply(v));
        let mut right = BoxMapper::new(|x: i32| x * 7).and_then(BoxMapper::<i32, i32>::identity());
        assert_eq!(right.apply(v), 7 * v);
        let mut ab_c = BoxMapper::new(|x: i32| x + 1).and_then(|x: i32| x * 2).and_then(|x: i32| x - 3);
        let mut a_bc = BoxMapper::new(|x: i32| x + 1).and_then(BoxMapper::new(|x: i32| x * 2).and_then(|x: i32| x - 3));
        assert_eq!(ab_c.apply(v), a_bc.apply(v));
        let mut always = BoxMapper::new(|x: i32| x * 2).when(|_: &i32| true).or_else(|_: i32| 0);
        assert_eq!(always.apply(v), 2 * v);
    }
}

#[test]
fn mapper_to_conversions_keep_the_source() {
    let mut count = 0;
    let m = RcMapper::new(move |x: i32| {
        count += 1;
        x + count
    });
    let mut b = m.to_box();
    let mut r = m.to_rc();
    assert_eq!(b.apply(10), 11);
    assert_eq!(r.apply(10), 12);
    let a = ArcMapper::new(|x: i32| x * 4);
    assert_eq!(a.to_box().apply(2), 8);
    assert_eq!(a.to_rc().apply(2), 8);
    assert_eq!(a.to_arc().apply(2), 8);
    let c = |x: i32| x - 1;
    assert_eq!(c.to_box().apply(2), 1);
}
