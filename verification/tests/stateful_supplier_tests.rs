use prism3_function::stateful_supplier::{
    ArcStatefulSupplier, BoxStatefulSupplier, FnStatefulSupplierOps, IntoStatefulSupplier,
    RcStatefulSupplier, StatefulSupplier,
};

#[test]
fn stateful_closure_counter_supplier() {
    let mut n = 0;
    let mut s = move || {
        n += 1;
        n
    };
    assert_eq!(s.get(), 1);
    assert_eq!(s.get(), 2);
}

#[test]
fn stateful_box_supplier_constant_and_map() {
    let mut c = BoxStatefulSupplier::constant(5);
    assert_eq!(c.get(), 5);
    assert_eq!(c.get(), 5);
    let mut n = 0;
    let mut m = BoxStatefulSupplier::new(move || {
        n += 1;
        n
    })
    .map(|x: i32| x * 10)
    .map(|x: i32| x + 1);
    assert_eq!(m.get(), 11);
    assert_eq!(m.get(), 21);
}

#[test]
fn stateful_box_supplier_filter() {
    let mut n = 0;
    let mut evens = BoxStatefulSupplier::new(move || {
        n += 1;
        n
    })
    .filter(|x: &i32| x % 2 == 0);
    assert_eq!(evens.get(), None);
    assert_eq!(evens.get(), Some(2));
    assert_eq!(evens.get(), None);
    assert_eq!(evens.get(), Some(4));
}

#[test]
fn stateful_box_supplier_zip() {
    let mut z = BoxStatefulSupplier::new(|| 42).zip(BoxStatefulSupplier::new(|| "hello"));
    assert_eq!(z.get(), (42, "hello"));
}

#[test]
fn stateful_box_supplier_memoized_calls_source_once() {
    let mut calls = 0;
    let mut m = BoxStatefulSupplier::new(move || {
        calls += 1;
        calls * 100
    })
    .memoized();
    assert_eq!(m.get(), 100);
    assert_eq!(m.get(), 100);
    assert_eq!(m.get(), 100);
}

#[test]
fn stateful_rc_supplier_clones_share_state() {
    let mut n = 0;
    let s = RcStatefulSupplier::new(move || {
        n += 1;
        n
    });
    let mut a = s.clone();
    let mut b = s.clone();
    assert_eq!(a.get(), 1);
    assert_eq!(b.get(), 2);
    let mut m = s.map(|x: i32| x * 2);
    assert_eq!(m.get(), 6);
    let mut f = s.filter(|x: &i32| *x > 100);
    assert_eq!(f.get(), None);
    let mut z = s.zip(RcStatefulSupplier::constant('z'));
    assert_eq!(z.get(), (5, 'z'));
    let mut memo = s.memoized();
    assert_eq!(memo.get(), 6);
    assert_eq!(memo.get(), 6);
    assert_eq!(a.get(), 7);
}

#[test]
fn stateful_arc_supplier_shares_state() {
    let mut n = 0u32;
    let s = ArcStatefulSupplier::new(move || {
        n += 1;
        n
    });
    let mut a = s.clone();
    assert_eq!(a.get(), 1);
    let mut m = s.map(|x: u32| x + 10);
    assert_eq!(m.get(), 12);
    let mut f = s.filter(|x: &u32| x % 3 == 0);
    assert_eq!(f.get(), Some(3));
    let mut z = s.zip(ArcStatefulSupplier::constant(1u8));
    assert_eq!(z.get(), (4, 1));
    let mut memo = s.memoized();
    assert_eq!(memo.get(), 5);
    assert_eq!(memo.get(), 5);
    let mut c = ArcStatefulSupplier::constant(9);
    assert_eq!(c.get(), 9);
    fn shareable<X: Send + Sync>(_: &X) {}
    shareable(&s);
}

#[test]
fn stateful_supplier_conversions_and_closure_ops() {
    assert_eq!((|| 1).into_box().get(), 1);
    assert_eq!((|| 2).into_rc().get(), 2);
    assert_eq!((|| 3).into_arc().get(), 3);
    assert_eq!(BoxStatefulSupplier::new(|| 4).into_rc().get(), 4);
    assert_eq!(RcStatefulSupplier::new(|| 5).into_box().get(), 5);
    assert_eq!(ArcStatefulSupplier::new(|| 6).into_box().get(), 6);
    assert_eq!(ArcStatefulSupplier::new(|| 7).into_rc().get(), 7);
    assert_eq!((|| 2).map(|x: i32| x * 21).get(), 42);
    assert_eq!((|| 3).filter(|x: &i32| *x == 3).get(), Some(3));
    assert_eq!((|| 1).zip(BoxStatefulSupplier::constant(2)).get(), (1, 2));
    let mut n = 0;
    let mut memo = (move || {
        n += 1;
        n
    })
    .memoized();
    assert_eq!(memo.get(), 1);
    assert_eq!(memo.get(), 1);
}

#[test]
fn stateful_supplier_map_laws_on_values() {
    let mut ident = BoxStatefulSupplier::new(|| 8).map(|x: i32| x);
    assert_eq!(ident.get(), 8);
    let mut fused_a = BoxStatefulSupplier::new(|| 3).map(|x: i32| x + 1).map(|x: i32| x * 5);
    let mut fused_b = BoxStatefulSupplier::new(|| 3).map(|x: i32| (x + 1) * 5);
    assert_eq!(fused_a.get(), fused_b.get());
}

#[test]
fn stateful_supplier_to_conversions_keep_the_source() {
    let mut n = 0;
    let s = ArcStatefulSupplier::new(move || {
        n += 2;
        n
    });
    let mut b = s.to_box();
    assert_eq!(b.get(), 2);
    let mut r = s.to_rc();
    assert_eq!(r.get(), 4);
    let mut a = s.to_arc();
    assert_eq!(a.get(), 6);
    let rc = RcStatefulSupplier::new(|| 1);
    assert_eq!(rc.to_box().get(), 1);
    assert_eq!(rc.to_rc().get(), 1);
}
