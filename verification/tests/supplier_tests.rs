use prism3_function::supplier::{
    ArcSupplier, BoxSupplier, FnSupplierOps, IntoSupplier, RcSupplier, Supplier,
};

#[test]
fn closure_counter_supplier() {
    let mut n = 0;
    let mut s = move || {
        n += 1;
        n
    };
    assert_eq!(s.get(), 1);
    assert_eq!(s.get(), 2);
}

#[test]
fn box_supplier_constant_and_map() {
    let mut c = BoxSupplier::constant(5);
    assert_eq!(c.get(), 5);
    assert_eq!(c.get(), 5);
    let mut n = 0;
    let mut m = BoxSupplier::new(move || {
        n += 1;
        n
    })
    .map(|x: i32| x * 10)
    .map(|x: i32| x + 1);
    assert_eq!(m.get(), 11);
    assert_eq!(m.get(), 21);
}

#[test]
fn box_supplier_filter() {
    let mut n = 0;
    let mut evens = BoxSupplier::new(move || {
        n += 1;
        n
    })
    .filter(|x: &i32| x % 2 == 0);
    assert_eq!(evens.get(), None);
    assert_eq!(evens.get(), Some(2));
    assert_eq!(evens.get(), None);
    assert_eq!(evens.get(), Some(4));
}

#[test]
fn box_supplier_zip() {
    let mut z = BoxSupplier::new(|| 42).zip(BoxSupplier::new(|| "hello"));
    assert_eq!(z.get(), (42, "hello"));
}

#[test]
fn box_supplier_memoized_calls_source_once() {
    let mut calls = 0;
    let mut m = BoxSupplier::new(move || {
        calls += 1;
        calls * 100
    })
    .memoized();
    assert_eq!(m.get(), 100);
    assert_eq!(m.get(), 100);
    assert_eq!(m.get(), 100);
}

#[test]
fn rc_supplier_clones_share_state() {
    let mut n = 0;
    let s = RcSupplier::new(move || {
        n += 1;
        n
    });
    let mut a = s.clone();
    let mut b = s.clone();
    assert_eq!(a.get(), 1);
    assert_eq!(b.get(), 2);
    let mut m = s.map(|x: i32| x * 2);
    assert_eq!(m.get(), 6);
    let mut f = s.filter(|x: &i32| *x > 100);
    assert_eq!(f.get(), None);
    let mut z = s.zip(&RcSupplier::constant('z'));
    assert_eq!(z.get(), (5, 'z'));
    let mut memo = s.memoized();
    assert_eq!(memo.get(), 6);
    assert_eq!(memo.get(), 6);
    assert_eq!(a.get(), 7);
}

#[test]
fn arc_supplier_shares_state() {
    let mut n = 0u32;
    let s = ArcSupplier::new(move || {
        n += 1;
        n
    });
    let mut a = s.clone();
    assert_eq!(a.get(), 1);
    let mut m = s.map(|x: u32| x + 10);
    assert_eq!(m.get(), 12);
    let mut f = s.filter(|x: &u32| x % 3 == 0);
    assert_eq!(f.get(), Some(3));
    let mut z = s.zip(&ArcSupplier::constant(1u8));
    assert_eq!(z.get(), (4, 1));
    let mut memo = s.memoized();
    assert_eq!(memo.get(), 5);
    assert_eq!(memo.get(), 5);
    let mut c = ArcSupplier::constant(9);
    assert_eq!(c.get(), 9);
    fn shareable<X: Send + Sync>(_: &X) {}
    shareable(&s);
}

#[test]
fn supplier_conversions_and_closure_ops() {
    assert_eq!((|| 1).into_box().get(), 1);
    assert_eq!((|| 2).into_rc().get(), 2);
    assert_eq!((|| 3).into_arc().get(), 3);
    assert_eq!(BoxSupplier::new(|| 4).into_rc().get(), 4);
    assert_eq!(RcSupplier::new(|| 5).into_box().get(), 5);
    assert_eq!(ArcSupplier::new(|| 6).into_box().get(), 6);
    assert_eq!(ArcSupplier::new(|| 7).into_rc().get(), 7);
    assert_eq!((|| 2).map(|x: i32| x * 21).get(), 42);
    assert_eq!((|| 3).filter(|x: &i32| *x == 3).get(), Some(3));
    assert_eq!((|| 1).zip(BoxSupplier::constant(2)).get(), (1, 2));
    let mut n = 0;
    let mut memo = (move || {
        n += 1;
        n
    })
    .memoized();
    assert_eq!(memo.get(), 1);
    assert_eq!(memo.get(), 1);
}

#[test]
fn supplier_map_laws_on_values() {
    let mut ident = BoxSupplier::new(|| 8).map(|x: i32| x);
    assert_eq!(ident.get(), 8);
    let mut fused_a = BoxSupplier::new(|| 3).map(|x: i32| x + 1).map(|x: i32| x * 5);
    let mut fused_b = BoxSupplier::new(|| 3).map(|x: i32| (x + 1) * 5);
    assert_eq!(fused_a.get(), fused_b.get());
}

#[test]
fn supplier_to_conversions_keep_the_source() {
    let mut n = 0;
    let s = RcSupplier::new(move || {
        n += 1;
        n
    });
    let mut b = s.to_box();
    let mut r = s.to_rc();
    assert_eq!(b.get(), 1);
    assert_eq!(r.get(), 2);
    let mut again = s.clone();
    assert_eq!(again.get(), 3);
    let a = ArcSupplier::new(|| 5);
    assert_eq!(a.to_box().get(), 5);
    assert_eq!(a.to_rc().get(), 5);
    assert_eq!(a.to_arc().get(), 5);
    let c = || 6;
    assert_eq!(c.to_box().get(), 6);
    assert_eq!(c.to_rc().get(), 6);
    assert_eq!(c.to_arc().get(), 6);
}

#[test]
fn supplier_single_value_laws_on_values() {
    assert_eq!(BoxSupplier::new(|| 10).map(|x: i32| x * 2).map(|x: i32| x + 5).get(), 25);
    assert_eq!(BoxSupplier::new(|| 10).filter(|x: &i32| *x > 5).get(), Some(10));
    assert_eq!(BoxSupplier::new(|| 10).filter(|x: &i32| *x > 50).get(), None);
    assert_eq!(BoxSupplier::new(|| 1).zip(BoxSupplier::new(|| 'x')).get(), (1, 'x'));
    let mut c = BoxSupplier::constant(String::from("same"));
    for _ in 0..3 {
        assert_eq!(c.get(), "same");
    }
}

#[test]
fn memoized_supplier_repeats_its_first_value() {
    let mut n = 0;
    let mut m = BoxSupplier::new(move || {
        n += 1;
        vec![n]
    })
    .memoized();
    let first = m.get();
    for _ in 0..4 {
        assert_eq!(m.get(), first);
    }
    assert_eq!(first, vec![1]);
    let mut k = 0;
    let r = RcSupplier::new(move || {
        k += 1;
        k
    })
    .memoized();
    let mut a = r.clone();
    let mut b = r.clone();
    assert_eq!(a.get(), 1);
    assert_eq!(b.get(), 1);
}
