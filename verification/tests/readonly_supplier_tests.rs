use prism3_function::readonly_supplier::{
    ArcReadonlySupplier, BoxReadonlySupplier, IntoReadonlySupplier, RcReadonlySupplier,
    ReadonlySupplier,
};

#[test]
fn closure_is_a_readonly_supplier() {
    let s = || 42;
    assert_eq!(s.get(), 42);
    assert_eq!(s.get(), 42);
}

#[test]
fn box_readonly_supplier_constant_map_filter_zip() {
    let c = BoxReadonlySupplier::constant(String::from("hi"));
    assert_eq!(c.get(), "hi");
    assert_eq!(c.get(), "hi");
    let m = BoxReadonlySupplier::new(|| 10).map(|x: i32| x * 2);
    assert_eq!(m.get(), 20);
    let even = BoxReadonlySupplier::new(|| 4).filter(|x: &i32| x % 2 == 0);
    assert_eq!(even.get(), Some(4));
    let odd = BoxReadonlySupplier::new(|| 5).filter(|x: &i32| x % 2 == 0);
    assert_eq!(odd.get(), None);
    let z = BoxReadonlySupplier::new(|| 1).zip(BoxReadonlySupplier::new(|| "one"));
    assert_eq!(z.get(), (1, "one"));
}

#[test]
fn rc_readonly_supplier_shares_and_combines() {
    let s = RcReadonlySupplier::new(|| 7);
    let t = s.clone();
    assert_eq!(s.get(), 7);
    assert_eq!(t.get(), 7);
    let m = s.map(|x: i32| x + 1);
    assert_eq!(m.get(), 8);
    assert_eq!(s.get(), 7);
    let f = s.filter(|x: &i32| *x > 10);
    assert_eq!(f.get(), None);
    let z = s.zip(&RcReadonlySupplier::constant('a'));
    assert_eq!(z.get(), (7, 'a'));
    let b = s.to_box();
    assert_eq!(b.get(), 7);
}

#[test]
fn arc_readonly_supplier_shares_and_combines() {
    let s = ArcReadonlySupplier::new(|| 3u64);
    let m = s.map(|x: u64| x * x);
    assert_eq!(m.get(), 9);
    let f = s.filter(|x: &u64| *x == 3);
    assert_eq!(f.get(), Some(3));
    let z = s.zip(&ArcReadonlySupplier::constant(true));
    assert_eq!(z.get(), (3, true));
    assert_eq!(s.to_box().get(), 3);
    assert_eq!(s.to_rc().get(), 3);
    assert_eq!(s.clone().get(), 3);
    fn shareable<X: Send + Sync>(_: &X) {}
    shareable(&s);
}

#[test]
fn readonly_supplier_conversions() {
    assert_eq!((|| 1).into_box().get(), 1);
    assert_eq!((|| 2).into_rc().get(), 2);
    assert_eq!((|| 3).into_arc().get(), 3);
    assert_eq!(BoxReadonlySupplier::new(|| 4).into_rc().get(), 4);
    assert_eq!(RcReadonlySupplier::new(|| 5).into_box().get(), 5);
    assert_eq!(ArcReadonlySupplier::new(|| 6).into_rc().get(), 6);
    assert_eq!(ArcReadonlySupplier::new(|| 7).into_box().get(), 7);
}

#[test]
fn readonly_supplier_laws_on_values() {
    let s = BoxReadonlySupplier::new(|| 11).map(|x: i32| x);
    assert_eq!(s.get(), 11);
    let f = BoxReadonlySupplier::new(|| 12).filter(|_: &i32| true);
    assert_eq!(f.get(), Some(12));
}

#[test]
fn readonly_supplier_to_conversions_of_closures() {
    let c = || 9;
    assert_eq!(c.to_box().get(), 9);
    assert_eq!(c.to_rc().get(), 9);
    assert_eq!(c.to_arc().get(), 9);
    assert_eq!(c.get(), 9);
}
