use prism3_function::stateful_supplier::{
    ArcStatefulSupplier, BoxStatefulSupplier, RcStatefulSupplier,
};
use prism3_function::supplier_once::{IntoSupplierOnce, SupplierOnce};

#[test]
fn stateful_suppliers_used_once() {
    let b = BoxStatefulSupplier::new(|| 10);
    assert_eq!(b.get(), 10);
    let mut n = 0;
    let r = RcStatefulSupplier::new(move || {
        n += 1;
        n
    });
    let other = r.clone();
    assert_eq!(r.get(), 1);
    assert_eq!(other.get(), 2);
    let a = ArcStatefulSupplier::new(|| String::from("arc"));
    assert_eq!(a.into_box_once().get(), "arc");
    assert_eq!(BoxStatefulSupplier::constant(3).into_box_once().get(), 3);
}
