use prism3_function::supplier_once::{BoxSupplierOnce, IntoSupplierOnce, SupplierOnce};

#[test]
fn box_supplier_once_moves_its_value_out() {
    let data = vec![1, 2, 3];
    let s = BoxSupplierOnce::new(move || data);
    assert_eq!(s.get(), vec![1, 2, 3]);
}

#[test]
fn closure_and_boxed_supplier_once() {
    let name = String::from("once");
    let f = move || name;
    assert_eq!(f.get(), "once");
    let b = (|| 7).into_box_once();
    assert_eq!(b.get(), 7);
    let nested = BoxSupplierOnce::new(|| 8).into_box_once();
    assert_eq!(nested.get(), 8);
}
