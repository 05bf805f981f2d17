use prism3_function::stateful_function::{
    ArcStatefulFunction, BoxStatefulFunction, FnStatefulFunctionOps, IntoStatefulFunction,
    RcStatefulFunction, StatefulFunction,
};

#[test]
fn stateful_function_borrows_input() {
    let mut seen = 0;
    let mut f = BoxStatefulFunction::new(move |x: &String| {
        seen += 1;
        x.len() + seen
    });
    let s = String::from("hey");
    assert_eq!(f.apply(&s), 4);
    assert_eq!(f.apply(&s), 5);
    assert_eq!(s, "hey");
    let mut id = BoxStatefulFunction::<String, String>::identity();
    assert_eq!(id.apply(&s), "hey");
    let mut k = BoxStatefulFunction::<String, u8>::constant(3);
    assert_eq!(k.apply(&s), 3);
    let mut chain = BoxStatefulFunction::new(|x: &i32| x + 1).and_then(|x: &i32| x * 2);
    assert_eq!(chain.apply(&1), 4);
    let mut comp = BoxStatefulFunction::new(|x: &i32| x + 1).compose(|x: &i32| x * 2);
    assert_eq!(comp.apply(&1), 3);
    let mut cond = BoxStatefulFunction::new(|x: &i32| x + 1).when(|x: &i32| *x > 0).or_else(|_: &i32| 0);
    assert_eq!(cond.apply(&1), 2);
    assert_eq!(cond.apply(&-1), 0);
}

#[test]
fn shared_stateful_functions() {
    let mut total = 0;
    let r = RcStatefulFunction::new(move |x: &i32| {
        total += *x;
        total
    });
    let mut r1 = r.clone();
    let mut r2 = r.clone();
    assert_eq!(r1.apply(&5), 5);
    assert_eq!(r2.apply(&5), 10);
    let mut rc_chain = r.and_then(|x: &i32| x * 100);
    assert_eq!(rc_chain.apply(&1), 1100);
    let mut rid = RcStatefulFunction::<i32, i32>::identity();
    assert_eq!(rid.apply(&3), 3);
    let mut a = ArcStatefulFunction::new(|x: &i32| x * 2);
    assert_eq!(a.apply(&4), 8);
    let mut ac = a.compose(|x: &i32| x + 1);
    assert_eq!(ac.apply(&4), 10);
    let mut aw = a.clone().when(|x: &i32| *x < 0).or_else(|x: &i32| *x);
    assert_eq!(aw.apply(&-4), -8);
    assert_eq!(aw.apply(&4), 4);
    let mut ops = (|x: &i32| x + 1).and_then(|x: &i32| x * 3);
    assert_eq!(ops.apply(&0), 3);
    let mut boxed = (|x: &i32| x - 1).into_box();
    assert_eq!(boxed.apply(&0), -1);
    let mut arcd = (|x: &i32| x - 2).into_arc();
    assert_eq!(arcd.apply(&0), -2);
}

#[test]
fn stateful_function_to_conversions_keep_the_source() {
    let a = ArcStatefulFunction::new(|x: &i32| x + 1);
    assert_eq!(a.to_box().apply(&1), 2);
    assert_eq!(a.to_rc().apply(&1), 2);
    assert_eq!(a.to_arc().apply(&1), 2);
    let r = RcStatefulFunction::new(|x: &i32| x * 2);
    assert_eq!(r.to_box().apply(&4), 8);
    assert_eq!(r.to_rc().apply(&4), 8);
}
