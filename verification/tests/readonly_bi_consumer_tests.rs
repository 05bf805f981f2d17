use prism3_function::readonly_bi_consumer::{
    ArcReadonlyBiConsumer, BoxReadonlyBiConsumer, FnReadonlyBiConsumerOps, IntoReadonlyBiConsumer,
    RcReadonlyBiConsumer, ReadonlyBiConsumer,
};
use std::cell::RefCell;
use std::rc::Rc;
use std::sync::{Arc, Mutex};

#[test]
fn box_readonly_bi_consumer_chain_runs_in_order() {
    let log = Rc::new(RefCell::new(Vec::new()));
    let l1 = log.clone();
    let l2 = log.clone();
    let c = BoxReadonlyBiConsumer::new(move |x: &i32, y: &i32| l1.borrow_mut().push(*x + *y))
        .and_then(move |x: &i32, y: &i32| l2.borrow_mut().push(*x * *y));
    c.accept(&3, &1);
    c.accept(&4, &1);
    assert_eq!(*log.borrow(), vec![4, 3, 5, 4]);
    assert_eq!(c.name(), None);
}

#[test]
fn box_readonly_bi_consumer_names_and_noop() {
    let mut c = BoxReadonlyBiConsumer::<i32, i32>::noop();
    assert_eq!(c.name(), None);
    c.set_name("printer");
    assert_eq!(c.name(), Some("printer"));
    c.accept(&1, &1);
    let mut named = BoxReadonlyBiConsumer::new(|_: &i32, _: &i32| {});
    named.set_name(String::from("sink"));
    assert_eq!(named.name(), Some("sink"));
}

#[test]
fn rc_readonly_bi_consumer_shares_and_chains() {
    let log = Rc::new(RefCell::new(Vec::new()));
    let l1 = log.clone();
    let l2 = log.clone();
    let a = RcReadonlyBiConsumer::new(move |x: &i32, y: &i32| l1.borrow_mut().push(*x + *y));
    let b = RcReadonlyBiConsumer::new(move |x: &i32, y: &i32| l2.borrow_mut().push(-(*x) - *y));
    let ab = a.and_then(&b);
    ab.accept(&2, &1);
    a.accept(&5, &1);
    a.clone().accept(&6, &1);
    let f = |x: &i32, y: &i32| b.accept(x, y);
    f(&7, &1);
    assert_eq!(*log.borrow(), vec![3, -3, 6, 7, -8]);
    let mut n = a.clone();
    n.set_name("rc");
    assert_eq!(n.name(), Some("rc"));
    assert_eq!(a.name(), None);
}

#[test]
fn arc_readonly_bi_consumer_shares_and_chains() {
    let log = Arc::new(Mutex::new(Vec::new()));
    let l1 = log.clone();
    let l2 = log.clone();
    let a = ArcReadonlyBiConsumer::new(move |x: &i32, y: &i32| l1.lock().unwrap().push(*x + *y));
    let b = ArcReadonlyBiConsumer::new(move |x: &i32, y: &i32| l2.lock().unwrap().push(*x + *y + 100));
    let ab = a.and_then(&b);
    ab.accept(&1, &1);
    let f = |x: &i32, y: &i32| a.accept(x, y);
    f(&2, &1);
    assert_eq!(*log.lock().unwrap(), vec![2, 102, 3]);
    let mut n = ab.clone();
    n.set_name("arc");
    assert_eq!(n.name(), Some("arc"));
    fn shareable<X: Send + Sync>(_: &X) {}
    shareable(&ab);
}

#[test]
fn readonly_bi_consumer_conversions_and_closure_ops() {
    let log = Rc::new(RefCell::new(Vec::new()));
    let l1 = log.clone();
    let l2 = log.clone();
    let l3 = log.clone();
    (move |x: &i32, y: &i32| l1.borrow_mut().push(*x + *y)).into_box().accept(&1, &1);
    (move |x: &i32, y: &i32| l2.borrow_mut().push(*x + *y)).into_rc().accept(&2, &1);
    let c = (move |x: &i32, y: &i32| l3.borrow_mut().push(*x + *y)).and_then(|_: &i32, _: &i32| {});
    c.accept(&3, &1);
    assert_eq!(*log.borrow(), vec![2, 3, 4]);
    let counter = Arc::new(Mutex::new(0));
    let k = counter.clone();
    let arc = (move |x: &i32, y: &i32| *k.lock().unwrap() += *x * *y).into_arc();
    arc.accept(&5, &1);
    arc.clone().into_box().accept(&6, &1);
    arc.into_rc().accept(&7, &1);
    assert_eq!(*counter.lock().unwrap(), 18);
}

#[test]
fn readonly_bi_consumer_to_conversions_share_the_consumer() {
    let log = Arc::new(Mutex::new(Vec::new()));
    let l = log.clone();
    let a = ArcReadonlyBiConsumer::new(move |x: &i32, y: &i32| l.lock().unwrap().push(*x - *y));
    a.to_box().accept(&5, &1);
    a.to_rc().accept(&6, &1);
    a.to_arc().accept(&7, &1);
    assert_eq!(*log.lock().unwrap(), vec![4, 5, 6]);
}

#[test]
fn readonly_bi_consumers_show_their_names() {
    let mut b = BoxReadonlyBiConsumer::new(|_: &i32, _: &i32| {});
    assert_eq!(b.to_string(), "BoxReadonlyBiConsumer");
    b.set_name("pair");
    assert_eq!(b.to_string(), "BoxReadonlyBiConsumer(pair)");
    let r = RcReadonlyBiConsumer::<i32, i32>::noop();
    assert_eq!(r.to_string(), "RcReadonlyBiConsumer");
    let mut a = ArcReadonlyBiConsumer::<i32, i32>::noop();
    a.set_name("arc");
    assert_eq!(a.to_string(), "ArcReadonlyBiConsumer(arc)");
}
