use prism3_function::readonly_consumer::{
    ArcReadonlyConsumer, BoxReadonlyConsumer, FnReadonlyConsumerOps, IntoReadonlyConsumer,
    RcReadonlyConsumer, ReadonlyConsumer,
};
use std::cell::RefCell;
use std::rc::Rc;
use std::sync::{Arc, Mutex};

#[test]
fn box_readonly_consumer_chain_runs_in_order() {
    let log = Rc::new(RefCell::new(Vec::new()));
    let l1 = log.clone();
    let l2 = log.clone();
    let c = BoxReadonlyConsumer::new(move |x: &i32| l1.borrow_mut().push(*x))
        .and_then(move |x: &i32| l2.borrow_mut().push(*x * 10));
    c.accept(&3);
    c.accept(&4);
    assert_eq!(*log.borrow(), vec![3, 30, 4, 40]);
    assert_eq!(c.name(), None);
}

#[test]
fn box_readonly_consumer_names_and_noop() {
    let mut c = BoxReadonlyConsumer::<i32>::noop();
    assert_eq!(c.name(), None);
    c.set_name("printer");
    assert_eq!(c.name(), Some("printer"));
    c.accept(&1);
    let mut named = BoxReadonlyConsumer::new(|_: &i32| {});
    named.set_name(String::from("sink"));
    assert_eq!(named.name(), Some("sink"));
}

#[test]
fn rc_readonly_consumer_shares_and_chains() {
    let log = Rc::new(RefCell::new(Vec::new()));
    let l1 = log.clone();
    let l2 = log.clone();
    let a = RcReadonlyConsumer::new(move |x: &i32| l1.borrow_mut().push(*x));
    let b = RcReadonlyConsumer::new(move |x: &i32| l2.borrow_mut().push(-*x));
    let ab = a.and_then(&b);
    ab.accept(&2);
    a.accept(&5);
    a.clone().accept(&6);
    let f = b.to_fn();
    f(&7);
    assert_eq!(*log.borrow(), vec![2, -2, 5, 6, -7]);
    let mut n = a.clone();
    n.set_name("rc");
    assert_eq!(n.name(), Some("rc"));
    assert_eq!(a.name(), None);
}

#[test]
fn arc_readonly_consumer_shares_and_chains() {
    let log = Arc::new(Mutex::new(Vec::new()));
    let l1 = log.clone();
    let l2 = log.clone();
    let a = ArcReadonlyConsumer::new(move |x: &i32| l1.lock().unwrap().push(*x));
    let b = ArcReadonlyConsumer::new(move |x: &i32| l2.lock().unwrap().push(*x + 100));
    let ab = a.and_then(&b);
    ab.accept(&1);
    let f = a.to_fn();
    f(&2);
    assert_eq!(*log.lock().unwrap(), vec![1, 101, 2]);
    let mut n = ab.clone();
    n.set_name("arc");
    assert_eq!(n.name(), Some("arc"));
    fn shareable<X: Send + Sync>(_: &X) {}
    shareable(&ab);
}

#[test]
fn readonly_consumer_conversions_and_closure_ops() {
    let log = Rc::new(RefCell::new(Vec::new()));
    let l1 = log.clone();
    let l2 = log.clone();
    let l3 = log.clone();
    (move |x: &i32| l1.borrow_mut().push(*x)).into_box().accept(&1);
    (move |x: &i32| l2.borrow_mut().push(*x)).into_rc().accept(&2);
    let c = (move |x: &i32| l3.borrow_mut().push(*x)).and_then(|_: &i32| {});
    c.accept(&3);
    assert_eq!(*log.borrow(), vec![1, 2, 3]);
    let counter = Arc::new(Mutex::new(0));
    let k = counter.clone();
    let arc = (move |x: &i32| *k.lock().unwrap() += *x).into_arc();
    arc.accept(&5);
    arc.clone().into_box().accept(&6);
    arc.into_rc().accept(&7);
    assert_eq!(*counter.lock().unwrap(), 18);
}

#[test]
fn readonly_consumers_show_their_names() {
    let mut b = BoxReadonlyConsumer::new(|_: &i32| {});
    assert_eq!(b.to_string(), "BoxReadonlyConsumer");
    b.set_name("sink");
    assert_eq!(b.to_string(), "BoxReadonlyConsumer(sink)");
    let mut r = RcReadonlyConsumer::new(|_: &i32| {});
    assert_eq!(r.to_string(), "RcReadonlyConsumer");
    r.set_name(String::from("rc"));
    assert_eq!(r.to_string(), "RcReadonlyConsumer(rc)");
    let mut a = ArcReadonlyConsumer::new(|_: &i32| {});
    a.set_name("arc");
    assert_eq!(a.to_string(), "ArcReadonlyConsumer(arc)");
}
