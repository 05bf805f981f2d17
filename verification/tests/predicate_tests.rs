use prism3_function::predicate::{
    ArcPredicate, BoxPredicate, FnPredicateOps, IntoPredicate, Predicate, RcPredicate,
    ALWAYS_FALSE_NAME, ALWAYS_TRUE_NAME,
};

#[test]
fn closure_is_a_predicate() {
    let is_positive = |x: &i32| *x > 0;
    assert!(is_positive.test(&5));
    assert!(!is_positive.test(&-3));
}

#[test]
fn box_and_requires_both() {
    let pred = BoxPredicate::new(|x: &i32| *x > 0).and(BoxPredicate::new(|x: &i32| x % 2 == 0));
    assert!(pred.test(&4));
    assert!(!pred.test(&3));
    assert!(!pred.test(&-2));
    assert_eq!(pred.name(), None);
}

#[test]
fn closure_ops_compose_into_box_predicates() {
    let is_positive = |x: &i32| *x > 0;
    let is_even = |x: &i32| x % 2 == 0;
    let positive_and_even = is_positive.and(is_even);
    assert!(positive_and_even.test(&4));
    assert!(!positive_and_even.test(&3));

    let pred = (|x: &i32| *x > 0)
        .and(|x: &i32| x % 2 == 0)
        .and(BoxPredicate::new(|x: &i32| *x < 100));
    assert!(pred.test(&42));
    assert!(!pred.test(&142));

    let negative_or_large = (|x: &i32| *x < 0).or(|x: &i32| *x > 100);
    assert!(negative_or_large.test(&-5));
    assert!(negative_or_large.test(&200));
    assert!(!negative_or_large.test(&50));

    let not_zero = (|x: &i32| *x == 0).not();
    assert!(not_zero.test(&5));
    assert!(!not_zero.test(&0));
}

#[test]
fn box_nand_xor_nor_truth_tables() {
    for (a, b) in [(true, true), (true, false), (false, true), (false, false)] {
        let pa = move |_: &u8| a;
        let pb = move |_: &u8| b;
        assert_eq!(BoxPredicate::new(pa).nand(pb).test(&0), !(a && b));
        assert_eq!(BoxPredicate::new(pa).xor(pb).test(&0), a ^ b);
        assert_eq!(BoxPredicate::new(pa).nor(pb).test(&0), !(a || b));
        assert_eq!(BoxPredicate::new(pa).or(pb).test(&0), a || b);
        assert_eq!(pa.nand(pb).test(&0), !(a && b));
        assert_eq!(pa.xor(pb).test(&0), a ^ b);
        assert_eq!(pa.nor(pb).test(&0), !(a || b));
    }
}

#[test]
fn and_short_circuits() {
    let second_called = std::rc::Rc::new(std::cell::Cell::new(false));
    let seen = second_called.clone();
    let pred = BoxPredicate::new(|_: &i32| false).and(move |_: &i32| {
        seen.set(true);
        true
    });
    assert!(!pred.test(&1));
    assert!(!second_called.get());
}

#[test]
fn always_true_and_false_are_named() {
    let t = BoxPredicate::<i32>::always_true();
    let f = BoxPredicate::<i32>::always_false();
    assert!(t.test(&-7));
    assert!(!f.test(&-7));
    assert_eq!(t.name(), Some(ALWAYS_TRUE_NAME));
    assert_eq!(f.name(), Some("always_false"));
    assert_eq!(ALWAYS_FALSE_NAME, "always_false");
    assert_eq!(RcPredicate::<i32>::always_true().name(), Some("always_true"));
    assert_eq!(ArcPredicate::<i32>::always_false().name(), Some("always_false"));
}

#[test]
fn names_can_be_set() {
    let mut p = BoxPredicate::new_with_name("positive", |x: &i32| *x > 0);
    assert_eq!(p.name(), Some("positive"));
    p.set_name("renamed");
    assert_eq!(p.name(), Some("renamed"));
    assert!(p.test(&1));
    let mut r = RcPredicate::new(|x: &i32| *x > 0);
    assert_eq!(r.name(), None);
    r.set_name("r");
    assert_eq!(r.name(), Some("r"));
    let mut a = ArcPredicate::new_with_name("a", |x: &i32| *x > 0);
    a.set_name("b");
    assert_eq!(a.name(), Some("b"));
}

#[test]
fn rc_predicates_stay_usable_after_composition() {
    let positive = RcPredicate::new(|x: &i32| *x > 0);
    let even = RcPredicate::new(|x: &i32| x % 2 == 0);
    let both = positive.and(even.clone());
    let either = positive.or(even.clone());
    assert!(both.test(&4));
    assert!(!both.test(&3));
    assert!(either.test(&3));
    assert!(positive.test(&3));
    assert!(positive.not().test(&-1));
    assert!(positive.nand(even.clone()).test(&3));
    assert!(positive.xor(even.clone()).test(&3));
    assert!(positive.nor(even.clone()).test(&-3));
    let f = positive.to_fn();
    assert!(f(&1));
    let numbers = vec![-10, 5, 50, 150, 75];
    let filtered: Vec<i32> = numbers.iter().copied().filter(|x| positive.test(x)).collect();
    assert_eq!(filtered, vec![5, 50, 150, 75]);
}

#[test]
fn rc_to_box_keeps_name() {
    let p = RcPredicate::new_with_name("big", |x: &i32| *x > 100);
    let b = p.to_box();
    assert_eq!(b.name(), Some("big"));
    assert!(b.test(&101));
    let b2 = p.clone().into_box();
    assert_eq!(b2.name(), Some("big"));
    assert!(!b2.test(&100));
}

#[test]
fn arc_predicate_is_shareable() {
    let p = ArcPredicate::new(|x: &i32| *x > 10);
    let q = p.and(|x: &i32| *x < 20);
    fn shareable<X: Send + Sync>(_: &X) {}
    shareable(&q);
    assert!(q.test(&15));
    assert!(p.to_box().test(&11));
    assert!(p.to_rc().test(&11));
    assert!(!p.not().test(&11));
    assert!(p.or(|x: &i32| *x == 0).test(&0));
    assert!(p.nand(|_: &i32| true).test(&0));
    assert!(p.xor(|_: &i32| true).test(&0));
    assert!(!p.nor(|_: &i32| true).test(&0));
    let f = p.to_fn();
    assert!(f(&12));
}

#[test]
fn conversions_keep_behaviour() {
    let b = BoxPredicate::new_with_name("neg", |x: &i32| *x < 0);
    let r = b.into_rc();
    assert_eq!(r.name(), Some("neg"));
    assert!(r.test(&-1));
    let a = (|x: &i32| *x < 0).into_arc();
    assert!(a.test(&-1));
    assert!(a.into_rc().test(&-2));
    let c = (|x: &i32| *x == 3).into_rc();
    assert!(c.test(&3));
}

#[test]
fn double_negation_law_on_values() {
    let p = BoxPredicate::new(|x: &i32| *x % 3 == 0);
    let nn = p.not().not();
    for v in -10..10 {
        assert_eq!(nn.test(&v), v % 3 == 0);
    }
}

#[test]
fn de_morgan_law_on_values() {
    for v in -6..6 {
        let p = |x: &i32| *x > 0;
        let q = |x: &i32| x % 2 == 0;
        let lhs = p.and(q).not().test(&v);
        let rhs = p.not().or(q.not()).test(&v);
        assert_eq!(lhs, rhs);
        let lhs2 = p.or(q).not().test(&v);
        let rhs2 = p.not().and(q.not()).test(&v);
        assert_eq!(lhs2, rhs2);
        assert_eq!(p.nand(q).test(&v), p.and(q).not().test(&v));
        assert_eq!(p.nor(q).test(&v), p.or(q).not().test(&v));
    }
}

#[test]
fn units_and_xor_self_laws_on_values() {
    for v in -4..4 {
        let p = |x: &i32| *x >= 0;
        assert_eq!(p.and(BoxPredicate::always_true()).test(&v), p.test(&v));
        assert_eq!(p.or(BoxPredicate::always_false()).test(&v), p.test(&v));
        assert!(!BoxPredicate::always_false().and(p).test(&v));
        assert!(!p.xor(p).test(&v));
    }
}

#[test]
fn predicates_show_their_names() {
    let mut b = BoxPredicate::new(|x: &i32| *x > 0);
    assert_eq!(b.to_string(), "BoxPredicate(unnamed)");
    b.set_name("positive");
    assert_eq!(b.to_string(), "BoxPredicate(positive)");
    let r = RcPredicate::new_with_name("even", |x: &i32| x % 2 == 0);
    assert_eq!(r.to_string(), "RcPredicate(even)");
    let a = ArcPredicate::new(|x: &i32| *x == 0);
    assert_eq!(a.to_string(), "ArcPredicate(unnamed)");
    let t = ArcPredicate::<i32>::always_true();
    assert_eq!(t.to_string(), format!("ArcPredicate({})", ALWAYS_TRUE_NAME));
}
