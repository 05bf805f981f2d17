use prism3_function::mapper_once::{BoxMapperOnce, FnMapperOnceOps, IntoMapperOnce, MapperOnce};

#[test]
fn mapper_once_composition() {
    let m = BoxMapperOnce::new(|x: String| x.len());
    assert_eq!(m.apply_once(String::from("abc")), 3);
    let id = BoxMapperOnce::<i32, i32>::identity();
    assert_eq!(id.apply_once(4), 4);
    let k = BoxMapperOnce::<i32, i32>::constant(9);
    assert_eq!(k.apply_once(4), 9);
    let chained = BoxMapperOnce::new(|x: i32| x + 1).and_then(|x: i32| x * 3);
    assert_eq!(chained.apply_once(1), 6);
    let composed = BoxMapperOnce::new(|x: i32| x + 1).compose(|x: i32| x * 3);
    assert_eq!(composed.apply_once(1), 4);
    let cond = BoxMapperOnce::new(|x: i32| x * 2).when(|x: &i32| *x > 0).or_else(|_: i32| 0);
    assert_eq!(cond.apply_once(5), 10);
    let cond2 = BoxMapperOnce::new(|x: i32| x * 2).when(|x: &i32| *x > 0).or_else(|_: i32| 0);
    assert_eq!(cond2.apply_once(-5), 0);
    let owned = String::from("moved");
    let f = (move |x: i32| format!("{}{}", owned, x)).into_box_once();
    assert_eq!(f.apply_once(1), "moved1");
    let g = (|x: i32| x - 1).and_then(|x: i32| x * x);
    assert_eq!(g.apply_once(4), 9);
    let h = (|x: i32| x - 1).compose(|x: i32| x * x);
    assert_eq!(h.apply_once(4), 15);
    let w = (|x: i32| x - 1).when(|x: &i32| *x > 100).or_else(|x: i32| x);
    assert_eq!(w.apply_once(4), 4);
}

#[test]
fn mapper_once_to_box_once_keeps_the_source() {
    let f = |x: i32| x * 3;
    let b = f.to_box_once();
    assert_eq!(b.apply_once(3), 9);
    assert_eq!(f.apply_once(4), 12);
}
