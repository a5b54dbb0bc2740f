use light_tsdb::compose::{apply, compose};

#[test]
fn no_fn() {
    assert_eq!(apply(4, |x: i32| x), 4);
    let ret_4 = || {
        // Doing something expensive..
        4
    };
    assert_eq!(apply(ret_4(), |x: i32| x), 4);
}

#[test]
fn one_simple_fn() {
    let add_one = |x: i32| x + 1;
    assert_eq!(apply(4, add_one), 5);
}

#[test]
fn one_arg_fn() {
    let add = |x: i32, y: i32| x + y;
    assert_eq!(apply(4, |x| add(5, x)), 9);
}

#[test]
fn two_simple_fn() {
    let add_one = |x: i32| x + 1;
    let double = |x: i32| 2 * x;
    assert_eq!(compose(4, double, add_one), 9);
}

#[test]
fn two_arg_fn() {
    let mul = |a: i32, b: i32, c: i32, d: i32, e: i32| a * b * c * d * e;
    let add = |a: i32, b: i32, c: i32| a + b + c;
    assert_eq!(compose(4, |x| add(3, x, 9), |x| mul(1, 4, 2, x, 10)), 1280);
}

#[test]
fn add_vec_fn() {
    let sum = |v: Vec<i32>| v.iter().sum::<i32>();
    let mul = |a: i32, b: i32| a * b;
    assert_eq!(compose(vec![1, 2, 3], sum, |x| mul(x, 10)), 60);
}
