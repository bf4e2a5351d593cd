use std::collections::HashMap;

use opendp::dist::{Fraction, L2Distance};
use opendp::error::ExplainUnwrap;
use opendp::trans::count::{make_count, make_count_by_categories, make_count_distinct, make_sized_count_by};

#[test]
fn mod_test_make_count_l1() {
    let transformation = make_count::<i64, u32>().unwrap_test();
    let arg = vec![1, 2, 3, 4, 5];
    let ret = transformation.invoke(&arg).unwrap_test();
    let expected = 5;
    assert_eq!(ret, expected);
}

#[test]
fn mod_test_make_count_l2() {
    let transformation = make_count::<u32, i32>().unwrap_test();
    let arg = vec![1, 2, 3, 4, 5];
    let ret = transformation.invoke(&arg).unwrap_test();
    let expected = 5;
    assert_eq!(ret, expected);
}

#[test]
fn mod_test_make_count_distinct() {
    let transformation = make_count_distinct::<i32, i32>().unwrap_test();
    let arg = vec![1, 1, 3, 4, 4];
    let ret = transformation.invoke(&arg).unwrap_test();
    let expected = 3;
    assert_eq!(ret, expected);
}

#[test]
fn mod_test_make_count_by_categories() {
    let transformation = make_count_by_categories::<L2Distance<Fraction>, i64, i8>(vec![2, 1, 3]).unwrap_test();
    let arg = vec![1, 2, 3, 4, 5, 1, 1, 1, 2];
    let ret = transformation.invoke(&arg).unwrap_test();
    let expected = vec![2, 4, 1, 2];
    assert_eq!(ret, expected);

    assert!(!transformation.check(&5, &Fraction::new(4999, 1000).unwrap_test()).unwrap_test());
    assert!(transformation.check(&5, &Fraction::from_int(5)).unwrap_test());
}

#[test]
fn test_make_count_by_categories_rejects_duplicates() {
    let result = make_count_by_categories::<L2Distance<Fraction>, i64, i8>(vec![2, 1, 2]);
    assert!(result.is_err());
}

#[test]
fn test_make_count_saturates() {
    let transformation = make_count::<i32, u8>().unwrap_test();
    let arg: Vec<i32> = (0..300).collect();
    assert_eq!(transformation.invoke(&arg).unwrap_test(), 255);
}

#[test]
fn test_make_count_by_categories_saturates() {
    let transformation = make_count_by_categories::<L2Distance<Fraction>, i64, i8>(vec![1]).unwrap_test();
    let arg = vec![1i64; 200];
    assert_eq!(transformation.invoke(&arg).unwrap_test(), vec![127, 0]);
}

#[test]
fn test_make_sized_count_by() {
    let arg = vec![true, true, true, false, true, false, false, false, true, true];
    let transformation = make_sized_count_by::<L2Distance<Fraction>, bool, i8>(arg.len()).unwrap_test();
    let ret = transformation.invoke(&arg).unwrap_test();
    let mut expected = HashMap::new();
    expected.insert(true, 6);
    expected.insert(false, 4);
    assert_eq!(ret, expected);
    assert!(!transformation.check(&5, &Fraction::new(4999, 1000).unwrap_test()).unwrap_test());
    assert!(transformation.check(&5, &Fraction::from_int(5)).unwrap_test());
}

#[test]
fn test_make_count_by() {
    let arg = vec![true, true, true, false, true, false, false, false, true, true];
    let transformation = make_sized_count_by::<L2Distance<Fraction>, bool, i8>(arg.len()).unwrap_test();
    let ret = transformation.invoke(&arg).unwrap_test();
    let mut expected = HashMap::new();
    expected.insert(true, 6);
    expected.insert(false, 4);
    assert_eq!(ret, expected);
    assert!(!transformation.check(&5, &Fraction::new(4999, 1000).unwrap_test()).unwrap_test());
    assert!(transformation.check(&5, &Fraction::from_int(5)).unwrap_test());
}

#[test]
fn count_test_make_count_l1() {
    let transformation = make_count::<i64, u32>().unwrap_test();
    let arg = vec![1, 2, 3, 4, 5];
    let ret = transformation.invoke(&arg).unwrap_test();
    assert_eq!(ret, 5);
}

#[test]
fn count_test_make_count_l2() {
    let transformation = make_count::<u32, i32>().unwrap_test();
    let arg = vec![1, 2, 3, 4, 5];
    let ret = transformation.invoke(&arg).unwrap_test();
    assert_eq!(ret, 5);
}

#[test]
fn count_test_make_count_distinct() {
    let transformation = make_count_distinct::<i32, i32>().unwrap_test();
    let arg = vec![1, 1, 3, 4, 4];
    let ret = transformation.invoke(&arg).unwrap_test();
    assert_eq!(ret, 3);
}

#[test]
fn count_test_make_count_by_categories() {
    let transformation = make_count_by_categories::<L2Distance<Fraction>, i64, i8>(vec![2, 1, 3]).unwrap_test();
    let arg = vec![1, 2, 3, 4, 5, 1, 1, 1, 2];
    let ret = transformation.invoke(&arg).unwrap_test();
    assert_eq!(ret, vec![2, 4, 1, 2]);
    assert!(!transformation.check(&5, &Fraction::new(4999, 1000).unwrap_test()).unwrap_test());
    assert!(transformation.check(&5, &Fraction::from_int(5)).unwrap_test());
}
