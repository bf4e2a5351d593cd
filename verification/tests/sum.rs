use opendp::dom::Bound;
use opendp::error::{ErrorVariant, ExplainUnwrap};
use opendp::trans::sum::{make_bounded_sum, make_sized_bounded_sum};

#[test]
fn mod_test_make_bounded_sum_l1() {
    let transformation = make_bounded_sum::<i32>((0, 10)).unwrap_test();
    let arg = vec![1, 2, 3, 4, 5];
    let ret = transformation.invoke(&arg).unwrap_test();
    let expected = 15;
    assert_eq!(ret, expected);
}

#[test]
fn mod_test_make_bounded_sum_l2() {
    let transformation = make_bounded_sum::<i32>((0, 10)).unwrap_test();
    let arg = vec![1, 2, 3, 4, 5];
    let ret = transformation.invoke(&arg).unwrap_test();
    let expected = 15;
    assert_eq!(ret, expected);
}

#[test]
fn mod_test_make_bounded_sum_n() {
    let transformation = make_sized_bounded_sum::<i32>(5, (0, 10)).unwrap_test();
    let arg = vec![1, 2, 3, 4, 5];
    let ret = transformation.invoke(&arg).unwrap_test();
    let expected = 15;
    assert_eq!(ret, expected);
}

#[test]
fn test_make_bounded_sum_rejects_unordered_bounds() {
    assert!(make_bounded_sum::<i32>((10, 0)).is_err());
}

#[test]
fn test_make_bounded_sum_saturates() {
    let transformation = make_bounded_sum::<i8>((0, 100)).unwrap_test();
    assert_eq!(transformation.invoke(&vec![100, 100]).unwrap_test(), 127);
}

#[test]
fn test_make_bounded_sum_sensitivity() {
    let transformation = make_bounded_sum::<i32>((-7, 3)).unwrap_test();
    assert!(transformation.check(&2, &14).unwrap_test());
    assert!(!transformation.check(&2, &13).unwrap_test());
}

#[test]
fn test_make_sized_bounded_sum_overflow_rejected() {
    assert!(make_sized_bounded_sum::<i8>(2, (0, 100)).is_err());
}

#[test]
fn test_make_sized_bounded_sum_sensitivity() {
    let transformation = make_sized_bounded_sum::<i32>(5, (0, 10)).unwrap_test();
    assert!(transformation.check(&1, &5).unwrap_test());
    assert!(!transformation.check(&1, &4).unwrap_test());
}

#[test]
fn sum_test_make_bounded_sum_l1() {
    let transformation = make_bounded_sum::<i32>((0, 10)).unwrap_test();
    let arg = vec![1, 2, 3, 4, 5];
    assert_eq!(transformation.invoke(&arg).unwrap_test(), 15);
}

#[test]
fn sum_test_make_bounded_sum_l2() {
    let transformation = make_bounded_sum::<i32>((0, 10)).unwrap_test();
    let arg = vec![1, 2, 3, 4, 5];
    assert_eq!(transformation.invoke(&arg).unwrap_test(), 15);
}

#[test]
fn sum_test_make_bounded_sum_n() {
    let transformation = make_sized_bounded_sum::<i32>(5, (0, 10)).unwrap_test();
    let arg = vec![1, 2, 3, 4, 5];
    assert_eq!(transformation.invoke(&arg).unwrap_test(), 15);
}

#[test]
fn test_make_sized_bounded_sum_error_kinds() {
    let too_long = make_sized_bounded_sum::<i8>(200, (0, 1)).err().unwrap();
    assert_eq!(too_long.variant, ErrorVariant::FailedCast);
    let overflow = make_sized_bounded_sum::<i8>(2, (0, 100)).err().unwrap();
    assert_eq!(overflow.variant, ErrorVariant::MakeTransformation);
    let unordered = make_sized_bounded_sum::<i32>(5, (10, 0)).err().unwrap();
    assert_eq!(unordered.variant, ErrorVariant::MakeDomain);
}

#[test]
fn test_bounded_sum_input_domains_are_closed_intervals() {
    let transformation = make_bounded_sum::<i32>((-7, 3)).unwrap_test();
    assert!(matches!(transformation.input_domain.element_domain.lower, Bound::Included(-7)));
    assert!(matches!(transformation.input_domain.element_domain.upper, Bound::Included(3)));
    let sized = make_sized_bounded_sum::<i32>(5, (0, 10)).unwrap_test();
    assert!(matches!(sized.input_domain.element_domain.element_domain.lower, Bound::Included(0)));
    assert!(matches!(sized.input_domain.element_domain.element_domain.upper, Bound::Included(10)));
    assert_eq!(sized.input_domain.length, 5);
}
