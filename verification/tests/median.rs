use opendp::meas::discrete_gaussian::floorsqrt;
use opendp::meas::median::{Maximum, Median, Minimum, SmoothSensitivityQuery};

#[test]
fn test_function() {
    assert_eq!(Median::<i32>::compute(&vec![1, 2, 3, 4, 4, 4, 4, 5, 6, 7, 8]), 4);
    assert_eq!(Minimum::<i32>::compute(&vec![1, 1, 2, 3, 4, 4, 4, 4, 5, 6, 7, 8]), 1);
    assert_eq!(Maximum::<i32>::compute(&vec![1, 1, 2, 3, 4, 4, 4, 4, 5, 6, 7, 8]), 8);
}

#[test]
fn test_median_a_k() {
    let data = vec![1, 2, 3, 4, 5];
    assert_eq!(Median::<i32>::a_k(&data, &(0, 10), 0), 1);
    assert_eq!(Median::<i32>::a_k(&data, &(0, 10), 1), 2);
    assert_eq!(Median::<i32>::a_k(&data, &(0, 10), 3), 8);
}

#[test]
fn test_floorsqrt() {
    assert_eq!(floorsqrt(4 << 16), 2);
    assert_eq!(floorsqrt(10 << 16), 3);
    assert_eq!(floorsqrt((1 << 16) - 1), 0);
    assert_eq!(floorsqrt(0), 0);
    assert_eq!(floorsqrt(-5), 0);
    assert_eq!(floorsqrt(i32::MAX), 181);
}
