use opendp::meas::histogram_alp::{
    estimate_unary, exponent_next_power_of_two, hash, key_to_u64, projected_bits, sample_hash_function, AlpState,
    HashFunction,
};

#[test]
fn test_exponent_next_power_of_two() {
    assert_eq!(exponent_next_power_of_two(1 as u64), 0);

    assert_eq!(exponent_next_power_of_two(2 as u64), 1);

    assert_eq!(exponent_next_power_of_two(3 as u64), 2);

    assert_eq!(exponent_next_power_of_two(7 as u64), 3);
}

#[test]
fn test_hash() {
    assert_eq!(hash(3, 4, 5, 64), 17);
    assert_eq!(hash(3, 4, 5, 63), 8);

    assert_eq!(hash(1, u64::MAX, 0, 2), 3);
    assert_eq!(hash(1, u64::MAX, 0, 3), 7);

    assert_eq!(hash(4, u64::MAX, 0, 16), (1 << 16) - 1);
}

fn average(v: &Vec<bool>) -> f64 {
    let (sum, count) = estimate_unary(v);
    sum as f64 / count as f64
}

#[test]
fn test_estimate_unary() {
    let z1 = vec![true, true, true, false, true, false, false, true];
    assert!(average(&z1) == 4.0);

    let z2 = vec![true, false, false, false, true, false, false, true];
    assert!(average(&z2) == 1.0);

    let z3 = vec![false, true, true, false, false, true, false, true];
    assert!(average(&z3) == 3.0);
}

#[test]
fn test_exponent_next_power_of_two_exact_powers() {
    assert_eq!(exponent_next_power_of_two(1024), 10);
    assert_eq!(exponent_next_power_of_two(1025), 11);
    assert_eq!(exponent_next_power_of_two(u64::MAX), 64);
}

#[test]
fn test_estimate_unary_empty() {
    assert_eq!(estimate_unary(&vec![]), (0, 1));
}

#[test]
fn test_sample_hash() {
    let h = sample_hash_function(5).unwrap();
    assert_eq!(h.a % 2, 1);
    for i in 0u64..20u64 {
        assert!(h.eval(&i) < (1 << 5));
    }
}

#[test]
fn test_key_to_u64() {
    assert_eq!(key_to_u64(&42i32), 42);
    assert_eq!(key_to_u64(&-3i64), 0);
    assert_eq!(key_to_u64(&u64::MAX), u64::MAX);
}

/// The hash function that sends every key to `i`, on `l` bits.
fn constant_hash(i: u64, l: u32) -> HashFunction {
    HashFunction { a: 0, b: i << (64 - l), l }
}

#[test]
fn test_projected_estimate() {
    let h: Vec<HashFunction> = (0..8).map(|i| constant_hash(i, 3)).collect();
    let z1 = vec![true, true, true, false, true, false, false, true];
    let state = AlpState::<u32, u32> { alpha: 3, scale: 1, h, z: z1.clone(), _marker: std::marker::PhantomData };
    let bits = projected_bits(&state, &0);
    assert_eq!(bits, z1);
    // estimate * alpha / scale
    assert!(average(&bits) * 3.0 / 1.0 == 12.0);
}

#[test]
fn test_projected_bits_wrap() {
    // hashes past the end of the bit vector wrap around
    let h: Vec<HashFunction> = (0..4).map(|i| constant_hash(i + 3, 3)).collect();
    let state = AlpState::<u32, u32> { alpha: 1, scale: 1, h, z: vec![true, false, false], _marker: std::marker::PhantomData };
    assert_eq!(projected_bits(&state, &7), vec![true, false, false, true]);
}
