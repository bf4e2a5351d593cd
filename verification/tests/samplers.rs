use opendp::samplers::{
    bernoulli_from_parts, byte_to_bit, fill_bytes, first_heads_index, sample_bernoulli_from_parts,
    geometric_walk, mantissa_from_bytes, sample_geometric_from_parts, sample_i10_geometric, sample_standard_bernoulli, sample_u64, sample_uniform_parts,
};

#[test]
fn test_byte_to_bit() {
    assert!(byte_to_bit(1));
    assert!(!byte_to_bit(2));
    assert!(byte_to_bit(255));
}

#[test]
fn test_first_heads_index() {
    assert_eq!(first_heads_index(&vec![0x80]), 0);
    assert_eq!(first_heads_index(&vec![0x00, 0x10]), 11);
    assert_eq!(first_heads_index(&vec![0x01, 0xff]), 7);
    assert_eq!(first_heads_index(&vec![]), 1022);
    assert_eq!(first_heads_index(&vec![0u8; 128]), 1022);
}

#[test]
fn test_bernoulli_from_parts_half() {
    // 0.5: biased exponent 1022, mantissa 0
    assert!(bernoulli_from_parts(1022, 0, 0));
    assert!(!bernoulli_from_parts(1022, 0, 1));
    assert!(!bernoulli_from_parts(1022, 0, 40));
}

#[test]
fn test_bernoulli_from_parts_three_quarters() {
    // 0.75 = 0.11 in binary
    let mantissa = 1u64 << 51;
    assert!(bernoulli_from_parts(1022, mantissa, 0));
    assert!(bernoulli_from_parts(1022, mantissa, 1));
    assert!(!bernoulli_from_parts(1022, mantissa, 2));
}

#[test]
fn test_bernoulli_from_parts_quarter() {
    // 0.25 = 0.01 in binary
    assert!(!bernoulli_from_parts(1021, 0, 0));
    assert!(bernoulli_from_parts(1021, 0, 1));
    assert!(!bernoulli_from_parts(1021, 0, 2));
}

#[test]
fn test_bernoulli_from_parts_edges() {
    // 1.0 always succeeds, 0.0 never does
    assert!(bernoulli_from_parts(1023, 0, 500));
    assert!(!bernoulli_from_parts(0, 0, 1022));
    assert!(!bernoulli_from_parts(0, 0, 0));
}

#[test]
fn test_random_sources() {
    let mut buffer = vec![0u8; 16];
    fill_bytes(&mut buffer).unwrap();
    assert_eq!(buffer.len(), 16);
    sample_u64().unwrap();
    sample_standard_bernoulli().unwrap();
    for constant_time in [false, true] {
        let g = sample_i10_geometric(constant_time).unwrap();
        assert!((0..=1022).contains(&g));
    }
}

#[test]
fn test_sample_bernoulli_certain() {
    for constant_time in [false, true] {
        assert!(sample_bernoulli_from_parts(1023, 0, constant_time).unwrap());
        assert!(!sample_bernoulli_from_parts(0, 0, constant_time).unwrap());
    }
}

#[test]
fn test_geometric_certain_success() {
    // probability one: a single step
    assert_eq!(sample_geometric_from_parts(5u8, true, 1023, 0, None).unwrap(), 6);
    assert_eq!(sample_geometric_from_parts(5u8, false, 1023, 0, None).unwrap(), 4);
    assert_eq!(sample_geometric_from_parts(5i32, true, 1023, 0, Some(3)).unwrap(), 6);
    assert_eq!(sample_geometric_from_parts(255u8, true, 1023, 0, None).unwrap(), 255);
    assert_eq!(sample_geometric_from_parts(0u8, false, 1023, 0, Some(4)).unwrap(), 0);
}

#[test]
fn test_geometric_certain_failure() {
    // probability zero: one step per trial, plus the first
    assert_eq!(sample_geometric_from_parts(5u8, true, 0, 0, Some(3)).unwrap(), 9);
    assert_eq!(sample_geometric_from_parts(5i8, false, 0, 0, Some(3)).unwrap(), 1);
    assert_eq!(sample_geometric_from_parts(254u8, true, 0, 0, Some(3)).unwrap(), 255);
    assert_eq!(sample_geometric_from_parts(7u8, true, 0, 0, Some(0)).unwrap(), 8);
}

#[test]
fn test_geometric_range() {
    for _ in 0..20 {
        // probability one half
        let v = sample_geometric_from_parts(10i64, true, 1022, 0, Some(10)).unwrap();
        assert!((11..=21).contains(&v));
        let w = sample_geometric_from_parts(10i64, false, 1022, 0, None).unwrap();
        assert!(w < 10);
    }
}

#[test]
fn test_uniform_parts() {
    for constant_time in [false, true] {
        let (e, m) = sample_uniform_parts(constant_time).unwrap();
        assert!((-1023..=-1).contains(&e));
        assert!(m < 1 << 52);
    }
}

#[test]
fn test_geometric_walk() {
    assert_eq!(geometric_walk(5u8, true, &vec![]), 6);
    assert_eq!(geometric_walk(5u8, true, &vec![false, false, true, false]), 8);
    assert_eq!(geometric_walk(5i8, false, &vec![false, false, false]), 1);
    assert_eq!(geometric_walk(253u8, true, &vec![false, false, false]), 255);
    assert_eq!(geometric_walk(5i32, true, &vec![true, false, false]), 6);
}

#[test]
fn test_mantissa_from_bytes() {
    assert_eq!(mantissa_from_bytes(&vec![0xff, 0, 0, 0, 0, 0, 1]), (0xf << 48) + 1);
    assert_eq!(mantissa_from_bytes(&vec![0x12, 0x34, 0x56, 0x78, 0x9a, 0xbc, 0xde]), 0x2_3456_789a_bcde);
}

#[test]
fn test_geometric_no_draws() {
    assert_eq!(sample_geometric_from_parts(3u8, true, 1022, 0, Some(0)).unwrap(), 4);
    assert_eq!(sample_geometric_from_parts(254u8, true, 1022, 0, None).unwrap(), 255);
}
