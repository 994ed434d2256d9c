//! Proof construction and verification, difficulty retargeting, and the
//! unit conversions.

use demle::difficulty::{
    adjust_difficulty, difficulty_to_teraflops, teraflops_to_difficulty, validate_retarget_config,
};
use demle::work_proof::{count_leading_zeros, required_zeros};
use demle::Proof;

#[test]
fn test_difficulty_adjustment() {
    let current = 1000000;
    let target = 15; // 15 seconds

    // Blocks too fast - increase difficulty
    let new_diff = adjust_difficulty(current, 10, target, 2);
    assert!(new_diff > current);

    // Blocks too slow - decrease difficulty
    let new_diff = adjust_difficulty(current, 20, target, 2);
    assert!(new_diff < current);
}

#[test]
fn difficulty_adjustment_exact_values() {
    // ratio 10/15 clamped within [1/2, 2]: 1000000 * 15 / 10
    assert_eq!(adjust_difficulty(1000000, 10, 15, 2), 1500000);
    // ratio 20/15: 1000000 * 15 / 20
    assert_eq!(adjust_difficulty(1000000, 20, 15, 2), 750000);
    // clamp at the adjustment factor: 100 seconds is far past 2x
    assert_eq!(adjust_difficulty(1000000, 100, 15, 2), 500000);
    assert_eq!(adjust_difficulty(1000000, 1, 15, 2), 2000000);
}

#[test]
fn difficulty_never_below_minimum() {
    assert_eq!(adjust_difficulty(1500, 60, 15, 2), 1000);
    assert_eq!(adjust_difficulty(0, 20, 15, 2), 1000);
}

#[test]
fn retarget_config_validation() {
    assert!(validate_retarget_config(15, 2).is_ok());
    assert!(validate_retarget_config(0, 2).is_err());
    assert!(validate_retarget_config(15, 1).is_err());
}

#[test]
fn test_teraflops_conversion() {
    // teraflops are carried in thousandths: 1.5 teraflops
    let teraflops = 1.5f64;
    let milli = (teraflops * 1000.0) as u64;
    let difficulty = teraflops_to_difficulty(milli);
    assert_eq!(difficulty, 1500000);
    let converted_back = difficulty_to_teraflops(difficulty) as f64 / 1000.0;

    assert!((converted_back - teraflops).abs() < 0.001);
}

#[test]
fn proof_work_hash_exact() {
    // digest of "0:ab:0"
    let p = Proof::new(0, vec![String::from("ab")], 0, 1);
    assert_eq!(
        p.work_hash,
        "f715968e84729502c51c3bc2f63ea2e208c662625480776dedb3682c4315dcf0"
    );
    // digest of "7:aa,bb:99"
    let p2 = Proof::new(7, vec![String::from("aa"), String::from("bb")], 99, 1);
    assert_eq!(
        p2.work_hash,
        "545b2b4fd0470b517fe4c1a66e74bf12e72afd80aef8ffe824efd73f31773049"
    );
}

#[test]
fn hash_operation_result_exact() {
    // SHA3-256 of the empty input
    assert_eq!(
        Proof::hash_operation_result(&[]),
        "a7ffc6f8bf1ed76651c14756a061d662f580ff4de43b49fa82d80a4b80f8434a"
    );
}

#[test]
fn proof_verification_thresholds() {
    let mut p = Proof::new(1, vec![String::from("aa")], 5, 0);
    p.work_hash = String::from("00abcdef");
    // difficulty 100 requires two leading zeros
    assert_eq!(p.verify(100).unwrap(), true);
    // difficulty 1000 requires three
    assert_eq!(p.verify(1000).unwrap(), false);
    // tiny difficulties require none
    assert_eq!(p.verify(0).unwrap(), true);
    assert_eq!(p.verify(9).unwrap(), true);
}

#[test]
fn proof_acceptance_is_coarse() {
    // two hashes that differ only in trailing characters but share the
    // leading-zero count get the same verdict at every difficulty
    let mut a = Proof::new(1, vec![String::from("aa")], 5, 0);
    let mut b = Proof::new(2, vec![String::from("bb")], 6, 0);
    a.work_hash = String::from("007a11ce");
    b.work_hash = String::from("00f00d99");
    for difficulty in [1u64, 10, 99, 100, 101, 999, 1000, 10000] {
        assert_eq!(
            a.verify(difficulty).unwrap(),
            b.verify(difficulty).unwrap()
        );
    }
}

#[test]
fn leading_zero_and_magnitude_helpers() {
    assert_eq!(count_leading_zeros(&String::from("000x0")), 3);
    assert_eq!(count_leading_zeros(&String::from("x")), 0);
    assert_eq!(count_leading_zeros(&String::from("")), 0);
    assert_eq!(required_zeros(0), 0);
    assert_eq!(required_zeros(9), 0);
    assert_eq!(required_zeros(10), 1);
    assert_eq!(required_zeros(1000000), 6);
    assert_eq!(required_zeros(u64::MAX), 19);
}
