use tpea::error::TpeaError;
use tpea::gf::{gf_add, gf_div, gf_inv, gf_mul, gf_sub};

#[test]
fn mul_known_products() {
    assert_eq!(gf_mul(0x57, 0x83), 0xC1);
    assert_eq!(gf_mul(0x57, 0x13), 0xFE);
    assert_eq!(gf_mul(0x02, 0x80), 0x1B);
    assert_eq!(gf_mul(0, 0xAB), 0);
    assert_eq!(gf_mul(1, 0xAB), 0xAB);
}

#[test]
fn inverse_known_value() {
    assert_eq!(gf_inv(0x53), Ok(0xCA));
    assert_eq!(gf_inv(1), Ok(1));
}

#[test]
fn inverse_of_zero_fails() {
    assert_eq!(gf_inv(0), Err(TpeaError::DivideByZero));
}

#[test]
fn divide_by_zero_fails() {
    assert_eq!(gf_div(7, 0), Err(TpeaError::DivideByZero));
}

#[test]
fn divide_undoes_multiply() {
    assert_eq!(gf_div(0xC1, 0x83), Ok(0x57));
    assert_eq!(gf_div(0, 0x83), Ok(0));
}

#[test]
fn every_nonzero_element_has_inverse() {
    for a in 1..=255u8 {
        let inv = gf_inv(a).unwrap();
        assert_eq!(gf_mul(a, inv), 1);
    }
}

#[test]
fn add_equals_sub() {
    for a in [0u8, 1, 0x53, 0xFF] {
        for b in [0u8, 7, 0xCA, 0x80] {
            assert_eq!(gf_add(a, b), gf_sub(a, b));
            assert_eq!(gf_add(a, b), a ^ b);
        }
    }
}

#[test]
fn mul_commutes_and_distributes() {
    for a in (0..=255u8).step_by(7) {
        for b in (0..=255u8).step_by(11) {
            assert_eq!(gf_mul(a, b), gf_mul(b, a));
            let c = a.wrapping_mul(3) ^ b;
            assert_eq!(gf_mul(a, gf_add(b, c)), gf_add(gf_mul(a, b), gf_mul(a, c)));
        }
    }
}
