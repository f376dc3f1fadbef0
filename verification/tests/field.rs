use arith_circuit::error::Error;
use arith_circuit::field::{Fe, Field};
use arith_circuit::value::Value;
use halo2_proofs::pasta::group::ff::PrimeField;
use halo2_proofs::pasta::Fp;

/// The little-endian bytes of `p - 1`.
fn minus_one_bytes() -> [u8; 32] {
    let mut bytes = [0u8; 32];
    let low: [u8; 16] = [
        0x00, 0x00, 0x00, 0x00, 0xed, 0x30, 0x2d, 0x99, 0x1b, 0xf9, 0x4c, 0x09, 0xfc, 0x98, 0x46,
        0x22,
    ];
    bytes[..16].copy_from_slice(&low);
    bytes[31] = 0x40;
    bytes
}

#[test]
fn from_u64_is_little_endian() {
    let mut expected = [0u8; 32];
    expected[0] = 0x02;
    expected[1] = 0x01;
    assert_eq!(Fe::from_u64(0x0102).to_bytes(), expected);
    let mut top = [0u8; 32];
    for b in top.iter_mut().take(8) {
        *b = 0xff;
    }
    assert_eq!(Fe::from_u64(u64::MAX).to_bytes(), top);
}

#[test]
fn zero_and_one() {
    assert_eq!(Fe::zero().to_bytes(), [0u8; 32]);
    assert_eq!(Fe::one(), Fe::from_u64(1));
    assert_eq!(Fe::zero(), Fe::from_u64(0));
    assert!(Fe::zero().is_zero());
    assert!(!Fe::one().is_zero());
    assert_ne!(Fe::zero(), Fe::one());
}

#[test]
fn addition_of_small_elements() {
    let sum = Fe::from_u64(3).add(&Fe::from_u64(4));
    assert_eq!(sum, Fe::from_u64(7));
    assert_ne!(sum, Fe::from_u64(3));
    assert_ne!(sum, Fe::from_u64(4));
}

#[test]
fn addition_wraps_at_the_modulus() {
    let minus_one = Fe::zero().sub(&Fe::one());
    assert_eq!(minus_one.add(&Fe::one()), Fe::zero());
    assert_eq!(minus_one.add(&Fe::from_u64(9)), Fe::from_u64(8));
}

#[test]
fn subtraction_of_small_elements() {
    let difference = Fe::from_u64(10).sub(&Fe::from_u64(4));
    assert_eq!(difference, Fe::from_u64(6));
    assert_eq!(Fe::from_u64(5).sub(&Fe::from_u64(5)), Fe::zero());
}

#[test]
fn subtraction_below_zero_wraps() {
    let minus_one = Fe::zero().sub(&Fe::one());
    assert_eq!(minus_one.to_bytes(), minus_one_bytes());
}

#[test]
fn multiplication_of_small_elements() {
    let product = Fe::from_u64(6).mul(&Fe::from_u64(7));
    assert_eq!(product, Fe::from_u64(42));
    assert_eq!(Fe::from_u64(6).mul(&Fe::zero()), Fe::zero());
    assert_eq!(Fe::from_u64(6).mul(&Fe::one()), Fe::from_u64(6));
}

#[test]
fn multiplication_reduces_modulo_the_order() {
    let minus_one = Fe::zero().sub(&Fe::one());
    assert_eq!(minus_one.mul(&minus_one), Fe::one());
    let minus_two = Fe::zero().sub(&Fe::from_u64(2));
    assert_eq!(minus_one.mul(&Fe::from_u64(2)), minus_two);
}

#[test]
fn arithmetic_agrees_with_pasta() {
    let samples: [u64; 6] = [0, 1, 2, 0xdead_beef, u64::MAX - 1, u64::MAX];
    for &x in samples.iter() {
        for &y in samples.iter() {
            let (a, b) = (Fe::from_u64(x), Fe::from_u64(y));
            let (fa, fb) = (Fp::from(x), Fp::from(y));
            assert_eq!(a.to_bytes(), fa.to_repr());
            assert_eq!(a.add(&b).to_bytes(), (fa + fb).to_repr());
            assert_eq!(a.sub(&b).to_bytes(), (fa - fb).to_repr());
            assert_eq!(a.mul(&b).to_bytes(), (fa * fb).to_repr());
            let square = a.mul(&a);
            assert_eq!(square.mul(&b).to_bytes(), (fa * fa * fb).to_repr());
            assert_eq!(a == b, fa == fb);
        }
    }
}

#[test]
fn known_and_unknown_values() {
    let seven = Value::known(Fe::from_u64(7));
    assert!(seven.is_known());
    assert!(!Value::<Fe>::unknown().is_known());
    assert_eq!(seven, Value::known(Fe::from_u64(7)));
    assert_ne!(seven, Value::known(Fe::from_u64(8)));
    assert_ne!(seven, Value::unknown());
    assert_eq!(Value::<Fe>::unknown(), Value::Unknown);
    assert_eq!(seven, Value::Known(Fe::from_u64(7)));
}

#[test]
fn reading_an_unknown_value_is_a_synthesis_error() {
    assert_eq!(Value::known(Fe::from_u64(7)).assign(), Ok(Fe::from_u64(7)));
    assert_eq!(Value::<Fe>::unknown().assign(), Err(Error::Synthesis));
}

#[test]
fn arithmetic_on_values_is_known_when_both_operands_are() {
    let three = Value::known(Fe::from_u64(3));
    let four = Value::known(Fe::from_u64(4));
    let unknown = Value::<Fe>::unknown();
    assert_eq!(three.add(&four), Value::known(Fe::from_u64(7)));
    assert_eq!(four.sub(&three), Value::known(Fe::from_u64(1)));
    assert_eq!(three.mul(&four), Value::known(Fe::from_u64(12)));
    assert_eq!(three.add(&unknown), Value::unknown());
    assert_eq!(unknown.sub(&three), Value::unknown());
    assert_eq!(unknown.mul(&four), Value::unknown());
    let zero = Value::known(Fe::zero());
    assert_eq!(zero.mul(&unknown), Value::unknown());
}

#[test]
fn error_messages_differ() {
    assert_ne!(Error::Synthesis.message(), Error::OutOfRows.message());
    assert!(!Error::OutOfRows.message().is_empty());
}
