use curv_kzen::arithmetic::traits::Converter;
use curv_kzen::elliptic::curves::secp256_k1::FE;
use curv_kzen::elliptic::curves::traits::ECScalar;
use curv_kzen::BigInt;
use will::scalar::{
    be_u128, leading_zeros, spells_scalar, Scalar, ORDER_HIGH, ORDER_LOW, SCALAR_WIDTH,
};

const ORDER: [u8; 32] = [
    0xFF, 0xFF, 0xFF, 0xFF, 0xFF, 0xFF, 0xFF, 0xFF, 0xFF, 0xFF, 0xFF, 0xFF, 0xFF, 0xFF, 0xFF, 0xFE,
    0xBA, 0xAE, 0xDC, 0xE6, 0xAF, 0x48, 0xA0, 0x3B, 0xBF, 0xD2, 0x5E, 0x8C, 0xD0, 0x36, 0x41, 0x41,
];

#[test]
fn big_endian_value_of_short_strings() {
    assert_eq!(be_u128(&[]), 0);
    assert_eq!(be_u128(&[0x01, 0x02]), 0x0102);
    assert_eq!(be_u128(&[0xFF; 16]), u128::MAX);
    assert_eq!(be_u128(&[0, 0, 7]), 7);
}

#[test]
fn leading_zeros_are_counted() {
    assert_eq!(leading_zeros(&[]), 0);
    assert_eq!(leading_zeros(&[0, 0, 0]), 3);
    assert_eq!(leading_zeros(&[0, 5, 0]), 1);
    assert_eq!(leading_zeros(&[9]), 0);
}

#[test]
fn zero_is_no_scalar() {
    assert!(Scalar::from_bytes(&[]).is_none());
    assert!(Scalar::from_bytes(&[0]).is_none());
    assert!(Scalar::from_bytes(&[0; 40]).is_none());
}

#[test]
fn scalar_must_be_below_the_order() {
    assert!(Scalar::from_bytes(&ORDER).is_none());

    let mut below = ORDER;
    below[31] -= 1;
    assert_eq!(Scalar::from_bytes(&below).unwrap().to_bytes(), below.to_vec());

    let mut above = ORDER;
    above[31] += 1;
    assert!(Scalar::from_bytes(&above).is_none());

    let mut high_half_smaller = [0xFF; 32];
    high_half_smaller[15] = 0xFD;
    assert!(Scalar::from_bytes(&high_half_smaller).is_some());

    assert!(Scalar::from_bytes(&[0xFF; 32]).is_none());
    assert!(Scalar::from_bytes(&[1; 33]).is_none());
}

#[test]
fn scalar_drops_leading_zero_bytes() {
    let scalar = Scalar::from_bytes(&[0, 0, 1, 0]).unwrap();
    assert_eq!(scalar.to_bytes(), vec![1, 0]);
    assert_eq!(scalar.as_bytes(), &[1, 0]);

    let mut padded = vec![0u8; 8];
    padded.extend_from_slice(&[0x7F; 32]);
    assert_eq!(Scalar::from_bytes(&padded).unwrap().to_bytes(), vec![0x7F; 32]);
}

#[test]
fn short_scalars_are_in_range() {
    assert_eq!(Scalar::from_bytes(&[1]).unwrap().to_bytes(), vec![1]);
    assert_eq!(Scalar::from_bytes(&[0xFF; 16]).unwrap().to_bytes(), vec![0xFF; 16]);
    assert_eq!(Scalar::from_bytes(&[0xFF; 17]).unwrap().to_bytes(), vec![0xFF; 17]);
    assert_eq!(Scalar::from_bytes(b"dummy secret share").unwrap().to_bytes(), b"dummy secret share".to_vec());
}

#[test]
fn range_check_on_bytes() {
    assert!(!spells_scalar(&[]));
    assert!(!spells_scalar(&[0, 0]));
    assert!(spells_scalar(&[1]));
    assert!(spells_scalar(&[0, 0, 1]));
    assert!(!spells_scalar(&ORDER));
    assert!(!spells_scalar(&[1; 33]));
    let mut padded = vec![0u8; 5];
    padded.extend_from_slice(&[0x10; 32]);
    assert!(spells_scalar(&padded));
}

#[test]
fn scalar_clone_is_equal() {
    let scalar = Scalar::from_bytes(&[3, 4, 5]).unwrap();
    assert_eq!(scalar.clone(), scalar);
}

#[test]
fn order_is_the_order_of_the_group() {
    let mut order = ORDER_HIGH.to_be_bytes().to_vec();
    order.extend_from_slice(&ORDER_LOW.to_be_bytes());
    assert_eq!(order, ORDER.to_vec());
    assert_eq!(order.len(), SCALAR_WIDTH);
    assert_eq!(FE::q().to_bytes(), order);
}

#[test]
fn scalars_spell_what_the_group_reads() {
    for bytes in [vec![1u8], vec![0, 0, 7, 9], vec![0xAB; 32], b"dummy secret share".to_vec()] {
        let scalar = Scalar::from_bytes(&bytes).unwrap();
        let read: FE = ECScalar::from(&BigInt::from_bytes(&bytes));
        assert_eq!(scalar.to_bytes(), read.to_big_int().to_bytes());
    }
}
