use curv_kzen::arithmetic::traits::Converter;
use curv_kzen::elliptic::curves::secp256_k1::{FE, GE};
use curv_kzen::elliptic::curves::traits::{ECPoint, ECScalar};
use curv_kzen::BigInt;
use will::curve::Point;
use will::scalar::Scalar;

fn key_of(point: &GE) -> Vec<u8> {
    point.pk_to_key_slice()[1..].to_vec()
}

fn scalar_of(n: u64) -> FE {
    ECScalar::from(&BigInt::from(n))
}

#[test]
fn generator_reads_back() {
    let g = GE::generator();
    let point = Point::from_bytes(&key_of(&g)).unwrap();
    assert_eq!(point.to_bytes(), key_of(&g));
    assert_eq!(point.to_bytes().len(), 64);
}

#[test]
fn generator_has_its_known_coordinates() {
    let point = Point::from_bytes(&key_of(&GE::generator())).unwrap();
    let key = point.to_bytes();
    assert_eq!(
        key[..8],
        [0x79, 0xBE, 0x66, 0x7E, 0xF9, 0xDC, 0xBB, 0xAC]
    );
    assert_eq!(
        key[32..40],
        [0x48, 0x3A, 0xDA, 0x77, 0x26, 0xA3, 0xC4, 0x65]
    );
}

#[test]
fn bytes_off_the_curve_are_no_point() {
    assert!(Point::from_bytes(&[1u8; 64]).is_none());
    assert!(Point::from_bytes(&[0u8; 64]).is_none());
    assert!(Point::from_bytes(&[]).is_none());
}

#[test]
fn compressed_form_is_written_back_uncompressed() {
    let g = GE::generator();
    let x = &key_of(&g)[..32];
    // 32 bytes are read as the x coordinate of a point with even y.
    let point = Point::from_bytes(x).unwrap();
    assert_eq!(point.to_bytes(), key_of(&g));
}

#[test]
fn bytes_after_the_coordinates_are_ignored() {
    let g = GE::generator();
    let mut long = key_of(&g);
    long.extend_from_slice(&[9, 9, 9]);
    assert_eq!(Point::from_bytes(&long).unwrap().to_bytes(), key_of(&g));
}

#[test]
fn scaling_agrees_with_the_group() {
    let g = GE::generator();
    let point = Point::from_bytes(&key_of(&g)).unwrap();
    for n in [1u64, 2, 3, 1000, u64::MAX] {
        let expected = key_of(&(g * scalar_of(n)));
        let scalar = Scalar::from_bytes(&n.to_be_bytes()).unwrap();
        assert_eq!(point.scale(&scalar), expected);
    }
}

#[test]
fn scaling_by_one_keeps_the_point() {
    let p = GE::generator() * scalar_of(77);
    let point = Point::from_bytes(&key_of(&p)).unwrap();
    let one = Scalar::from_bytes(&[1]).unwrap();
    assert_eq!(point.scale(&one), key_of(&p));
    assert_ne!(point.scale(&Scalar::from_bytes(&[2]).unwrap()), key_of(&p));
}

#[test]
fn scaling_twice_multiplies_the_scalars() {
    let g = GE::generator();
    let start = Point::from_bytes(&key_of(&g)).unwrap();
    let by_six = start.scale(&Scalar::from_bytes(&[6]).unwrap());
    let by_two = start.scale(&Scalar::from_bytes(&[2]).unwrap());
    let then_three =
        Point::from_bytes(&by_two).unwrap().scale(&Scalar::from_bytes(&[3]).unwrap());
    assert_eq!(by_six, then_three);
}

#[test]
fn point_clone_is_equal() {
    let point = Point::from_bytes(&key_of(&GE::generator())).unwrap();
    assert!(point.clone().same_as(&point));
    assert_eq!(point.clone().to_bytes(), point.to_bytes());
}

#[test]
fn points_are_compared_by_what_they_are() {
    let g = GE::generator();
    let full = Point::from_bytes(&key_of(&g)).unwrap();
    let compressed = Point::from_bytes(&key_of(&g)[..32]).unwrap();
    assert!(full.same_as(&compressed));

    let other = Point::from_bytes(&key_of(&(g * scalar_of(2)))).unwrap();
    assert!(!full.same_as(&other));
}
