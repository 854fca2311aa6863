//! Points of the secp256k1 group. The arithmetic is curv's; this module
//! states what the library relies on and keeps points as bytes.

use crate::bytes::{copy_bytes, same_bytes};
use crate::scalar::{is_scalar_digits, Scalar};
use curv_kzen::arithmetic::traits::Converter;
use curv_kzen::elliptic::curves::secp256_k1::{FE, GE};
use curv_kzen::elliptic::curves::traits::{ECPoint, ECScalar};
use curv_kzen::BigInt;
use vstd::prelude::*;
use vstd::slice::slice_subrange;

verus! {

/// Length of a point written with its leading tag byte.
pub const ENCODING_WIDTH: usize = 65;

/// Length of a point written without the tag: both coordinates, 32 bytes each.
pub const KEY_WIDTH: usize = 64;

/// What curv makes of `bytes`: the uncompressed, tagged writing of the point
/// that `Secp256k1Point::from_bytes` reads from them, or `None` where it
/// reads no point.
pub uninterp spec fn point_encoding(bytes: Seq<u8>) -> Option<Seq<u8>>;

/// The uncompressed, tagged writing of the point that `point` spells,
/// multiplied by the scalar that `scalar` spells.
pub uninterp spec fn scaled_point(point: Seq<u8>, scalar: Seq<u8>) -> Seq<u8>;

/// Whether `bytes` spell a point.
pub open spec fn is_point(bytes: Seq<u8>) -> bool {
    point_encoding(bytes) is Some
}

/// The point that `bytes` spell, written without the tag byte.
pub open spec fn point_key(bytes: Seq<u8>) -> Seq<u8>
    recommends
        is_point(bytes),
{
    point_encoding(bytes)->0.skip(1)
}

/// The product of the point that `point` spells and a scalar, written
/// without the tag byte.
pub open spec fn product_key(point: Seq<u8>, scalar: Seq<u8>) -> Seq<u8> {
    scaled_point(point, scalar).skip(1)
}

/// Reads a point with curv's `Secp256k1Point::from_bytes` and writes it back
/// with `pk_to_key_slice`. The reading fails on bytes that spell no point of
/// the curve; the writing is the tag byte 4 and the two coordinates, each
/// padded to 32 bytes, so 65 bytes in all.
#[verifier::external_body]
fn decode_point(bytes: &[u8]) -> (encoding: Option<Vec<u8>>)
    ensures
        match encoding {
            Some(e) => point_encoding(bytes@) == Some(e@) && e@.len() == ENCODING_WIDTH,
            None => point_encoding(bytes@) is None,
        },
{
    match GE::from_bytes(bytes) {
        Ok(point) => Some(point.pk_to_key_slice()),
        Err(_) => None,
    }
}

/// Multiplies a point by a scalar with curv's `Mul` for `Secp256k1Point`
/// and writes the product with `pk_to_key_slice` (65 bytes). The point
/// is read with `from_bytes`, the scalar with `BigInt::from_bytes` and
/// `ECScalar::from`. curv panics on bytes that spell no point and on a
/// scalar that is zero modulo the group order: both are left out.
#[verifier::external_body]
fn scale_point(point: &[u8], scalar: &[u8]) -> (product: Vec<u8>)
    requires
        is_point(point@),
        is_scalar_digits(scalar@),
    ensures
        product@ == scaled_point(point@, scalar@),
        product@.len() == ENCODING_WIDTH,
{
    let point = GE::from_bytes(point).unwrap();
    let scalar: FE = ECScalar::from(&BigInt::from_bytes(scalar));
    (point * scalar).pk_to_key_slice()
}

/// A point of the group, as the bytes it was read from and its canonical
/// writing.
#[derive(Debug)]
pub struct Point {
    source: Vec<u8>,
    encoding: Vec<u8>,
}

impl View for Point {
    type V = Seq<u8>;

    /// The point written without the tag byte: the form in which public
    /// keys travel and under which shares are filed.
    closed spec fn view(&self) -> Seq<u8> {
        self.encoding@.skip(1)
    }
}

impl Clone for Point {
    fn clone(&self) -> (copy: Self)
        ensures
            copy@ == self@,
            copy.source() == self.source(),
    {
        proof {
            use_type_invariant(self);
        }
        Point {
            source: copy_bytes(self.source.as_slice()),
            encoding: copy_bytes(self.encoding.as_slice()),
        }
    }
}

impl Point {
    #[verifier::type_invariant]
    spec fn well_formed(self) -> bool {
        &&& point_encoding(self.source@) == Some(self.encoding@)
        &&& self.encoding@.len() == ENCODING_WIDTH
    }

    /// The bytes that the point was read from.
    pub closed spec fn source(&self) -> Seq<u8> {
        self.source@
    }

    /// The product of this point and a scalar, written without the tag byte.
    pub open spec fn times(&self, scalar: Seq<u8>) -> Seq<u8> {
        product_key(self.source(), scalar)
    }

    /// Reads a point; `None` where the bytes spell no point of the curve.
    pub fn from_bytes(bytes: &[u8]) -> (point: Option<Point>)
        ensures
            match point {
                Some(p) => is_point(bytes@) && p@ == point_key(bytes@) && p.source() == bytes@,
                None => !is_point(bytes@),
            },
    {
        match decode_point(bytes) {
            Some(encoding) => Some(Point { source: copy_bytes(bytes), encoding }),
            None => None,
        }
    }

    /// Whether two values are the same point, however each was spelled.
    pub fn same_as(&self, other: &Point) -> (same: bool)
        ensures
            same == (self@ == other@),
    {
        proof {
            use_type_invariant(self);
            use_type_invariant(other);
        }
        same_bytes(
            slice_subrange(self.encoding.as_slice(), 1, ENCODING_WIDTH),
            slice_subrange(other.encoding.as_slice(), 1, ENCODING_WIDTH),
        )
    }

    /// The point written without the tag byte.
    pub fn to_bytes(&self) -> (key: Vec<u8>)
        ensures
            key@ == self@,
            key@.len() == KEY_WIDTH,
    {
        proof {
            use_type_invariant(self);
        }
        copy_bytes(slice_subrange(self.encoding.as_slice(), 1, ENCODING_WIDTH))
    }

    /// Multiplies the point by a scalar and writes the product without the
    /// tag byte.
    pub fn scale(&self, scalar: &Scalar) -> (product: Vec<u8>)
        ensures
            product@ == self.times(scalar@),
            product@.len() == KEY_WIDTH,
    {
        proof {
            use_type_invariant(self);
        }
        let encoding = scale_point(self.source.as_slice(), scalar.as_bytes());
        copy_bytes(slice_subrange(encoding.as_slice(), 1, ENCODING_WIDTH))
    }
}

} // verus!
