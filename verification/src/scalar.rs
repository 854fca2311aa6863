//! Scalars of the secp256k1 group, kept as big-endian digits.

use crate::bytes::copy_bytes;
use vstd::prelude::*;
use vstd::slice::slice_subrange;

verus! {

/// The upper sixteen bytes of the group order.
pub const ORDER_HIGH: u128 = 0xFFFFFFFFFFFFFFFFFFFFFFFFFFFFFFFE;

/// The lower sixteen bytes of the group order.
pub const ORDER_LOW: u128 = 0xBAAEDCE6AF48A03BBFD25E8CD0364141;

/// The largest number of digits that a scalar can have.
pub const SCALAR_WIDTH: usize = 32;

/// The order of the secp256k1 group.
pub open spec fn curve_order() -> nat {
    0xFFFFFFFFFFFFFFFFFFFFFFFFFFFFFFFEBAAEDCE6AF48A03BBFD25E8CD0364141nat
}

/// 256 to the power `n`.
pub open spec fn pow256(n: nat) -> nat
    decreases n,
{
    if n == 0 {
        1
    } else {
        256 * pow256((n - 1) as nat)
    }
}

/// The number that a byte string spells, most significant byte first.
pub open spec fn be_value(bytes: Seq<u8>) -> nat
    decreases bytes.len(),
{
    if bytes.len() == 0 {
        0
    } else {
        256 * be_value(bytes.drop_last()) + bytes.last() as nat
    }
}

/// A byte string without its leading zero bytes.
pub open spec fn trim(bytes: Seq<u8>) -> Seq<u8>
    decreases bytes.len(),
{
    if bytes.len() > 0 && bytes[0] == 0 {
        trim(bytes.skip(1))
    } else {
        bytes
    }
}

/// Whether a number can serve as a secret share: it is neither zero nor
/// as large as the group order.
pub open spec fn in_scalar_range(n: nat) -> bool {
    0 < n < curve_order()
}

/// Whether a byte string is the shortest spelling of a number in scalar range.
pub open spec fn is_scalar_digits(digits: Seq<u8>) -> bool {
    &&& in_scalar_range(be_value(digits))
    &&& trim(digits) == digits
}

/// Sixteen bytes hold the numbers below 2 to the 128.
pub proof fn lemma_pow256_sixteen()
    ensures
        pow256(16) == 0x1_0000_0000_0000_0000_0000_0000_0000_0000nat,
{
    reveal_with_fuel(pow256, 17);
}

/// The powers of 256 are positive and grow with the exponent.
pub proof fn lemma_pow256_increases(low: nat, high: nat)
    requires
        low <= high,
    ensures
        0 < pow256(low) <= pow256(high),
    decreases high,
{
    if low < high {
        lemma_pow256_increases(low, (high - 1) as nat);
    } else if high > 0 {
        lemma_pow256_increases(0, (high - 1) as nat);
    }
}

/// Exponents add where powers multiply.
pub proof fn lemma_pow256_adds(a: nat, b: nat)
    ensures
        pow256(a + b) == pow256(a) * pow256(b),
    decreases b,
{
    if b == 0 {
        assert(pow256(a) * 1 == pow256(a)) by (nonlinear_arith);
    } else {
        let rest = (b - 1) as nat;
        lemma_pow256_adds(a, rest);
        assert(256 * (pow256(a) * pow256(rest)) == pow256(a) * (256 * pow256(rest)))
            by (nonlinear_arith);
    }
}

/// The two halves of the group order, put together, are the order.
pub proof fn lemma_order_halves()
    ensures
        curve_order() == ORDER_HIGH * pow256(16) + ORDER_LOW,
{
    lemma_pow256_sixteen();
}

/// The value of two strings written one after the other.
pub proof fn lemma_be_value_concat(a: Seq<u8>, b: Seq<u8>)
    ensures
        be_value(a + b) == be_value(a) * pow256(b.len()) + be_value(b),
    decreases b.len(),
{
    if b.len() == 0 {
        assert(be_value(a) * 1 == be_value(a)) by (nonlinear_arith);
    } else {
        let front = b.drop_last();
        assert((a + b).drop_last() == a + front);
        lemma_be_value_concat(a, front);
        let va = be_value(a);
        let vf = be_value(front);
        let p = pow256(front.len());
        assert(256 * (va * p + vf) == va * (256 * p) + 256 * vf) by (nonlinear_arith);
    }
}

/// A string of `n` bytes spells a number below 256 to the `n`.
pub proof fn lemma_be_value_bound(bytes: Seq<u8>)
    ensures
        be_value(bytes) < pow256(bytes.len()),
    decreases bytes.len(),
{
    if bytes.len() > 0 {
        lemma_be_value_bound(bytes.drop_last());
    }
}

/// Leading zero bytes do not change the value.
pub proof fn lemma_be_value_skips_zero(bytes: Seq<u8>)
    requires
        bytes.len() > 0,
        bytes[0] == 0,
    ensures
        be_value(bytes) == be_value(bytes.skip(1)),
{
    let head = bytes.subrange(0, 1);
    assert(head + bytes.skip(1) == bytes);
    lemma_be_value_concat(head, bytes.skip(1));
    reveal_with_fuel(be_value, 2);
    assert(0 * pow256(bytes.skip(1).len()) == 0) by (nonlinear_arith);
}

/// A string that starts with a non-zero byte spells at least 256 to the
/// number of bytes that follow.
pub proof fn lemma_be_value_leading(bytes: Seq<u8>)
    requires
        bytes.len() > 0,
        bytes[0] != 0,
    ensures
        be_value(bytes) >= pow256((bytes.len() - 1) as nat),
{
    let head = bytes.subrange(0, 1);
    let rest = bytes.skip(1);
    assert(head + rest == bytes);
    lemma_be_value_concat(head, rest);
    reveal_with_fuel(be_value, 2);
    assert(be_value(head) == bytes[0] as nat);
    let p = pow256(rest.len());
    let lead = bytes[0] as nat;
    assert(lead * p >= p) by (nonlinear_arith)
        requires
            lead >= 1,
            p >= 0,
    ;
}

/// Trimming keeps the value.
pub proof fn lemma_trim_keeps_value(bytes: Seq<u8>)
    ensures
        be_value(trim(bytes)) == be_value(bytes),
        trim(trim(bytes)) == trim(bytes),
        trim(bytes).len() <= bytes.len(),
    decreases bytes.len(),
{
    if bytes.len() > 0 && bytes[0] == 0 {
        lemma_be_value_skips_zero(bytes);
        lemma_trim_keeps_value(bytes.skip(1));
    }
}

/// Trimming a string that keeps its length leaves it as it is.
pub proof fn lemma_trim_same_length(bytes: Seq<u8>)
    requires
        trim(bytes).len() == bytes.len(),
    ensures
        trim(bytes) == bytes,
{
    if bytes.len() > 0 && bytes[0] == 0 {
        lemma_trim_keeps_value(bytes.skip(1));
    }
}

/// The number that at most sixteen bytes spell, most significant first.
pub fn be_u128(bytes: &[u8]) -> (value: u128)
    requires
        bytes@.len() <= 16,
    ensures
        value == be_value(bytes@),
{
    let mut value: u128 = 0;
    let mut i: usize = 0;
    while i < bytes.len()
        invariant
            i <= bytes@.len() <= 16,
            value == be_value(bytes@.subrange(0, i as int)),
        decreases bytes@.len() - i,
    {
        proof {
            let seen = bytes@.subrange(0, i as int);
            lemma_be_value_bound(seen);
            lemma_pow256_increases(i as nat, 15);
            lemma_pow256_sixteen();
            let next: int = i + 1;
            assert(bytes@.subrange(0, next).drop_last() == seen);
        }
        value = value * 256 + bytes[i] as u128;
        i += 1;
    }
    proof {
        assert(bytes@ == bytes@.subrange(0, bytes@.len() as int));
    }
    value
}

/// How many zero bytes a string starts with.
pub fn leading_zeros(bytes: &[u8]) -> (count: usize)
    ensures
        count <= bytes@.len(),
        bytes@.skip(count as int) == trim(bytes@),
{
    let mut count: usize = 0;
    proof {
        assert(bytes@.skip(0) == bytes@);
    }
    while count < bytes.len() && bytes[count] == 0
        invariant
            count <= bytes@.len(),
            trim(bytes@.skip(count as int)) == trim(bytes@),
        decreases bytes@.len() - count,
    {
        proof {
            let rest = bytes@.skip(count as int);
            let next: int = count + 1;
            assert(rest.skip(1) == bytes@.skip(next));
        }
        count += 1;
    }
    count
}

/// Whether `bytes` spell a number in scalar range.
pub fn spells_scalar(bytes: &[u8]) -> (ok: bool)
    ensures
        ok == in_scalar_range(be_value(bytes@)),
{
    let start = leading_zeros(bytes);
    proof {
        lemma_trim_keeps_value(bytes@);
    }
    digits_in_range(slice_subrange(bytes, start, bytes.len()))
}

/// Whether `digits`, which has no leading zero byte, spells a number in
/// scalar range.
fn digits_in_range(digits: &[u8]) -> (ok: bool)
    requires
        trim(digits@) == digits@,
    ensures
        ok == in_scalar_range(be_value(digits@)),
{
    let n = digits.len();
    if n == 0 {
        return false;
    }
    proof {
        if digits@[0] == 0 {
            lemma_trim_keeps_value(digits@.skip(1));
        }
        lemma_be_value_leading(digits@);
        lemma_pow256_sixteen();
        lemma_pow256_adds(16, 16);
    }
    if n > SCALAR_WIDTH {
        proof {
            lemma_pow256_increases(32, (n - 1) as nat);
        }
        return false;
    }
    proof {
        lemma_pow256_increases(0, (n - 1) as nat);
    }
    if n <= 16 {
        proof {
            lemma_be_value_bound(digits@);
            lemma_pow256_increases(n as nat, 16);
        }
        return true;
    }
    let split = n - 16;
    let high = be_u128(slice_subrange(digits, 0, split));
    let low = be_u128(slice_subrange(digits, split, n));
    proof {
        let head = digits@.subrange(0, split as int);
        let tail = digits@.subrange(split as int, n as int);
        assert(head + tail == digits@);
        lemma_be_value_concat(head, tail);
    }
    high < ORDER_HIGH || (high == ORDER_HIGH && low < ORDER_LOW)
}

/// A secret share: a number in scalar range, kept as its shortest
/// big-endian spelling.
#[derive(Debug, PartialEq, Eq)]
pub struct Scalar {
    digits: Vec<u8>,
}

impl View for Scalar {
    type V = Seq<u8>;

    closed spec fn view(&self) -> Seq<u8> {
        self.digits@
    }
}

impl Clone for Scalar {
    fn clone(&self) -> (copy: Self)
        ensures
            copy@ == self@,
    {
        proof {
            use_type_invariant(self);
        }
        Scalar { digits: copy_bytes(self.digits.as_slice()) }
    }
}

impl Scalar {
    #[verifier::type_invariant]
    spec fn well_formed(self) -> bool {
        is_scalar_digits(self.digits@)
    }

    /// The number that the scalar holds.
    pub open spec fn value(&self) -> nat {
        be_value(self@)
    }

    /// Reads a scalar from a big-endian spelling, with or without leading
    /// zero bytes. `None` if the number is zero or not below the group order.
    pub fn from_bytes(bytes: &[u8]) -> (scalar: Option<Scalar>)
        ensures
            match scalar {
                Some(s) => in_scalar_range(be_value(bytes@)) && s@ == trim(bytes@),
                None => !in_scalar_range(be_value(bytes@)),
            },
    {
        let start = leading_zeros(bytes);
        let digits = slice_subrange(bytes, start, bytes.len());
        proof {
            lemma_trim_keeps_value(bytes@);
        }
        if digits_in_range(digits) {
            Some(Scalar { digits: copy_bytes(digits) })
        } else {
            None
        }
    }

    /// The shortest big-endian spelling of the scalar.
    pub fn to_bytes(&self) -> (digits: Vec<u8>)
        ensures
            digits@ == self@,
            is_scalar_digits(digits@),
    {
        proof {
            use_type_invariant(self);
        }
        copy_bytes(self.digits.as_slice())
    }

    /// The digits of the scalar, borrowed.
    pub fn as_bytes(&self) -> (digits: &[u8])
        ensures
            digits@ == self@,
            is_scalar_digits(digits@),
    {
        proof {
            use_type_invariant(self);
        }
        self.digits.as_slice()
    }
}

} // verus!
