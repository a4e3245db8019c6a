//! Natural numbers of any size, held as big-endian bytes.
//!
//! The byte string is the form in which numbers travel between prover and
//! verifier. Leading zero bytes carry no meaning. The arithmetic itself is done
//! by `num_bigint::BigUint`; the functions that reach it are marked below and
//! their contracts are taken on trust.

use crate::hexadecimal::{decode_hex, hex_bytes, is_hex_text};
use num_bigint::BigUint;
use vstd::arithmetic::power::pow;
use vstd::prelude::*;

verus! {

/// The number that a big-endian byte string stands for.
pub open spec fn be_value(bytes: Seq<u8>) -> nat
    decreases bytes.len(),
{
    if bytes.len() == 0 {
        0
    } else {
        be_value(bytes.drop_last()) * 256 + bytes.last() as nat
    }
}

/// A natural number in big-endian bytes. Any byte string is a valid number.
#[derive(Debug)]
pub struct Natural {
    pub bytes: Vec<u8>,
}

impl View for Natural {
    type V = nat;

    open spec fn view(&self) -> nat {
        be_value(self.bytes@)
    }
}

/// Prepending a zero byte does not change the number.
pub proof fn lemma_leading_zero(bytes: Seq<u8>)
    ensures
        be_value(seq![0u8] + bytes) == be_value(bytes),
    decreases bytes.len(),
{
    let z = seq![0u8];
    if bytes.len() == 0 {
        assert(z + bytes =~= z);
        assert(z.drop_last() =~= Seq::<u8>::empty());
        assert(be_value(z.drop_last()) == 0);
    } else {
        lemma_leading_zero(bytes.drop_last());
        assert((z + bytes).drop_last() =~= z + bytes.drop_last());
    }
}

/// Any run of leading zero bytes is non-significant.
pub proof fn lemma_leading_zeros(zeros: Seq<u8>, bytes: Seq<u8>)
    requires
        forall|i: int| 0 <= i < zeros.len() ==> zeros[i] == 0u8,
    ensures
        be_value(zeros + bytes) == be_value(bytes),
    decreases zeros.len(),
{
    if zeros.len() == 0 {
        assert(zeros + bytes =~= bytes);
    } else {
        let rest = zeros.subrange(1, zeros.len() as int);
        lemma_leading_zeros(rest, bytes);
        lemma_leading_zero(rest + bytes);
        assert(zeros + bytes =~= seq![0u8] + (rest + bytes));
    }
}

/// The one-byte string `[b]` stands for `b`.
pub proof fn lemma_single_byte(b: u8)
    ensures
        be_value(seq![b]) == b as nat,
{
    let s = seq![b];
    assert(s.drop_last() =~= Seq::<u8>::empty());
    assert(be_value(s.drop_last()) == 0);
}

impl Natural {
    /// Reads a number from its big-endian bytes.
    pub fn from_bytes_be(bytes: Vec<u8>) -> (r: Natural)
        ensures
            r@ == be_value(bytes@),
            r.bytes@ == bytes@,
    {
        Natural { bytes }
    }

    /// The big-endian bytes of the number, as they were given or computed.
    /// Reading them back with `from_bytes_be` yields the same number.
    pub fn to_bytes_be(&self) -> (r: Vec<u8>)
        ensures
            r@ == self.bytes@,
            be_value(r@) == self@,
    {
        self.bytes.clone()
    }

    /// The number of a single byte.
    pub fn from_u8(b: u8) -> (r: Natural)
        ensures
            r@ == b as nat,
    {
        let mut bytes: Vec<u8> = Vec::new();
        bytes.push(b);
        proof {
            lemma_single_byte(b);
            assert(bytes@ =~= seq![b]);
        }
        Natural { bytes }
    }

    /// Reads a number written in hexadecimal, or says that the text is not
    /// an even number of hexadecimal digits.
    pub fn from_hex(text: &str) -> (r: Option<Natural>)
        ensures
            r is Some <==> is_hex_text(text@),
            r matches Some(n) ==> n.bytes@ == hex_bytes(text@) && n@ == be_value(hex_bytes(text@)),
    {
        match decode_hex(text) {
            Ok(bytes) => Some(Natural { bytes }),
            Err(_) => None,
        }
    }

    /// Whether the number is zero.
    pub fn is_zero(&self) -> (r: bool)
        ensures
            r == (self@ == 0),
    {
        let zero = Natural::from_u8(0);
        same_value(self, &zero)
    }
}

impl Clone for Natural {
    fn clone(&self) -> (r: Natural)
        ensures
            r@ == self@,
            r.bytes@ == self.bytes@,
    {
        Natural { bytes: self.bytes.clone() }
    }
}

/// Two numbers are equal where their values are, whatever their leading zeros.
impl PartialEq for Natural {
    fn eq(&self, other: &Natural) -> (r: bool) {
        same_value(self, other)
    }
}

impl Eq for Natural {}

impl vstd::std_specs::cmp::PartialEqSpecImpl for Natural {
    open spec fn obeys_eq_spec() -> bool {
        true
    }

    open spec fn eq_spec(&self, other: &Natural) -> bool {
        self@ == other@
    }
}

/// `BigUint::modpow`: the base raised to the exponent, reduced by the modulus.
/// The outside function panics on a zero modulus, which `requires` leaves out.
#[verifier::external_body]
pub(crate) fn mod_pow(base: &Natural, exponent: &Natural, modulus: &Natural) -> (r: Natural)
    requires
        modulus@ != 0,
    ensures
        r@ == pow(base@ as int, exponent@) % (modulus@ as int),
{
    let b = BigUint::from_bytes_be(&base.bytes);
    let e = BigUint::from_bytes_be(&exponent.bytes);
    let m = BigUint::from_bytes_be(&modulus.bytes);
    Natural { bytes: b.modpow(&e, &m).to_bytes_be() }
}

/// `BigUint`'s multiplication: the exact product, with no bound on its size.
#[verifier::external_body]
pub(crate) fn product(a: &Natural, b: &Natural) -> (r: Natural)
    ensures
        r@ == a@ * b@,
{
    let x = BigUint::from_bytes_be(&a.bytes);
    let y = BigUint::from_bytes_be(&b.bytes);
    Natural { bytes: (x * y).to_bytes_be() }
}

/// `BigUint`'s subtraction: the exact difference. The outside operator panics
/// where the result would be negative, which `requires` leaves out.
#[verifier::external_body]
pub(crate) fn difference(a: &Natural, b: &Natural) -> (r: Natural)
    requires
        a@ >= b@,
    ensures
        r@ == a@ - b@,
{
    let x = BigUint::from_bytes_be(&a.bytes);
    let y = BigUint::from_bytes_be(&b.bytes);
    Natural { bytes: (x - y).to_bytes_be() }
}

/// `BigUint`'s `>=`: the order of the two numbers.
#[verifier::external_body]
pub(crate) fn at_least(a: &Natural, b: &Natural) -> (r: bool)
    ensures
        r == (a@ >= b@),
{
    BigUint::from_bytes_be(&a.bytes) >= BigUint::from_bytes_be(&b.bytes)
}

/// `BigUint`'s `==`: whether the two byte strings stand for one number.
#[verifier::external_body]
pub(crate) fn same_value(a: &Natural, b: &Natural) -> (r: bool)
    ensures
        r == (a@ == b@),
{
    BigUint::from_bytes_be(&a.bytes) == BigUint::from_bytes_be(&b.bytes)
}

} // verus!
