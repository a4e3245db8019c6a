//! Random challenges and tokens, drawn from the operating system's generator.

use crate::natural::Natural;
use num_bigint::{BigUint, RandBigInt};
use rand::Rng;
use vstd::prelude::*;

verus! {

/// A letter of either case or a digit.
pub open spec fn is_alphanumeric(c: char) -> bool {
    ('0' <= c && c <= '9') || ('a' <= c && c <= 'z') || ('A' <= c && c <= 'Z')
}

/// A token of the given length over the alphanumeric alphabet.
pub open spec fn is_token(text: Seq<char>, size: nat) -> bool {
    text.len() == size && forall|i: int|
        0 <= i < text.len() ==> is_alphanumeric(#[trigger] text[i])
}

/// `RandBigInt::gen_biguint_below` on `rand::thread_rng()`: some number below
/// the limit. Which one is left open. The outside function panics on a zero
/// limit, which `requires` leaves out.
#[verifier::external_body]
pub(crate) fn random_below(limit: &Natural) -> (r: Natural)
    requires
        limit@ != 0,
    ensures
        r@ < limit@,
{
    let bound = BigUint::from_bytes_be(&limit.bytes);
    Natural { bytes: rand::thread_rng().gen_biguint_below(&bound).to_bytes_be() }
}

/// `Rng::sample_iter` with `rand::distributions::Alphanumeric` on
/// `rand::thread_rng()`: `size` characters, each a letter or a digit. Which
/// ones is left open.
#[verifier::external_body]
pub(crate) fn random_alphanumeric(size: usize) -> (r: String)
    ensures
        is_token(r@, size as nat),
{
    rand::thread_rng().sample_iter(rand::distributions::Alphanumeric).take(size).map(
        char::from,
    ).collect()
}

} // verus!
