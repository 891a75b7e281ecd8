//! Arbitrary-precision unsigned integers carried as big-endian byte strings,
//! the form in which they travel between prover and verifier.
//!
//! The arithmetic itself is done by `num_bigint`; each wrapper converts its
//! arguments to `BigUint`, makes one call and converts the result back.
use num_bigint::BigUint;
use num_bigint::RandBigInt;
use vstd::arithmetic::power::pow;
use vstd::prelude::*;

verus! {

/// The number that a big-endian byte string denotes (the empty string is 0).
pub open spec fn be_value(s: Seq<u8>) -> nat
    decreases s.len(),
{
    if s.len() == 0 {
        0
    } else {
        be_value(s.drop_last()) * 256 + s.last() as nat
    }
}

/// `(base ^ exp) mod modulus` over the integers.
pub open spec fn mod_pow_spec(base: nat, exp: nat, modulus: nat) -> nat
    recommends
        modulus > 0,
{
    (pow(base as int, exp) % (modulus as int)) as nat
}

/// Relies on `BigUint::modpow`: `(self ^ exponent) % modulus`, which panics
/// only on a zero modulus.
#[verifier::external_body]
pub(crate) fn big_mod_pow(base: &[u8], exp: &[u8], modulus: &[u8]) -> (r: Vec<u8>)
    requires
        be_value(modulus@) > 1,
    ensures
        be_value(r@) == mod_pow_spec(be_value(base@), be_value(exp@), be_value(modulus@)),
{
    let b = BigUint::from_bytes_be(base);
    let e = BigUint::from_bytes_be(exp);
    let m = BigUint::from_bytes_be(modulus);
    b.modpow(&e, &m).to_bytes_be()
}

/// Relies on `Mul` for `&BigUint`: the exact product.
#[verifier::external_body]
pub(crate) fn big_mul(a: &[u8], b: &[u8]) -> (r: Vec<u8>)
    ensures
        be_value(r@) == be_value(a@) * be_value(b@),
{
    (&BigUint::from_bytes_be(a) * &BigUint::from_bytes_be(b)).to_bytes_be()
}

/// Relies on `Add` for `&BigUint`: the exact sum.
#[verifier::external_body]
pub(crate) fn big_add(a: &[u8], b: &[u8]) -> (r: Vec<u8>)
    ensures
        be_value(r@) == be_value(a@) + be_value(b@),
{
    (&BigUint::from_bytes_be(a) + &BigUint::from_bytes_be(b)).to_bytes_be()
}

/// Relies on `Sub` for `&BigUint`: the exact difference, which panics when it
/// would be negative.
#[verifier::external_body]
pub(crate) fn big_sub(a: &[u8], b: &[u8]) -> (r: Vec<u8>)
    requires
        be_value(a@) >= be_value(b@),
    ensures
        be_value(r@) == be_value(a@) - be_value(b@),
{
    (&BigUint::from_bytes_be(a) - &BigUint::from_bytes_be(b)).to_bytes_be()
}

/// Relies on `Rem` for `&BigUint`: the remainder of the division, which
/// panics on a zero divisor.
#[verifier::external_body]
pub(crate) fn big_rem(a: &[u8], m: &[u8]) -> (r: Vec<u8>)
    requires
        be_value(m@) > 0,
    ensures
        be_value(r@) == be_value(a@) % be_value(m@),
{
    (&BigUint::from_bytes_be(a) % &BigUint::from_bytes_be(m)).to_bytes_be()
}

/// Relies on `PartialEq` for `BigUint`: equality of the numbers.
#[verifier::external_body]
pub(crate) fn big_eq(a: &[u8], b: &[u8]) -> (r: bool)
    ensures
        r == (be_value(a@) == be_value(b@)),
{
    BigUint::from_bytes_be(a) == BigUint::from_bytes_be(b)
}

/// Relies on `PartialOrd` for `BigUint`: the order of the numbers.
#[verifier::external_body]
pub(crate) fn big_le(a: &[u8], b: &[u8]) -> (r: bool)
    ensures
        r == (be_value(a@) <= be_value(b@)),
{
    BigUint::from_bytes_be(a) <= BigUint::from_bytes_be(b)
}

/// Relies on `RandBigInt::gen_biguint_below` over the thread-local generator:
/// a number below `bound`, which panics on a zero bound.
#[verifier::external_body]
pub(crate) fn big_random_below(bound: &[u8]) -> (r: Vec<u8>)
    requires
        be_value(bound@) > 0,
    ensures
        be_value(r@) < be_value(bound@),
{
    let b = BigUint::from_bytes_be(bound);
    rand::thread_rng().gen_biguint_below(&b).to_bytes_be()
}

} // verus!
