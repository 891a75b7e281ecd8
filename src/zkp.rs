//! The Chaum-Pedersen engine: group parameters, modular exponentiation,
//! fresh randomness, the prover's response and the verifier's check.
use crate::bignum::{
    be_value, big_add, big_eq, big_le, big_mod_pow, big_mul, big_random_below, big_rem, big_sub,
    mod_pow_spec,
};
use rand::Rng;
use vstd::arithmetic::div_mod::{
    lemma_add_mod_noop, lemma_mod_self_0, lemma_mod_twice, lemma_mul_mod_noop, lemma_sub_mod_noop,
};
use vstd::arithmetic::power::pow;
use vstd::prelude::*;

verus! {

/// The algebraic setting: a modulus `p`, the order `q` of the subgroup and
/// two generators `alpha` and `beta` of it, all big-endian byte strings.
#[derive(Clone, Debug)]
pub struct Group {
    pub p: Vec<u8>,
    pub q: Vec<u8>,
    pub alpha: Vec<u8>,
    pub beta: Vec<u8>,
}

impl Group {
    pub open spec fn p_val(&self) -> nat {
        be_value(self.p@)
    }

    pub open spec fn q_val(&self) -> nat {
        be_value(self.q@)
    }

    pub open spec fn alpha_val(&self) -> nat {
        be_value(self.alpha@)
    }

    pub open spec fn beta_val(&self) -> nat {
        be_value(self.beta@)
    }

    /// What the engine's operations need to be defined: a modulus above 1
    /// and a positive order.
    pub open spec fn wf(&self) -> bool {
        self.p_val() > 1 && self.q_val() > 0
    }

    /// Builds a group, or `None` when `p <= 1` or `q == 0`.
    pub fn new(p: Vec<u8>, q: Vec<u8>, alpha: Vec<u8>, beta: Vec<u8>) -> (r: Option<Group>)
        ensures
            r is Some <==> be_value(p@) > 1 && be_value(q@) > 0,
            r matches Some(g) ==> g.wf() && g.p@ == p@ && g.q@ == q@ && g.alpha@ == alpha@
                && g.beta@ == beta@,
    {
        let one: Vec<u8> = vec![1u8];
        let zero: Vec<u8> = vec![0u8];
        proof {
            reveal_be_small(one@);
            reveal_be_small(zero@);
        }
        if big_le(&p, &one) || big_le(&q, &zero) {
            None
        } else {
            Some(Group { p, q, alpha, beta })
        }
    }
}

/// The value of a one-byte string is that byte.
proof fn reveal_be_small(s: Seq<u8>)
    requires
        s.len() == 1,
    ensures
        be_value(s) == s[0] as nat,
{
    assert(s.drop_last().len() == 0);
    reveal_with_fuel(be_value, 2);
}

/// `(base ^ exponent) mod modulus`.
pub fn exponentiate(base: &[u8], exponent: &[u8], modulus: &[u8]) -> (r: Vec<u8>)
    requires
        be_value(modulus@) > 1,
    ensures
        be_value(r@) == mod_pow_spec(be_value(base@), be_value(exponent@), be_value(modulus@)),
{
    big_mod_pow(base, exponent, modulus)
}

/// A fresh random number in `[0, bound)`.
pub fn random_scalar(bound: &[u8]) -> (r: Vec<u8>)
    requires
        be_value(bound@) > 0,
    ensures
        be_value(r@) < be_value(bound@),
{
    big_random_below(bound)
}

/// Characters that identifiers are made of: ASCII digits and letters.
pub open spec fn is_id_code(c: u32) -> bool {
    (48 <= c <= 57) || (65 <= c <= 90) || (97 <= c <= 122)
}

/// The number of characters in the identifier alphabet.
pub const ID_ALPHABET_LEN: usize = 62;

/// The `i`-th character of the alphabet `0-9A-Za-z`, as an ASCII byte.
fn id_alphabet_byte(i: usize) -> (b: u8)
    requires
        i < ID_ALPHABET_LEN,
    ensures
        is_id_code(b as u32),
{
    if i < 10 {
        48 + i as u8
    } else if i < 36 {
        65 + (i - 10) as u8
    } else {
        97 + (i - 36) as u8
    }
}

/// Relies on `rand::Rng::gen_range` over the thread-local generator: a number
/// in `[0, bound)`, which panics on an empty range.
#[verifier::external_body]
fn random_index(bound: usize) -> (r: usize)
    requires
        bound > 0,
    ensures
        r < bound,
{
    rand::thread_rng().gen_range(0..bound)
}

/// Relies on `String::from_utf8`: ASCII bytes are valid UTF-8, one character
/// each.
#[verifier::external_body]
fn ascii_to_string(bytes: Vec<u8>) -> (r: String)
    requires
        forall|i: int| 0 <= i < bytes@.len() ==> bytes@[i] < 128,
    ensures
        r@.len() == bytes@.len(),
        forall|i: int| 0 <= i < bytes@.len() ==> r@[i] as u32 == bytes@[i] as u32,
{
    String::from_utf8(bytes).unwrap()
}

/// A fresh random identifier of `length` characters from `0-9A-Za-z`.
pub fn generate_identifier(length: usize) -> (r: String)
    ensures
        r@.len() == length,
        forall|i: int| 0 <= i < length ==> is_id_code(#[trigger] r@[i] as u32),
{
    let mut bytes: Vec<u8> = Vec::new();
    let mut n: usize = 0;
    while n < length
        invariant
            n <= length,
            bytes@.len() == n,
            forall|i: int| 0 <= i < n ==> is_id_code(#[trigger] bytes@[i] as u32),
        decreases length - n,
    {
        let b = id_alphabet_byte(random_index(ID_ALPHABET_LEN));
        bytes.push(b);
        n = n + 1;
    }
    let r = ascii_to_string(bytes);
    assert forall|i: int| 0 <= i < length implies is_id_code(#[trigger] r@[i] as u32) by {
        assert(is_id_code(bytes@[i] as u32));
    }
    r
}

/// The prover's response `(k - c * x) mod q`, in `[0, q)`.
pub open spec fn response_spec(k: nat, c: nat, x: nat, q: nat) -> nat
    recommends
        q > 0,
{
    ((k as int - c as int * x as int) % (q as int)) as nat
}

/// Computes the response `s = (k - c * secret) mod q`.
pub fn prove_response(k: &[u8], c: &[u8], secret: &[u8], q: &[u8]) -> (s: Vec<u8>)
    requires
        be_value(q@) > 0,
    ensures
        be_value(s@) == response_spec(be_value(k@), be_value(c@), be_value(secret@), be_value(q@)),
        be_value(s@) < be_value(q@),
{
    let cx = big_mul(c, secret);
    let cx_red = big_rem(&cx, q);
    let k_red = big_rem(k, q);
    let lifted = big_add(&k_red, q);
    let diff = big_sub(&lifted, &cx_red);
    let s = big_rem(&diff, q);
    proof {
        lemma_response_steps(be_value(k@) as int, be_value(cx@) as int, be_value(q@) as int);
    }
    s
}

proof fn lemma_response_steps(k: int, cx: int, q: int)
    requires
        q > 0,
        k >= 0,
        cx >= 0,
    ensures
        (k % q + q - cx % q) % q == (k - cx) % q,
{
    lemma_add_mod_noop(k - cx, q, q);
    lemma_mod_self_0(q);
    lemma_sub_mod_noop(k, cx, q);
    lemma_mod_twice(k - cx, q);
    lemma_add_mod_noop(k % q - cx % q, q, q);
    lemma_mod_twice(k % q - cx % q, q);
}

/// One of the verifier's two equations: `r == (g ^ s * y ^ c) mod p`.
pub open spec fn equation_holds(r: nat, g: nat, y: nat, c: nat, s: nat, p: nat) -> bool {
    r as int == (pow(g as int, s) * pow(y as int, c)) % (p as int)
}

/// The verifier accepts exactly when both equations hold.
pub open spec fn accepts(g: Group, r1: nat, r2: nat, y1: nat, y2: nat, c: nat, s: nat) -> bool {
    equation_holds(r1, g.alpha_val(), y1, c, s, g.p_val()) && equation_holds(
        r2,
        g.beta_val(),
        y2,
        c,
        s,
        g.p_val(),
    )
}

fn check_equation(r: &[u8], gen: &[u8], y: &[u8], c: &[u8], s: &[u8], p: &[u8]) -> (ok: bool)
    requires
        be_value(p@) > 1,
    ensures
        ok == equation_holds(
            be_value(r@),
            be_value(gen@),
            be_value(y@),
            be_value(c@),
            be_value(s@),
            be_value(p@),
        ),
{
    let gs = big_mod_pow(gen, s, p);
    let yc = big_mod_pow(y, c, p);
    let prod = big_mul(&gs, &yc);
    let expected = big_rem(&prod, p);
    proof {
        let pv = be_value(p@) as int;
        let a = pow(be_value(gen@) as int, be_value(s@));
        let b = pow(be_value(y@) as int, be_value(c@));
        lemma_mul_mod_noop(a, b, pv);
    }
    big_eq(r, &expected)
}

/// The verifier's acceptance predicate over the commitments `r1`, `r2`, the
/// public values `y1`, `y2`, the challenge `c` and the response `s`.
pub fn verify(
    g: &Group,
    r1: &[u8],
    r2: &[u8],
    y1: &[u8],
    y2: &[u8],
    c: &[u8],
    s: &[u8],
) -> (ok: bool)
    requires
        g.wf(),
    ensures
        ok == accepts(
            *g,
            be_value(r1@),
            be_value(r2@),
            be_value(y1@),
            be_value(y2@),
            be_value(c@),
            be_value(s@),
        ),
{
    let first = check_equation(r1, g.alpha.as_slice(), y1, c, s, g.p.as_slice());
    let second = check_equation(r2, g.beta.as_slice(), y2, c, s, g.p.as_slice());
    first && second
}

} // verus!
