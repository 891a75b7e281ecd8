//! Laws of the protocol, proved over the engine's and the service's models.
use crate::bignum::mod_pow_spec;
use crate::server::UserInfo;
use crate::zkp::{accepts, response_spec, Group};
use vstd::arithmetic::div_mod::{
    lemma_add_mod_noop, lemma_fundamental_div_mod, lemma_mod_add_multiples_vanish,
    lemma_mod_twice, lemma_mul_mod_noop, lemma_mul_mod_noop_left, lemma_small_mod,
    lemma_sub_mod_noop,
};
use vstd::arithmetic::power::{
    lemma1_pow, lemma_pow0, lemma_pow_adds, lemma_pow_mod_noop, lemma_pow_multiplies, pow,
};
use vstd::prelude::*;

verus! {

/// `g` has multiplicative order dividing `q` modulo `p`.
pub open spec fn order_divides(g: nat, q: nat, p: nat) -> bool {
    pow(g as int, q) % (p as int) == 1
}

/// `g` has multiplicative order exactly `q` modulo `p`.
pub open spec fn has_order(g: nat, q: nat, p: nat) -> bool {
    &&& order_divides(g, q, p)
    &&& forall|d: nat| 0 < d < q ==> #[trigger] (pow(g as int, d) % (p as int)) != 1
}

/// Raising to the power 0 gives 1 for every base and every modulus above 1.
pub proof fn exponent_zero_is_one(base: nat, modulus: nat)
    requires
        modulus > 1,
    ensures
        mod_pow_spec(base, 0, modulus) == 1,
{
    lemma_pow0(base as int);
    lemma_small_mod(1, modulus);
}

/// When `g ^ q = 1 (mod p)`, exponents of `g` only matter modulo `q`.
proof fn lemma_exponent_mod_order(g: nat, e: nat, q: nat, p: nat)
    requires
        p > 1,
        q > 0,
        order_divides(g, q, p),
    ensures
        pow(g as int, e) % (p as int) == pow(g as int, e % q) % (p as int),
{
    let n = e / q;
    let r = e % q;
    lemma_fundamental_div_mod(e as int, q as int);
    assert(e == q * n + r);
    lemma_pow_adds(g as int, q * n, r);
    lemma_pow_multiplies(g as int, q, n);
    let gq = pow(g as int, q);
    lemma_pow_mod_noop(gq, n, p as int);
    lemma1_pow(n);
    lemma_small_mod(1, p);
    assert(pow(gq, n) % (p as int) == 1);
    lemma_mul_mod_noop_left(pow(gq, n), pow(g as int, r), p as int);
    assert(pow(g as int, e) == pow(gq, n) * pow(g as int, r));
    assert(1 * pow(g as int, r) == pow(g as int, r));
}

/// `(g ^ s * (g ^ x mod p) ^ c) mod p = g ^ (s + c * x) mod p`.
proof fn lemma_combine(g: nat, x: nat, c: nat, s: nat, p: nat)
    requires
        p > 1,
    ensures
        (pow(g as int, s) * pow(mod_pow_spec(g, x, p) as int, c)) % (p as int) == pow(
            g as int,
            s + c * x,
        ) % (p as int),
{
    let gx = pow(g as int, x);
    lemma_pow_positive_or_zero(g, x);
    lemma_pow_mod_noop(gx, c, p as int);
    lemma_pow_multiplies(g as int, x, c);
    assert(x * c == c * x) by (nonlinear_arith);
    let a = pow(g as int, s);
    let b = pow(mod_pow_spec(g, x, p) as int, c);
    let b2 = pow(g as int, c * x);
    assert(b % (p as int) == b2 % (p as int));
    lemma_mul_mod_noop(a, b, p as int);
    lemma_mul_mod_noop(a, b2, p as int);
    lemma_pow_adds(g as int, s, c * x);
}

proof fn lemma_pow_positive_or_zero(g: nat, e: nat)
    ensures
        pow(g as int, e) >= 0,
    decreases e,
{
    reveal(pow);
    if e > 0 {
        lemma_pow_positive_or_zero(g, (e - 1) as nat);
        let prev = pow(g as int, (e - 1) as nat);
        assert(g * prev >= 0) by (nonlinear_arith)
            requires
                prev >= 0,
        ;
    }
}

proof fn lemma_equation_complete(gen: nat, x: nat, k: nat, c: nat, q: nat, p: nat)
    requires
        p > 1,
        q > 0,
        order_divides(gen, q, p),
    ensures
        crate::zkp::equation_holds(
            mod_pow_spec(gen, k, p),
            gen,
            mod_pow_spec(gen, x, p),
            c,
            response_spec(k, c, x, q),
            p,
        ),
{
    let s = response_spec(k, c, x, q);
    let cx = c * x;
    lemma_combine(gen, x, c, s, p);
    lemma_exponent_mod_order(gen, s + cx, q, p);
    lemma_exponent_mod_order(gen, k, q, p);
    lemma_mod_twice(k as int - cx as int, q as int);
    lemma_add_mod_noop(s as int, cx as int, q as int);
    lemma_add_mod_noop(k as int - cx as int, cx as int, q as int);
    assert((s + cx) % q == k % q);
}

/// Completeness: an honest prover with secret `x` and randomness `k` is
/// accepted for every challenge `c` in `[0, q)`, when both generators have
/// order dividing `q`.
pub proof fn completeness(g: Group, x: nat, k: nat, c: nat)
    requires
        g.wf(),
        order_divides(g.alpha_val(), g.q_val(), g.p_val()),
        order_divides(g.beta_val(), g.q_val(), g.p_val()),
        c < g.q_val(),
    ensures
        accepts(
            g,
            mod_pow_spec(g.alpha_val(), k, g.p_val()),
            mod_pow_spec(g.beta_val(), k, g.p_val()),
            mod_pow_spec(g.alpha_val(), x, g.p_val()),
            mod_pow_spec(g.beta_val(), x, g.p_val()),
            c,
            response_spec(k, c, x, g.q_val()),
        ),
{
    lemma_equation_complete(g.alpha_val(), x, k, c, g.q_val(), g.p_val());
    lemma_equation_complete(g.beta_val(), x, k, c, g.q_val(), g.p_val());
}

proof fn lemma_distinct_powers_ordered(gen: nat, a: nat, b: nat, q: nat, p: nat)
    requires
        p > 1,
        has_order(gen, q, p),
        b < a < q,
    ensures
        pow(gen as int, a) % (p as int) != pow(gen as int, b) % (p as int),
{
    if pow(gen as int, a) % (p as int) == pow(gen as int, b) % (p as int) {
        let d = (a - b) as nat;
        let e = (q - b) as nat;
        let pa = pow(gen as int, a);
        let pb = pow(gen as int, b);
        let pe = pow(gen as int, e);
        lemma_pow_adds(gen as int, a, e);
        lemma_pow_adds(gen as int, b, e);
        lemma_mul_mod_noop_left(pa, pe, p as int);
        lemma_mul_mod_noop_left(pb, pe, p as int);
        assert(a + e == d + q);
        assert(b + e == q);
        assert(pow(gen as int, d + q) % (p as int) == 1);
        lemma_exponent_mod_order(gen, d + q, q, p);
        lemma_mod_add_multiples_vanish(d as int, q as int);
        lemma_small_mod(d, q);
        assert(pow(gen as int, d) % (p as int) == 1);
        assert(0 < d < q);
    }
}

proof fn lemma_distinct_powers(gen: nat, a: nat, b: nat, q: nat, p: nat)
    requires
        p > 1,
        has_order(gen, q, p),
        a < q,
        b < q,
        a != b,
    ensures
        pow(gen as int, a) % (p as int) != pow(gen as int, b) % (p as int),
{
    if a > b {
        lemma_distinct_powers_ordered(gen, a, b, q, p);
    } else {
        lemma_distinct_powers_ordered(gen, b, a, q, p);
    }
}

/// Soundness: against the commitments and public values of secret `x` and
/// randomness `k`, any response in `[0, q)` other than the honest one is
/// rejected, when `alpha` has order exactly `q`.
pub proof fn soundness(g: Group, x: nat, k: nat, c: nat, s: nat)
    requires
        g.wf(),
        has_order(g.alpha_val(), g.q_val(), g.p_val()),
        s < g.q_val(),
        s != response_spec(k, c, x, g.q_val()),
    ensures
        !accepts(
            g,
            mod_pow_spec(g.alpha_val(), k, g.p_val()),
            mod_pow_spec(g.beta_val(), k, g.p_val()),
            mod_pow_spec(g.alpha_val(), x, g.p_val()),
            mod_pow_spec(g.beta_val(), x, g.p_val()),
            c,
            s,
        ),
{
    let (al, q, p) = (g.alpha_val(), g.q_val(), g.p_val());
    let cx = c * x;
    lemma_combine(al, x, c, s, p);
    lemma_exponent_mod_order(al, s + cx, q, p);
    lemma_exponent_mod_order(al, k, q, p);
    let a = (s + cx) % q;
    let b = k % q;
    if a == b {
        lemma_sub_mod_noop((s + cx) as int, cx as int, q as int);
        lemma_sub_mod_noop(k as int, cx as int, q as int);
        lemma_small_mod(s, q);
        assert(((s + cx) as int - cx as int) == s as int);
        assert(false);
    }
    lemma_distinct_powers(al, a, b, q, p);
}

/// Registering a user twice leaves the second registration in force.
pub proof fn register_overwrites(
    users: Map<Seq<char>, UserInfo>,
    user: Seq<char>,
    first: UserInfo,
    second: UserInfo,
)
    ensures
        users.insert(user, first).insert(user, second) == users.insert(user, second),
        users.insert(user, first).insert(user, second)[user] == second,
{
    assert(users.insert(user, first).insert(user, second) =~= users.insert(user, second));
}

} // verus!
