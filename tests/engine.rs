use num_bigint::BigUint;
use zkp_auth::zkp::{exponentiate, generate_identifier, prove_response, random_scalar, verify, Group};

fn n(v: u64) -> Vec<u8> {
    BigUint::from(v).to_bytes_be()
}

fn val(b: &[u8]) -> BigUint {
    BigUint::from_bytes_be(b)
}

fn small_group() -> Group {
    Group::new(n(23), n(11), n(4), n(9)).unwrap()
}

#[test]
fn exponentiate_known_values() {
    assert_eq!(val(&exponentiate(&n(4), &n(3), &n(23))), BigUint::from(18u32));
    assert_eq!(val(&exponentiate(&n(2), &n(10), &n(1000))), BigUint::from(24u32));
    assert_eq!(val(&exponentiate(&n(0), &n(5), &n(7))), BigUint::from(0u32));
}

#[test]
fn exponentiate_zero_exponent_is_one() {
    for base in [0u64, 1, 2, 22, 23, 1000] {
        for modulus in [2u64, 3, 23, 1000] {
            assert_eq!(val(&exponentiate(&n(base), &n(0), &n(modulus))), BigUint::from(1u32));
        }
    }
    assert_eq!(val(&exponentiate(&n(5), &[], &n(7))), BigUint::from(1u32));
}

#[test]
fn group_new_rejects_degenerate_parameters() {
    assert!(Group::new(n(1), n(11), n(4), n(9)).is_none());
    assert!(Group::new(n(0), n(11), n(4), n(9)).is_none());
    assert!(Group::new(n(23), n(0), n(4), n(9)).is_none());
    assert!(Group::new(vec![], n(11), n(4), n(9)).is_none());
    assert!(Group::new(n(2), n(1), n(1), n(1)).is_some());
}

#[test]
fn prove_response_reduces_modulo_q() {
    // (7 - 3 * 5) mod 11 = -8 mod 11 = 3
    assert_eq!(val(&prove_response(&n(7), &n(3), &n(5), &n(11))), BigUint::from(3u32));
    // (10 - 0 * 6) mod 11 = 10
    assert_eq!(val(&prove_response(&n(10), &n(0), &n(6), &n(11))), BigUint::from(10u32));
    // (25 - 2 * 1) mod 11 = 1
    assert_eq!(val(&prove_response(&n(25), &n(2), &n(1), &n(11))), BigUint::from(1u32));
    // (0 - 4 * 4) mod 11 = -16 mod 11 = 6
    assert_eq!(val(&prove_response(&n(0), &n(4), &n(4), &n(11))), BigUint::from(6u32));
}

#[test]
fn honest_prover_is_accepted_for_every_challenge() {
    let g = small_group();
    for x in 0u64..11 {
        for k in 0u64..11 {
            let y1 = exponentiate(&g.alpha, &n(x), &g.p);
            let y2 = exponentiate(&g.beta, &n(x), &g.p);
            let r1 = exponentiate(&g.alpha, &n(k), &g.p);
            let r2 = exponentiate(&g.beta, &n(k), &g.p);
            for c in 0u64..11 {
                let s = prove_response(&n(k), &n(c), &n(x), &g.q);
                assert!(verify(&g, &r1, &r2, &y1, &y2, &n(c), &s));
            }
        }
    }
}

#[test]
fn wrong_responses_are_rejected() {
    let g = small_group();
    for x in 1u64..11 {
        for k in 0u64..11 {
            let y1 = exponentiate(&g.alpha, &n(x), &g.p);
            let y2 = exponentiate(&g.beta, &n(x), &g.p);
            let r1 = exponentiate(&g.alpha, &n(k), &g.p);
            let r2 = exponentiate(&g.beta, &n(k), &g.p);
            for c in 0u64..11 {
                let good = val(&prove_response(&n(k), &n(c), &n(x), &g.q));
                for s in 0u64..11 {
                    let ok = verify(&g, &r1, &r2, &y1, &y2, &n(c), &n(s));
                    assert_eq!(ok, BigUint::from(s) == good);
                }
            }
        }
    }
}

#[test]
fn verify_needs_both_equations() {
    let g = small_group();
    let (x, k, c) = (3u64, 5u64, 7u64);
    let y1 = exponentiate(&g.alpha, &n(x), &g.p);
    let y2 = exponentiate(&g.beta, &n(x), &g.p);
    let r1 = exponentiate(&g.alpha, &n(k), &g.p);
    let r2 = exponentiate(&g.beta, &n(k), &g.p);
    let s = prove_response(&n(k), &n(c), &n(x), &g.q);
    assert!(verify(&g, &r1, &r2, &y1, &y2, &n(c), &s));
    let bad_r2 = exponentiate(&g.beta, &n(k + 1), &g.p);
    assert!(!verify(&g, &r1, &bad_r2, &y1, &y2, &n(c), &s));
    let bad_r1 = exponentiate(&g.alpha, &n(k + 1), &g.p);
    assert!(!verify(&g, &bad_r1, &r2, &y1, &y2, &n(c), &s));
}

#[test]
fn random_scalar_stays_below_bound() {
    for bound in [1u64, 2, 11, 1000] {
        for _ in 0..200 {
            assert!(val(&random_scalar(&n(bound))) < BigUint::from(bound));
        }
    }
}

#[test]
fn random_scalar_is_uniform() {
    let q: u64 = 10;
    let samples: usize = 20000;
    let mut counts = vec![0usize; q as usize];
    for _ in 0..samples {
        let v = val(&random_scalar(&n(q)));
        let i: usize = v.to_u64_digits().first().copied().unwrap_or(0) as usize;
        counts[i] += 1;
    }
    let expected = samples as f64 / q as f64;
    let chi2: f64 = counts
        .iter()
        .map(|&c| {
            let d = c as f64 - expected;
            d * d / expected
        })
        .sum();
    // 9 degrees of freedom: the 0.999 quantile is about 27.9.
    assert!(chi2 < 27.9, "chi-square {} too large: {:?}", chi2, counts);
}

#[test]
fn identifiers_have_length_and_alphabet() {
    for len in [0usize, 1, 12, 40] {
        let id = generate_identifier(len);
        assert_eq!(id.chars().count(), len);
        assert!(id.chars().all(|c| c.is_ascii_alphanumeric()));
    }
    assert_ne!(generate_identifier(12), generate_identifier(12));
}
