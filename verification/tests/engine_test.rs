use cp_protocol::engine::{equation, Proof};
use cp_protocol::natural::Natural;
use num_bigint::BigUint;

fn small(value: u8) -> Natural {
    Natural::from_u8(value)
}

fn big(value: &Natural) -> BigUint {
    BigUint::from_bytes_be(&value.to_bytes_be())
}

fn toy_group() -> Proof {
    Proof::new(small(23), small(11), small(4), small(9))
}

#[test]
fn honest_prover_is_accepted_for_every_small_triple() {
    let group = toy_group();
    for x in 0u8..11 {
        let [y1, y2] = group.create_pair(&small(x));
        for k in 0u8..11 {
            let [r1, r2] = group.create_pair(&small(k));
            for c in 0u8..11 {
                let s = group.solve(&small(k), &small(c), &small(x));
                assert!(group.verify(&r1, &r2, &y1, &y2, &small(c), &s));
            }
        }
    }
}

#[test]
fn wrong_secret_is_refused_for_every_nonzero_challenge() {
    let group = toy_group();
    let [y1, y2] = group.create_pair(&small(6));
    for k in 0u8..11 {
        let [r1, r2] = group.create_pair(&small(k));
        for c in 1u8..11 {
            for wrong in 0u8..11 {
                if wrong != 6 {
                    let s = group.solve(&small(k), &small(c), &small(wrong));
                    assert!(!group.verify(&r1, &r2, &y1, &y2, &small(c), &s));
                }
            }
        }
    }
}

#[test]
fn response_is_below_the_order() {
    let group = toy_group();
    for k in 0u8..30 {
        for c in 0u8..30 {
            for x in 0u8..30 {
                let s = group.solve(&small(k), &small(c), &small(x));
                assert!(big(&s) < BigUint::from(11u32));
            }
        }
    }
}

#[test]
fn response_at_the_boundary_is_zero() {
    let group = toy_group();
    let s = group.solve(&small(0), &small(1), &small(11));
    assert_eq!(s, small(0));
    assert!(big(&s) < BigUint::from(11u32));
}

#[test]
fn response_values() {
    let group = toy_group();
    // 7 - 4 * 6 = -17, which is 5 modulo 11
    assert_eq!(group.solve(&small(7), &small(4), &small(6)), small(5));
    // 10 - 2 * 3 = 4
    assert_eq!(group.solve(&small(10), &small(2), &small(3)), small(4));
    // 40 - 1 * 7 = 33, which is 0 modulo 11
    assert_eq!(group.solve(&small(40), &small(1), &small(7)), small(0));
    // 0 - 3 * 5 = -15, which is 7 modulo 11
    assert_eq!(group.solve(&small(0), &small(3), &small(5)), small(7));
}

#[test]
fn pair_values() {
    let group = toy_group();
    let [a, b] = group.create_pair(&small(0));
    assert_eq!(a, small(1));
    assert_eq!(b, small(1));
    let [a, b] = group.create_pair(&small(2));
    assert_eq!(a, small(16));
    assert_eq!(b, small(12));
    let [a, b] = group.create_pair(&small(11));
    assert_eq!(a, small(1));
    assert_eq!(b, small(1));
}

#[test]
fn pair_lies_in_the_subgroup() {
    let group = toy_group();
    for e in 0u8..40 {
        let [a, b] = group.create_pair(&small(e));
        assert_eq!(big(&a).modpow(&BigUint::from(11u32), &BigUint::from(23u32)), BigUint::from(1u32));
        assert_eq!(big(&b).modpow(&BigUint::from(11u32), &BigUint::from(23u32)), BigUint::from(1u32));
    }
}

#[test]
fn verify_compares_modulo_p() {
    let group = toy_group();
    // r1 = 8 + 23 and r2 = 4 + 23 are congruent to the honest commitments
    assert!(group.verify(&small(31), &small(27), &small(2), &small(3), &small(4), &small(5)));
    assert!(!group.verify(&small(8), &small(5), &small(2), &small(3), &small(4), &small(5)));
    assert!(!group.verify(&small(9), &small(4), &small(2), &small(3), &small(4), &small(5)));
}

#[test]
fn random_number_is_below_the_limit() {
    let limit = small(3);
    for _ in 0..200 {
        let r = Proof::generate_random_number_below(&limit);
        assert!(big(&r) < BigUint::from(3u32));
    }
    let one = small(1);
    assert_eq!(Proof::generate_random_number_below(&one), small(0));
}

#[test]
fn random_number_is_not_the_limit_handed_back() {
    let limit = Natural::from_bytes_be(vec![0xff; 32]);
    let r = Proof::generate_random_number_below(&limit);
    assert_ne!(r, limit);
    assert!(big(&r) < big(&limit));
}

#[test]
fn random_string_has_the_length_and_the_alphabet() {
    for size in [0usize, 1, 12, 40] {
        let token = Proof::generate_random_string_below(size);
        assert_eq!(token.chars().count(), size);
        assert!(token.chars().all(|ch| ch.is_ascii_alphanumeric()));
    }
}

#[test]
fn built_in_group() {
    let (p, q, alpha, beta) = Proof::get_constants();
    assert_eq!(
        q.to_bytes_be(),
        hex::decode("801C0D34C58D93FE997177101F80535A4738CEBCBF389A99B36371EB").unwrap()
    );
    assert_eq!(p.to_bytes_be().len(), 256);
    assert_eq!(p.to_bytes_be()[0], 0xAD);
    assert_eq!(p.to_bytes_be()[255], 0x4F);
    assert_eq!(alpha.to_bytes_be().len(), 256);
    assert_eq!(alpha.to_bytes_be()[0], 0xAC);
    let e = BigUint::from_bytes_be(&hex::decode("65B384B890D3191F2BFA").unwrap());
    assert_eq!(big(&beta), big(&alpha).modpow(&e, &big(&p)));
    // both generators have order q
    assert_eq!(big(&alpha).modpow(&big(&q), &big(&p)), BigUint::from(1u32));
    assert_eq!(big(&beta).modpow(&big(&q), &big(&p)), BigUint::from(1u32));
}

#[test]
fn built_in_group_accepts_a_random_triple() {
    let (p, q, alpha, beta) = Proof::get_constants();
    let group = Proof::new(p, q, alpha, beta);
    let x = group.generate_random();
    let k = group.generate_random();
    let c = group.generate_random();
    let [y1, y2] = group.create_pair(&x);
    let [r1, r2] = group.create_pair(&k);
    let s = group.solve(&k, &c, &x);
    assert!(group.verify(&r1, &r2, &y1, &y2, &c, &s));
}

#[test]
fn modulus_one_reduces_everything_to_zero() {
    let group = Proof::new(small(1), small(1), small(4), small(9));
    let [a, b] = group.create_pair(&small(0));
    assert_eq!(a, small(0));
    assert_eq!(b, small(0));
    assert_eq!(group.solve(&small(7), &small(4), &small(6)), small(0));
    assert!(group.verify(&small(5), &small(6), &small(7), &small(8), &small(9), &small(10)));
}

#[test]
fn zero_exponent_gives_one() {
    // an even modulus and an odd one
    let even = Proof::new(small(22), small(11), small(4), small(9));
    let [a, b] = even.create_pair(&Natural::from_bytes_be(vec![]));
    assert_eq!(a, small(1));
    assert_eq!(b, small(1));
    let odd = toy_group();
    let [a, b] = odd.create_pair(&Natural::from_bytes_be(vec![0, 0]));
    assert_eq!(a, small(1));
    assert_eq!(b, small(1));
}

#[test]
fn single_equation() {
    // 4^5 * 2^4 = 16384, which is 8 modulo 23
    assert!(equation(&small(4), &small(8), &small(2), &small(4), &small(5), &small(23)));
    assert!(!equation(&small(4), &small(7), &small(2), &small(4), &small(5), &small(23)));
    // 9^5 * 3^4 = 4782969, which is 4 modulo 23
    assert!(equation(&small(9), &small(4), &small(3), &small(4), &small(5), &small(23)));
}
