//! Why a prover that does not know the secret is refused: in a subgroup of
//! prime order, powers of a generator with different exponents differ.

use crate::group::{
    equation_holds, in_subgroup, lemma_congruent_exponents, lemma_equation_exponent,
    lemma_exponent_shift, lemma_order_multiple, lemma_response, power_mod, response,
};
use vstd::arithmetic::div_mod::*;
use vstd::arithmetic::mul::*;
use vstd::arithmetic::power::*;
use vstd::prelude::*;

verus! {

/// `q` is greater than 1 and no number strictly between 1 and `q` divides it.
pub open spec fn is_prime(q: nat) -> bool {
    q > 1 && forall|d: nat| 1 < d < q ==> #[trigger] (q % d) != 0
}

/// What divides `b` and `r` divides `b * k + r`.
proof fn lemma_divides_sum(g: int, b: int, k: int, r: int)
    requires
        g > 0,
        b % g == 0,
        r % g == 0,
    ensures
        (b * k + r) % g == 0,
{
    lemma_mul_mod_noop_general(b, k, g);
    assert(0 * k == 0);
    lemma_add_mod_noop(b * k, r, g);
    lemma_small_mod(0, g as nat);
}

/// Bézout's identity: a common divisor `g` of `a` and `b` is a combination
/// `a * x + b * y` of the two. The result is `(x, y, g)`.
pub proof fn lemma_bezout(a: nat, b: nat) -> (r: (int, int, int))
    requires
        a > 0 || b > 0,
    ensures
        r.2 > 0,
        a * r.0 + b * r.1 == r.2,
        a as int % r.2 == 0,
        b as int % r.2 == 0,
    decreases b,
{
    if b == 0 {
        lemma_mod_self_0(a as int);
        lemma_small_mod(0, a);
        (1, 0, a as int)
    } else {
        let ai = a as int;
        let bi = b as int;
        lemma_mod_bound(ai, bi);
        let rest = (a % b) as nat;
        let (x1, y1, g) = lemma_bezout(b, rest);
        lemma_fundamental_div_mod(ai, bi);
        lemma_divides_sum(g, bi, ai / bi, ai % bi);
        let x = y1;
        let y = x1 - (ai / bi) * y1;
        assert(ai * x + bi * y == g) by (nonlinear_arith)
            requires
                bi * x1 + (ai % bi) * y1 == g,
                ai == bi * (ai / bi) + ai % bi,
                x == y1,
                y == x1 - (ai / bi) * y1,
        ;
        (x, y, g)
    }
}

/// Modulo a prime, every number that is not a multiple of it has an inverse.
pub proof fn lemma_inverse(r: nat, q: nat) -> (u: nat)
    requires
        is_prime(q),
        r % q != 0,
    ensures
        (u * r) % q == 1,
{
    let qi = q as int;
    let ri = r as int;
    lemma_mod_bound(ri, qi);
    let r0 = r % q;
    let (x, y, g) = lemma_bezout(r0, q);
    if g > r0 {
        lemma_small_mod(r0, g as nat);
    }
    if g > 1 {
        assert(q % (g as nat) != 0);
    }
    assert(g == 1);
    lemma_mod_multiples_vanish(y, r0 * x, qi);
    assert(qi * y + r0 * x == 1) by (nonlinear_arith)
        requires
            r0 * x + q * y == 1,
            qi == q,
    ;
    lemma_small_mod(1, q);
    assert((r0 * x) % qi == 1);
    lemma_mod_bound(x, qi);
    let u = (x % qi) as nat;
    lemma_mul_mod_noop_general(x, r0 as int, qi);
    lemma_mul_is_commutative(x, r0 as int);
    assert((u * r0) as int % qi == 1);
    lemma_mul_mod_noop_general(u as int, ri, qi);
    u
}

/// Modulo a prime, a product is a multiple of it only where a factor is.
pub proof fn lemma_prime_divides_product(c: nat, d: int, q: nat)
    requires
        is_prime(q),
        c % q != 0,
        (c * d) % (q as int) == 0,
    ensures
        d % (q as int) == 0,
{
    let qi = q as int;
    let u = lemma_inverse(c, q);
    // d is congruent to (u * c) * d, which is u * (c * d), a multiple of q
    lemma_mul_mod_noop_general((u * c) as int, d, qi);
    assert(1 * d == d);
    lemma_mul_is_associative(u as int, c as int, d);
    lemma_mul_mod_noop_general(u as int, c * d, qi);
    assert(u * 0 == 0);
    lemma_small_mod(0, q);
}

/// A subgroup element whose power with a positive exponent below the prime
/// order is congruent to 1 is itself congruent to 1.
proof fn lemma_small_order(g: nat, d: nat, q: nat, p: nat)
    requires
        p > 0,
        is_prime(q),
        in_subgroup(g, q, p),
        in_subgroup(g, d, p),
        0 < d < q,
    ensures
        power_mod(g, 1, p) == 1int % (p as int),
{
    lemma_small_mod(d, q);
    let u = lemma_inverse(d, q);
    let qi = q as int;
    lemma_fundamental_div_mod((u * d) as int, qi);
    lemma_mul_nonnegative(u as int, d as int);
    lemma_div_pos_is_pos((u * d) as int, qi);
    let v = ((u * d) as int / qi) as nat;
    assert(u * d == 1 + q * v);
    lemma_mul_is_commutative(u as int, d as int);
    lemma_order_multiple(g, d, u, p);
    lemma_exponent_shift(g, q, 1, v, p);
}

/// Powers of a generator of a subgroup of prime order with exponents that
/// differ modulo the order differ modulo `p`. Here the first exponent is the
/// one with the greater remainder.
proof fn lemma_distinct_powers_ordered(g: nat, a: nat, b: nat, q: nat, p: nat)
    requires
        p > 0,
        is_prime(q),
        in_subgroup(g, q, p),
        power_mod(g, 1, p) != 1int % (p as int),
        a % q > b % q,
    ensures
        power_mod(g, a, p) != power_mod(g, b, p),
{
    let gi = g as int;
    let pi = p as int;
    let qi = q as int;
    lemma_mod_bound(a as int, qi);
    lemma_mod_bound(b as int, qi);
    let ra = (a % q) as nat;
    let rb = (b % q) as nat;
    lemma_mod_twice(a as int, qi);
    lemma_mod_twice(b as int, qi);
    lemma_congruent_exponents(g, q, a, ra, p);
    lemma_congruent_exponents(g, q, b, rb, p);
    if power_mod(g, a, p) == power_mod(g, b, p) {
        let d = (ra - rb) as nat;
        let up = (q - rb) as nat;
        // g^(ra + up) and g^(rb + up) are congruent, and rb + up is q
        lemma_pow_adds(gi, ra, up);
        lemma_pow_adds(gi, rb, up);
        lemma_mul_mod_noop_general(pow(gi, ra), pow(gi, up), pi);
        lemma_mul_mod_noop_general(pow(gi, rb), pow(gi, up), pi);
        assert(power_mod(g, ra + up, p) == power_mod(g, rb + up, p));
        assert(rb + up == q);
        assert(ra + up == d + q * 1);
        lemma_exponent_shift(g, q, d, 1, p);
        assert(in_subgroup(g, d, p));
        lemma_small_order(g, d, q, p);
    }
}

/// Powers of a generator of a subgroup of prime order with exponents that
/// differ modulo the order differ modulo `p`.
pub proof fn lemma_distinct_powers(g: nat, a: nat, b: nat, q: nat, p: nat)
    requires
        p > 0,
        is_prime(q),
        in_subgroup(g, q, p),
        power_mod(g, 1, p) != 1int % (p as int),
        a % q != b % q,
    ensures
        power_mod(g, a, p) != power_mod(g, b, p),
{
    if a % q > b % q {
        lemma_distinct_powers_ordered(g, a, b, q, p);
    } else {
        lemma_distinct_powers_ordered(g, b, a, q, p);
    }
}

/// One verification equation fails for a response made with another secret:
/// with `y = g^x` and `r = g^k`, the response to a challenge `c` that was
/// computed from `other` does not satisfy the equation, provided that `c` is
/// no multiple of `q` and that `other` and `x` differ modulo `q`.
pub proof fn lemma_equation_sound(g: nat, x: nat, other: nat, k: nat, c: nat, q: nat, p: nat)
    requires
        p > 0,
        is_prime(q),
        in_subgroup(g, q, p),
        power_mod(g, 1, p) != 1int % (p as int),
        c % q != 0,
        x % q != other % q,
    ensures
        response(k, c, other, q) >= 0,
        !equation_holds(
            g,
            power_mod(g, k, p) as nat,
            power_mod(g, x, p) as nat,
            c,
            response(k, c, other, q) as nat,
            p,
        ),
{
    let gi = g as int;
    let pi = p as int;
    let qi = q as int;
    lemma_response(k, c, other, q);
    let s = response(k, c, other, q) as nat;
    lemma_equation_exponent(g, x, c, s, p);
    lemma_mod_bound(pow(gi, k), pi);
    lemma_mod_twice(pow(gi, k), pi);
    // the honest exponent s + c * other is congruent to k
    lemma_congruent_exponents(g, q, s + c * other, k, p);
    // s + x * c and s + c * other differ modulo q
    let a = s + x * c;
    let b = s + c * other;
    if a % q == b % q {
        lemma_mod_equivalence(a as int, b as int, qi);
        assert(a - b == c * (x - other)) by (nonlinear_arith)
            requires
                a == s + x * c,
                b == s + c * other,
        ;
        lemma_prime_divides_product(c, x - other, q);
        lemma_mod_equivalence(x as int, other as int, qi);
    }
    lemma_distinct_powers(g, a, b, q, p);
}

} // verus!
