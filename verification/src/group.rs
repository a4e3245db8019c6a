//! The arithmetic facts behind the proof of knowledge: powers of an element
//! whose order divides `q`, taken modulo `p`.

use vstd::arithmetic::div_mod::*;
use vstd::arithmetic::mul::*;
use vstd::arithmetic::power::*;
use vstd::prelude::*;

verus! {

/// `base ^ exp mod modulus`, the value of every exponentiation in the protocol.
pub open spec fn power_mod(base: nat, exp: nat, modulus: nat) -> int {
    pow(base as int, exp) % (modulus as int)
}

/// `k - c * x` reduced into `[0, q)`: the prover's answer to the challenge `c`.
pub open spec fn response(k: nat, c: nat, x: nat, q: nat) -> int {
    (k - c * x) % (q as int)
}

/// `g` lies in the subgroup of order `q` modulo `p`: `g ^ q` is congruent to 1.
pub open spec fn in_subgroup(g: nat, q: nat, p: nat) -> bool {
    power_mod(g, q, p) == 1int % (p as int)
}

/// One of the two verification equations: `r` is congruent to `g^s * y^c`.
pub open spec fn equation_holds(g: nat, r: nat, y: nat, c: nat, s: nat, p: nat) -> bool {
    r as int % (p as int) == (pow(g as int, s) * pow(y as int, c)) % (p as int)
}

/// A power of a subgroup element whose exponent is a multiple of `q` is
/// congruent to 1.
pub proof fn lemma_order_multiple(g: nat, q: nat, n: nat, p: nat)
    requires
        p > 0,
        in_subgroup(g, q, p),
    ensures
        power_mod(g, q * n, p) == 1int % (p as int),
{
    let gi = g as int;
    let pi = p as int;
    lemma_pow_multiplies(gi, q, n);
    lemma_pow_mod_noop(pow(gi, q), n, pi);
    lemma_pow_mod_noop(1, n, pi);
    lemma1_pow(n);
}

/// Adding a multiple of `q` to the exponent of a subgroup element does not
/// change the power modulo `p`.
pub proof fn lemma_exponent_shift(g: nat, q: nat, a: nat, n: nat, p: nat)
    requires
        p > 0,
        in_subgroup(g, q, p),
    ensures
        power_mod(g, a + q * n, p) == power_mod(g, a, p),
{
    let gi = g as int;
    let pi = p as int;
    lemma_order_multiple(g, q, n, p);
    lemma_pow_adds(gi, a, q * n);
    lemma_mul_mod_noop_general(pow(gi, a), pow(gi, q * n), pi);
    lemma_mul_mod_noop_general(pow(gi, a), 1, pi);
    assert(pow(gi, a) * 1 == pow(gi, a));
}

/// Exponents that are congruent modulo `q` give congruent powers of a
/// subgroup element.
pub proof fn lemma_congruent_exponents(g: nat, q: nat, a: nat, b: nat, p: nat)
    requires
        p > 0,
        q > 0,
        in_subgroup(g, q, p),
        a % q == b % q,
    ensures
        power_mod(g, a, p) == power_mod(g, b, p),
{
    let qi = q as int;
    lemma_fundamental_div_mod(a as int, qi);
    lemma_fundamental_div_mod(b as int, qi);
    let ra = (a % q) as nat;
    let na = (a / q) as nat;
    let nb = (b / q) as nat;
    assert(a == ra + q * na);
    assert(b == ra + q * nb);
    lemma_exponent_shift(g, q, ra, na, p);
    lemma_exponent_shift(g, q, ra, nb, p);
}

/// The response lies in `[0, q)` and, added to `c * x`, is congruent to `k`.
pub proof fn lemma_response(k: nat, c: nat, x: nat, q: nat)
    requires
        q > 0,
    ensures
        0 <= response(k, c, x, q) < q,
        (response(k, c, x, q) + c * x) % (q as int) == k as int % (q as int),
{
    let qi = q as int;
    let d = k - c * x;
    lemma_mod_bound(d, qi);
    lemma_add_mod_noop(d, (c * x) as int, qi);
    lemma_add_mod_noop(d % qi, (c * x) as int, qi);
    lemma_mod_twice(d, qi);
}

/// The right-hand side of the equation for `y = g^x`: `g^s * y^c` is
/// congruent to `g^(s + x * c)`.
pub proof fn lemma_equation_exponent(g: nat, x: nat, c: nat, s: nat, p: nat)
    requires
        p > 0,
    ensures
        power_mod(g, x, p) >= 0,
        (pow(g as int, s) * pow(power_mod(g, x, p), c)) % (p as int) == power_mod(g, s + x * c, p),
{
    let gi = g as int;
    let pi = p as int;
    let y = power_mod(g, x, p);
    lemma_mod_bound(pow(gi, x), pi);
    // y^c is congruent to g^(x*c)
    lemma_pow_mod_noop(pow(gi, x), c, pi);
    lemma_pow_multiplies(gi, x, c);
    assert(pow(y, c) % pi == pow(gi, x * c) % pi);
    // g^s * y^c is congruent to g^(s + x*c)
    lemma_mul_mod_noop_general(pow(gi, s), pow(y, c), pi);
    lemma_mul_mod_noop_general(pow(gi, s), pow(gi, x * c), pi);
    lemma_pow_adds(gi, s, x * c);
}

/// The whole argument for one generator: with `y = g^x`, `r = g^k` and the
/// honest response, the verification equation holds.
pub proof fn lemma_equation_complete(g: nat, x: nat, k: nat, c: nat, q: nat, p: nat)
    requires
        p > 0,
        q > 0,
        in_subgroup(g, q, p),
    ensures
        equation_holds(
            g,
            power_mod(g, k, p) as nat,
            power_mod(g, x, p) as nat,
            c,
            response(k, c, x, q) as nat,
            p,
        ),
{
    let gi = g as int;
    let pi = p as int;
    lemma_response(k, c, x, q);
    let s = response(k, c, x, q) as nat;
    lemma_equation_exponent(g, x, c, s, p);
    lemma_mod_bound(pow(gi, k), pi);
    lemma_mod_twice(pow(gi, k), pi);
    // s + x*c is congruent to k modulo q
    assert(x * c == c * x) by {
        lemma_mul_is_commutative(x as int, c as int);
    }
    lemma_congruent_exponents(g, q, s + x * c, k, p);
}

/// Every power of a subgroup element lies in the subgroup again.
pub proof fn lemma_power_in_subgroup(g: nat, e: nat, q: nat, p: nat)
    requires
        p > 0,
        in_subgroup(g, q, p),
    ensures
        power_mod(g, e, p) >= 0,
        in_subgroup(power_mod(g, e, p) as nat, q, p),
{
    let gi = g as int;
    let pi = p as int;
    lemma_mod_bound(pow(gi, e), pi);
    lemma_pow_mod_noop(pow(gi, e), q, pi);
    lemma_pow_multiplies(gi, e, q);
    lemma_mul_is_commutative(e as int, q as int);
    lemma_order_multiple(g, q, e, p);
}

} // verus!
