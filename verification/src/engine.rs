//! The Chaum–Pedersen proof engine: commitment pairs, the response to a
//! challenge and the verification equations.

use crate::group::{
    equation_holds, in_subgroup, lemma_equation_complete, lemma_power_in_subgroup, lemma_response,
    power_mod, response,
};
use crate::natural::{at_least, difference, mod_pow, product, same_value, Natural};
use crate::parameters::{
    generator, lemma_parameter_texts, modulus, order, parameter, second_exponent, GENERATOR_HEX,
    MODULUS_HEX, ORDER_HEX, SECOND_EXPONENT_HEX,
};
use crate::random::{is_token, random_alphanumeric, random_below};
use crate::soundness::{is_prime, lemma_equation_sound};
use vstd::arithmetic::div_mod::*;
use vstd::arithmetic::power::*;
use vstd::prelude::*;

verus! {

/// The public parameters of the group: the modulus `p`, the order `q` of the
/// working subgroup and its two generators.
pub struct Proof {
    pub p: Natural,
    pub q: Natural,
    pub alpha: Natural,
    pub beta: Natural,
}

impl Proof {
    /// Both moduli are non-zero, so that every operation is defined.
    pub open spec fn usable(&self) -> bool {
        self.p@ != 0 && self.q@ != 0
    }

    /// Both generators have an order that divides `q`.
    pub open spec fn generators_in_subgroup(&self) -> bool {
        in_subgroup(self.alpha@, self.q@, self.p@) && in_subgroup(self.beta@, self.q@, self.p@)
    }

    /// The predicate that `verify` decides: both equations hold modulo `p`.
    pub open spec fn accepts(&self, r1: nat, r2: nat, y1: nat, y2: nat, c: nat, s: nat) -> bool {
        equation_holds(self.alpha@, r1, y1, c, s, self.p@)
            && equation_holds(self.beta@, r2, y2, c, s, self.p@)
    }

    /// The group with the given parameters, taken as they are.
    pub fn new(p: Natural, q: Natural, alpha: Natural, beta: Natural) -> (r: Proof)
        ensures
            r.p == p,
            r.q == q,
            r.alpha == alpha,
            r.beta == beta,
    {
        Proof { p, q, alpha, beta }
    }

    /// Decides whether `r1 ≡ alpha^s * y1^c` and `r2 ≡ beta^s * y2^c` modulo `p`.
    pub fn verify(
        &self,
        r1: &Natural,
        r2: &Natural,
        y1: &Natural,
        y2: &Natural,
        c: &Natural,
        s: &Natural,
    ) -> (ok: bool)
        requires
            self.p@ != 0,
        ensures
            ok == self.accepts(r1@, r2@, y1@, y2@, c@, s@),
    {
        let first = equation(&self.alpha, r1, y1, c, s, &self.p);
        let second = equation(&self.beta, r2, y2, c, s, &self.p);
        first && second
    }

    /// The response `s = k - c * x` reduced into `[0, q)`.
    pub fn solve(&self, k: &Natural, c: &Natural, x: &Natural) -> (s: Natural)
        requires
            self.q@ != 0,
        ensures
            s@ == response(k@, c@, x@, self.q@),
            s@ < self.q@,
    {
        let one = Natural::from_u8(1);
        let cx = product(c, x);
        let qi = Ghost(self.q@ as int);
        proof {
            lemma_response(k@, c@, x@, self.q@);
        }
        if at_least(k, &cx) {
            let d = difference(k, &cx);
            proof {
                lemma_pow1(d@ as int);
            }
            mod_pow(&d, &one, &self.q)
        } else {
            let d = difference(&cx, k);
            let m = mod_pow(&d, &one, &self.q);
            proof {
                lemma_pow1(d@ as int);
                lemma_mod_bound(d@ as int, qi@);
            }
            let t = difference(&self.q, &m);
            let r = mod_pow(&t, &one, &self.q);
            proof {
                lemma_pow1(t@ as int);
                lemma_fundamental_div_mod(d@ as int, qi@);
                let n = -(d@ as int / qi@) - 1;
                assert(k@ - c@ * x@ == qi@ * n + t@) by (nonlinear_arith)
                    requires
                        d@ == c@ * x@ - k@,
                        d@ == qi@ * (d@ as int / qi@) + m@,
                        t@ == qi@ - m@,
                        n == -(d@ as int / qi@) - 1,
                ;
                lemma_mod_multiples_vanish(n, t@ as int, qi@);
            }
            r
        }
    }

    /// The pair `(alpha^exp mod p, beta^exp mod p)`: the public key for a
    /// secret exponent, or the commitment for a nonce.
    pub fn create_pair(&self, exp: &Natural) -> (r: [Natural; 2])
        requires
            self.p@ != 0,
        ensures
            r[0]@ == power_mod(self.alpha@, exp@, self.p@),
            r[1]@ == power_mod(self.beta@, exp@, self.p@),
            r[0]@ < self.p@,
            r[1]@ < self.p@,
    {
        proof {
            lemma_mod_bound(pow(self.alpha@ as int, exp@), self.p@ as int);
            lemma_mod_bound(pow(self.beta@ as int, exp@), self.p@ as int);
        }
        [mod_pow(&self.alpha, exp, &self.p), mod_pow(&self.beta, exp, &self.p)]
    }

    /// A random number below `limit`.
    pub fn generate_random_number_below(limit: &Natural) -> (r: Natural)
        requires
            limit@ != 0,
        ensures
            r@ < limit@,
    {
        random_below(limit)
    }

    /// A random token of `size` letters and digits.
    pub fn generate_random_string_below(size: usize) -> (r: String)
        ensures
            is_token(r@, size as nat),
    {
        random_alphanumeric(size)
    }

    /// A random exponent or challenge: a number below `q`.
    pub fn generate_random(&self) -> (r: Natural)
        requires
            self.q@ != 0,
        ensures
            r@ < self.q@,
    {
        random_below(&self.q)
    }

    /// The built-in group `(p, q, alpha, beta)`: a 2048-bit modulus with a
    /// subgroup of 224-bit order, and `beta` derived from `alpha` by a fixed
    /// exponent.
    pub fn get_constants() -> (r: (Natural, Natural, Natural, Natural))
        ensures
            r.0@ == modulus(),
            r.1@ == order(),
            r.2@ == generator(),
            r.3@ == power_mod(generator(), second_exponent(), modulus()),
            r.0@ != 0,
            r.1@ != 0,
    {
        proof {
            lemma_parameter_texts();
        }
        let p = parameter(MODULUS_HEX);
        let alpha = parameter(GENERATOR_HEX);
        let exp = parameter(SECOND_EXPONENT_HEX);
        let q = parameter(ORDER_HEX);
        let beta = mod_pow(&alpha, &exp, &p);
        (p, q, alpha, beta)
    }
}

/// Decides one verification equation: `r ≡ g^s * y^c` modulo `p`.
pub fn equation(
    g: &Natural,
    r: &Natural,
    y: &Natural,
    c: &Natural,
    s: &Natural,
    p: &Natural,
) -> (ok: bool)
    requires
        p@ != 0,
    ensures
        ok == equation_holds(g@, r@, y@, c@, s@, p@),
{
    let one = Natural::from_u8(1);
    let gs = mod_pow(g, s, p);
    let yc = mod_pow(y, c, p);
    let both = product(&gs, &yc);
    let lhs = mod_pow(&both, &one, p);
    let rhs = mod_pow(r, &one, p);
    proof {
        lemma_pow1(both@ as int);
        lemma_pow1(r@ as int);
        lemma_mul_mod_noop(pow(g@ as int, s@), pow(y@ as int, c@), p@ as int);
    }
    same_value(&lhs, &rhs)
}

/// Completeness: an honest prover is always accepted. For generators of the
/// subgroup of order `q`, the pairs made from `x` and `k` together with the
/// response to any challenge `c` satisfy both verification equations.
pub proof fn lemma_honest_prover_accepted(group: Proof, x: nat, k: nat, c: nat)
    requires
        group.usable(),
        group.generators_in_subgroup(),
    ensures
        group.accepts(
            power_mod(group.alpha@, k, group.p@) as nat,
            power_mod(group.beta@, k, group.p@) as nat,
            power_mod(group.alpha@, x, group.p@) as nat,
            power_mod(group.beta@, x, group.p@) as nat,
            c,
            response(k, c, x, group.q@) as nat,
        ),
{
    lemma_equation_complete(group.alpha@, x, k, c, group.q@, group.p@);
    lemma_equation_complete(group.beta@, x, k, c, group.q@, group.p@);
}

/// Every commitment lies in the subgroup of order `q`: raised to `q` it is
/// congruent to 1 modulo `p`.
pub proof fn lemma_pair_in_subgroup(group: Proof, exp: nat)
    requires
        group.usable(),
        group.generators_in_subgroup(),
    ensures
        in_subgroup(power_mod(group.alpha@, exp, group.p@) as nat, group.q@, group.p@),
        in_subgroup(power_mod(group.beta@, exp, group.p@) as nat, group.q@, group.p@),
{
    lemma_power_in_subgroup(group.alpha@, exp, group.q@, group.p@);
    lemma_power_in_subgroup(group.beta@, exp, group.q@, group.p@);
}

/// Soundness: a prover that answers from another secret is refused. In a
/// subgroup of prime order `q` with a generator `alpha` other than 1, the
/// response computed from `other` fails against the pair made from `x`,
/// whenever the two secrets differ modulo `q` and the challenge is no multiple
/// of `q`. A challenge drawn from `[0, q)` is such a multiple only if it is 0.
pub proof fn lemma_wrong_secret_refused(group: Proof, x: nat, other: nat, k: nat, c: nat)
    requires
        group.generators_in_subgroup(),
        is_prime(group.q@),
        1 < group.alpha@ < group.p@,
        x % group.q@ != other % group.q@,
        c % group.q@ != 0,
    ensures
        !group.accepts(
            power_mod(group.alpha@, k, group.p@) as nat,
            power_mod(group.beta@, k, group.p@) as nat,
            power_mod(group.alpha@, x, group.p@) as nat,
            power_mod(group.beta@, x, group.p@) as nat,
            c,
            response(k, c, other, group.q@) as nat,
        ),
{
    lemma_pow1(group.alpha@ as int);
    lemma_small_mod(group.alpha@, group.p@);
    lemma_small_mod(1, group.p@);
    lemma_equation_sound(group.alpha@, x, other, k, c, group.q@, group.p@);
}

} // verus!
