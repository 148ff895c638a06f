//! A twist of Baby-JubJub, `168700·x² + y² = 1 + 168696·x²·y²` over the same
//! base field, isomorphic to it through `x ↦ x·√168700`.
use vstd::prelude::*;
use crate::field::{base_modulus, lemma_le_nat_injective, BaseElem};

verus! {

/// Coefficient `a` of the twist.
pub const TWIST_COEFF_A: u64 = 168700;

/// Coefficient `d` of the twist.
pub const TWIST_COEFF_D: u64 = 168696;

/// Cofactor of the twist's group order.
pub const TWIST_COFACTOR: u64 = 8;

/// The curve equation of the twist, modulo the base field order.
pub open spec fn twist_on_curve(x: nat, y: nat) -> bool {
    ((TWIST_COEFF_A as nat) * (x * x) + y * y) % base_modulus() == (1 + (TWIST_COEFF_D as nat) * (
    x * x) * (y * y)) % base_modulus()
}

/// Parameters of the twist of Baby-JubJub.
#[derive(Clone, Copy, Debug, Default, PartialEq, Eq)]
pub struct EdwardsConfig;

impl EdwardsConfig {
    /// Multiplies a base-field element by the coefficient `a`.
    pub fn mul_by_a(elem: &BaseElem) -> (r: BaseElem)
        ensures
            r.wf(),
            r.value() == (elem.value() * (TWIST_COEFF_A as nat)) % base_modulus(),
    {
        let a = BaseElem::from_u64(TWIST_COEFF_A);
        elem.mul(&a)
    }

    /// Whether canonical coordinates satisfy the twist's equation.
    pub fn is_on_curve(x: &BaseElem, y: &BaseElem) -> (r: bool)
        requires
            x.wf(),
            y.wf(),
        ensures
            r == twist_on_curve(x.value(), y.value()),
    {
        let x2 = x.mul(x);
        let y2 = y.mul(y);
        let lhs = EdwardsConfig::mul_by_a(&x2).add(&y2);
        let d = BaseElem::from_u64(TWIST_COEFF_D);
        let rhs = BaseElem::from_u64(1).add(&d.mul(&x2.mul(&y2)));
        proof {
            lemma_twist_sides(x.value(), y.value());
            lhs.lemma_len();
            rhs.lemma_len();
            if lhs.value() == rhs.value() {
                lemma_le_nat_injective(lhs@, rhs@);
            }
        }
        lhs == rhs
    }
}

proof fn lemma_twist_sides(x: nat, y: nat)
    ensures
        ((((x * x) % base_modulus()) * (TWIST_COEFF_A as nat)) % base_modulus() + (y * y)
            % base_modulus()) % base_modulus() == ((TWIST_COEFF_A as nat) * (x * x) + y * y)
            % base_modulus(),
        (1nat + ((TWIST_COEFF_D as nat) * ((((x * x) % base_modulus()) * ((y * y)
            % base_modulus())) % base_modulus())) % base_modulus()) % base_modulus() == (1 + (
        TWIST_COEFF_D as nat) * (x * x) * (y * y)) % base_modulus(),
{
    lemma_mod_sides((x * x) as int, (y * y) as int, TWIST_COEFF_A as int, TWIST_COEFF_D as int, base_modulus() as int);
}

proof fn lemma_mod_sides(xx: int, yy: int, a: int, d: int, m: int)
    requires
        m > 1,
        xx >= 0,
        yy >= 0,
    ensures
        (((xx % m) * a) % m + yy % m) % m == (a * xx + yy) % m,
        (1 + (d * (((xx % m) * (yy % m)) % m)) % m) % m == (1 + d * xx * yy) % m,
{
    vstd::arithmetic::div_mod::lemma_mul_mod_noop_left(xx, a, m);
    vstd::arithmetic::div_mod::lemma_add_mod_noop(xx * a, yy, m);
    vstd::arithmetic::div_mod::lemma_mod_twice(xx * a, m);
    assert(xx * a == a * xx) by (nonlinear_arith);
    vstd::arithmetic::div_mod::lemma_mul_mod_noop(xx, yy, m);
    vstd::arithmetic::div_mod::lemma_mul_mod_noop_right(d, xx * yy, m);
    vstd::arithmetic::div_mod::lemma_add_mod_noop(1, d * ((xx * yy) % m), m);
    vstd::arithmetic::div_mod::lemma_add_mod_noop(1, d * (xx * yy), m);
    vstd::arithmetic::div_mod::lemma_mod_twice(d * ((xx * yy) % m), m);
    vstd::arithmetic::div_mod::lemma_small_mod(1, m as nat);
    assert(d * (xx * yy) == d * xx * yy) by (nonlinear_arith);
}

} // verus!
