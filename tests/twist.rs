use ark_ec::models::CurveConfig;
use ark_ec::twisted_edwards::{Affine, MontCurveConfig, TECurveConfig};
use ark_ec::{AffineRepr, CurveGroup};
use ark_ed_on_bn254::{Fq, Fr};
use ark_ff::{BigInt, BigInteger, Field, Fp, PrimeField};
use ark_std::UniformRand;
use poseidon_eddsa::ed_on_bn254_twist::EdwardsConfig;
use poseidon_eddsa::field::BaseElem;
use rand_core::OsRng;

#[derive(Clone, Default, PartialEq, Eq)]
struct Twist;

const GENERATOR_X: Fq = Fp::new(BigInt::new([
    0x2893f3f6bb957051,
    0x2ab8d8010534e0b6,
    0x4eacb2e09d6277c1,
    0x0bb77a6ad63e739b,
]));
const GENERATOR_Y: Fq = Fp::new(BigInt::new([
    0x4b3c257a872d7d8b,
    0xfce0051fb9e13377,
    0x25572e1cd16bf9ed,
    0x25797203f7a0b249,
]));

impl CurveConfig for Twist {
    type BaseField = Fq;
    type ScalarField = Fr;
    const COFACTOR: &'static [u64] = &[8];
    const COFACTOR_INV: Fr = Fp::new(BigInt::new([
        0x1a8444e0b1fd0213,
        0x35d7100131fcd049,
        0x9028c79ff62a25aa,
        0x054af89490a16d84,
    ]));
}

impl TECurveConfig for Twist {
    const COEFF_A: Fq = Fp::new(BigInt::new([168700, 0, 0, 0]));
    const COEFF_D: Fq = Fp::new(BigInt::new([168696, 0, 0, 0]));
    const GENERATOR: Affine<Twist> = Affine::new_unchecked(GENERATOR_X, GENERATOR_Y);
    type MontCurveConfig = Twist;

    fn mul_by_a(elem: Fq) -> Fq {
        elem * <Self as TECurveConfig>::COEFF_A
    }
}

impl MontCurveConfig for Twist {
    const COEFF_A: Fq = Fp::new(BigInt::new([168698, 0, 0, 0]));
    const COEFF_B: Fq = Fp::new(BigInt::new([1, 0, 0, 0]));
    type TECurveConfig = Twist;
}

fn elem(e: Fq) -> BaseElem {
    BaseElem::from_le_bytes_mod_order(&e.into_bigint().to_bytes_le())
}

fn twist(v: ark_ed_on_bn254::EdwardsAffine) -> Affine<Twist> {
    let inv_sqrt_a = Fq::from(168700u64).sqrt().unwrap().inverse().unwrap();
    Affine::new_unchecked(v.x * inv_sqrt_a, v.y)
}

fn untwist(u: Affine<Twist>) -> ark_ed_on_bn254::EdwardsAffine {
    let sqrt_a = Fq::from(168700u64).sqrt().unwrap();
    ark_ed_on_bn254::EdwardsAffine::new_unchecked(u.x * sqrt_a, u.y)
}

#[test]
fn test_twist() {
    let v0 = ark_ed_on_bn254::EdwardsAffine::generator();
    let u0 = twist(v0);
    assert!(u0.is_on_curve());
    assert!(u0.is_in_correct_subgroup_assuming_on_curve());
    let x = Fr::rand(&mut OsRng);
    let u1 = (u0 * x).into_affine();
    let v1 = (v0 * x).into_affine();
    let v2 = untwist(u1);
    assert_eq!(v1, v2);
}

#[test]
fn twisted_points_satisfy_twist_equation() {
    let v0 = ark_ed_on_bn254::EdwardsAffine::generator();
    let u0 = twist(v0);
    assert!(EdwardsConfig::is_on_curve(&elem(u0.x), &elem(u0.y)));
    assert!(!EdwardsConfig::is_on_curve(&elem(v0.x), &elem(v0.y)));
    let g = Twist::GENERATOR;
    assert!(EdwardsConfig::is_on_curve(&elem(g.x), &elem(g.y)));
    assert_eq!(EdwardsConfig::mul_by_a(&elem(g.x)), elem(Twist::mul_by_a(g.x)));
}
