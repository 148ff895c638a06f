//! Points of Baby-JubJub, `a·x² + y² = 1 + d·x²·y²` over the base field,
//! in affine coordinates, and the group operations the protocol uses.
use vstd::prelude::*;
use crate::field::{base_modulus, le_bytes, le_nat, scalar_modulus, BaseElem, ScalarElem};
use ark_ec::{AffineRepr, CurveGroup};
use ark_ed_on_bn254::{EdwardsAffine, Fq, Fr};
use ark_ff::{BigInteger, PrimeField};
use ark_serialize::{CanonicalDeserialize, CanonicalSerialize};

verus! {

/// Coefficient `d` of the curve equation (`a` is one).
pub open spec fn coeff_d() -> nat {
    9706598848417545097372247223557719406784115219466060233080913168975159366771nat
}

/// x-coordinate of the generator of the prime-order subgroup.
pub open spec fn generator_x() -> nat {
    19698561148652590122159747500897617769866003486955115824547446575314762165298nat
}

/// y-coordinate of the generator of the prime-order subgroup.
pub open spec fn generator_y() -> nat {
    19298250018296453272277890825869354524455968081175474282777126169995084727839nat
}

/// Encodings of the generator's coordinates.
pub open spec fn generator_coords() -> (Seq<u8>, Seq<u8>) {
    (le_bytes(generator_x(), 32), le_bytes(generator_y(), 32))
}

/// Coordinates of `u · G` for the scalar encoded by `u`.
pub open spec fn generator_times(u: Seq<u8>) -> (Seq<u8>, Seq<u8>) {
    scalar_mul_of(generator_coords().0, generator_coords().1, u)
}

/// Coordinates of `v · G`.
pub open spec fn multiple_of_generator(v: nat) -> (Seq<u8>, Seq<u8>) {
    generator_times(le_bytes(v, 32))
}

/// The curve equation, modulo the base field order.
pub open spec fn on_curve(x: nat, y: nat) -> bool {
    (x * x + y * y) % base_modulus() == (1 + coeff_d() * (x * x) * (y * y)) % base_modulus()
}

/// Whether the point with these coordinate encodings lies in the prime-order
/// subgroup (meaningful for points on the curve).
pub uninterp spec fn in_prime_subgroup(x: Seq<u8>, y: Seq<u8>) -> bool;

/// Coordinates of `k · (x, y)`.
pub uninterp spec fn scalar_mul_of(x: Seq<u8>, y: Seq<u8>, k: Seq<u8>) -> (Seq<u8>, Seq<u8>);

/// Coordinates of `(ax, ay) − (bx, by)`.
pub uninterp spec fn difference_of(ax: Seq<u8>, ay: Seq<u8>, bx: Seq<u8>, by: Seq<u8>) -> (
    Seq<u8>,
    Seq<u8>,
);

/// Coordinates of the point that a 32-byte compressed encoding names, if any.
pub uninterp spec fn compressed_point_of(b: Seq<u8>) -> Option<(Seq<u8>, Seq<u8>)>;

/// A point in affine coordinates.
#[derive(Clone, Copy, Debug)]
pub struct Point {
    pub(crate) x: BaseElem,
    pub(crate) y: BaseElem,
}

impl PartialEq for Point {
    fn eq(&self, o: &Point) -> (r: bool) {
        self.x == o.x && self.y == o.y
    }
}

impl vstd::std_specs::cmp::PartialEqSpecImpl for Point {
    open spec fn obeys_eq_spec() -> bool {
        true
    }

    open spec fn eq_spec(&self, o: &Point) -> bool {
        self.coords() == o.coords()
    }
}

/// A sign bit of the x-coordinate: set when `x` is above `−x`.
pub open spec fn x_is_negative(x: nat) -> bool {
    x > (base_modulus() - x) % base_modulus() as int
}

/// Compressed encoding: the y-coordinate, with the top bit of its last byte
/// carrying the sign of x.
pub open spec fn compressed_encoding(x: Seq<u8>, y: Seq<u8>) -> Seq<u8> {
    if x_is_negative(le_nat(x)) {
        y.update(31, y[31] | 0x80u8)
    } else {
        y
    }
}

/// Whether 64 bytes are the uncompressed encoding of a point of the prime
/// subgroup: two canonical coordinates on the curve.
pub open spec fn uncompressed_valid(b: Seq<u8>) -> bool {
    let x = b.subrange(0, 32);
    let y = b.subrange(32, 64);
    b.len() == 64 && le_nat(x) < base_modulus() && le_nat(y) < base_modulus() && on_curve(
        le_nat(x),
        le_nat(y),
    ) && in_prime_subgroup(x, y)
}

impl Point {
    pub closed spec fn coords(&self) -> (Seq<u8>, Seq<u8>) {
        (self.x@, self.y@)
    }

    /// Each coordinate encoding is 32 bytes long.
    pub proof fn lemma_coords_len(&self)
        ensures
            self.coords().0.len() == 32,
            self.coords().1.len() == 32,
    {
        self.x.lemma_len();
        self.y.lemma_len();
    }

    /// What well-formedness says of the coordinates.
    pub proof fn lemma_wf_facts(&self)
        requires
            self.wf(),
        ensures
            le_nat(self.coords().0) < base_modulus(),
            le_nat(self.coords().1) < base_modulus(),
            on_curve(le_nat(self.coords().0), le_nat(self.coords().1)),
    {
    }

    /// Canonical coordinates of a point on the curve.
    pub closed spec fn wf(&self) -> bool {
        self.x.wf() && self.y.wf() && on_curve(self.x.value(), self.y.value())
    }

    /// The two coordinates.
    pub fn xy(&self) -> (r: (BaseElem, BaseElem))
        ensures
            (r.0@, r.1@) == self.coords(),
            self.wf() ==> r.0.wf() && r.1.wf(),
    {
        (self.x, self.y)
    }

    /// The uncompressed encoding: x then y, each in 32 little-endian bytes.
    pub fn to_bytes_uncompressed(&self) -> (r: Vec<u8>)
        ensures
            r@ == self.coords().0 + self.coords().1,
    {
        let xb = self.x.to_bytes();
        let yb = self.y.to_bytes();
        let mut v: Vec<u8> = Vec::new();
        let mut i: usize = 0;
        while i < 32
            invariant
                0 <= i <= 32,
                xb@.len() == 32,
                v@ == xb@.subrange(0, i as int),
            decreases 32 - i,
        {
            v.push(xb[i]);
            i = i + 1;
        }
        let mut j: usize = 0;
        while j < 32
            invariant
                0 <= j <= 32,
                xb@.len() == 32,
                yb@.len() == 32,
                v@ == xb@ + yb@.subrange(0, j as int),
            decreases 32 - j,
        {
            v.push(yb[j]);
            j = j + 1;
        }
        assert(xb@.subrange(0, 32) =~= xb@);
        assert(yb@.subrange(0, 32) =~= yb@);
        v
    }
}

/// Relies on AffineRepr::generator of Baby-JubJub: the curve's fixed
/// generator, of prime order `n`: it is `1 · G`, lies in the subgroup, and
/// distinct scalars below `n` give distinct multiples of it.
#[verifier::external_body]
pub(crate) fn generator() -> (r: Point)
    ensures
        r.wf(),
        in_prime_subgroup(r.coords().0, r.coords().1),
        r.coords() == multiple_of_generator(1),
        forall|u: nat, v: nat|
            #![trigger scalar_mul_of(r.coords().0, r.coords().1, le_bytes(u, 32)), scalar_mul_of(r.coords().0, r.coords().1, le_bytes(v, 32))]
            u < scalar_modulus() && v < scalar_modulus() && scalar_mul_of(
                r.coords().0,
                r.coords().1,
                le_bytes(u, 32),
            ) == scalar_mul_of(r.coords().0, r.coords().1, le_bytes(v, 32)) ==> u == v,
        r.coords() == generator_coords(),
{
    let g = EdwardsAffine::generator();
    let x = BaseElem { bytes: g.x.into_bigint().to_bytes_le().try_into().unwrap() };
    Point { x, y: BaseElem { bytes: g.y.into_bigint().to_bytes_le().try_into().unwrap() } }
}

/// Relies on `Mul<Fr>` of Baby-JubJub affine points, normalised back to
/// affine form: the group's scalar multiple by `k` reduced modulo `n`. A
/// multiple of a subgroup point stays in the subgroup, and `k · (u · G)` is
/// `(u·k mod n) · G`.
#[verifier::external_body]
pub(crate) fn point_mul(p: &Point, k: &ScalarElem) -> (r: Point)
    requires
        p.wf(),
    ensures
        r.wf(),
        r.coords() == scalar_mul_of(p.coords().0, p.coords().1, k@),
        in_prime_subgroup(p.coords().0, p.coords().1) ==> in_prime_subgroup(
            r.coords().0,
            r.coords().1,
        ),
        forall|u: nat|
            u < scalar_modulus() && p.coords() == #[trigger] multiple_of_generator(u)
                ==> r.coords() == multiple_of_generator((u * le_nat(k@)) % scalar_modulus()),
{
    let a = EdwardsAffine::new_unchecked(
        Fq::from_le_bytes_mod_order(&p.x.bytes),
        Fq::from_le_bytes_mod_order(&p.y.bytes),
    );
    let q = (a * Fr::from_le_bytes_mod_order(&k.bytes)).into_affine();
    let x = BaseElem { bytes: q.x.into_bigint().to_bytes_le().try_into().unwrap() };
    Point { x, y: BaseElem { bytes: q.y.into_bigint().to_bytes_le().try_into().unwrap() } }
}

/// Relies on `Sub` of Baby-JubJub points, normalised back to affine form: the
/// group's difference, so the subgroup is closed under it and
/// `u · G − v · G` is `(u − v mod n) · G`.
#[verifier::external_body]
pub(crate) fn point_sub(a: &Point, b: &Point) -> (r: Point)
    requires
        a.wf(),
        b.wf(),
    ensures
        r.wf(),
        r.coords() == difference_of(a.coords().0, a.coords().1, b.coords().0, b.coords().1),
        in_prime_subgroup(a.coords().0, a.coords().1) && in_prime_subgroup(
            b.coords().0,
            b.coords().1,
        ) ==> in_prime_subgroup(r.coords().0, r.coords().1),
        forall|u: nat, v: nat|
            #![trigger multiple_of_generator(u), multiple_of_generator(v)]
            u < scalar_modulus() && v < scalar_modulus() && a.coords() == multiple_of_generator(u)
                && b.coords() == multiple_of_generator(v) ==> r.coords() == multiple_of_generator(
                ((u - v) % (scalar_modulus() as int)) as nat,
            ),
{
    let fa = EdwardsAffine::new_unchecked(Fq::from_le_bytes_mod_order(&a.x.bytes), Fq::from_le_bytes_mod_order(&a.y.bytes));
    let fb = EdwardsAffine::new_unchecked(Fq::from_le_bytes_mod_order(&b.x.bytes), Fq::from_le_bytes_mod_order(&b.y.bytes));
    let q = (fa.into_group() - fb).into_affine();
    let x = BaseElem { bytes: q.x.into_bigint().to_bytes_le().try_into().unwrap() };
    Point { x, y: BaseElem { bytes: q.y.into_bigint().to_bytes_le().try_into().unwrap() } }
}

/// Relies on CanonicalDeserialize::deserialize_uncompressed of Baby-JubJub
/// points: two canonical coordinates, then the on-curve and subgroup checks.
#[verifier::external_body]
pub(crate) fn decode_uncompressed(b: &[u8]) -> (r: Option<Point>)
    requires
        b@.len() == 64,
    ensures
        r is Some <==> uncompressed_valid(b@),
        r matches Some(p) ==> p.wf(),
        r matches Some(p) ==> p.coords() == (b@.subrange(0, 32), b@.subrange(32, 64)),
{
    match EdwardsAffine::deserialize_uncompressed(b) {
        Ok(q) => {
            let x = BaseElem { bytes: q.x.into_bigint().to_bytes_le().try_into().unwrap() };
            Some(Point { x, y: BaseElem { bytes: q.y.into_bigint().to_bytes_le().try_into().unwrap() } })
        },
        Err(_) => None,
    }
}

/// Relies on CanonicalSerialize::serialize_compressed of Baby-JubJub points:
/// y in 32 little-endian bytes, with the sign of x in the top bit.
#[verifier::external_body]
pub(crate) fn encode_compressed(p: &Point) -> (r: Vec<u8>)
    requires
        p.wf(),
    ensures
        r@ == compressed_encoding(p.coords().0, p.coords().1),
{
    let a = EdwardsAffine::new_unchecked(Fq::from_le_bytes_mod_order(&p.x.bytes), Fq::from_le_bytes_mod_order(&p.y.bytes));
    let mut v = Vec::new();
    a.serialize_compressed(&mut v).unwrap();
    v
}

/// Relies on CanonicalDeserialize::deserialize_compressed of Baby-JubJub
/// points: reads 32 bytes, recovers x from y and the sign bit, then checks
/// that the point lies in the prime subgroup.
#[verifier::external_body]
pub(crate) fn decode_compressed(b: &[u8]) -> (r: Option<Point>)
    ensures
        b@.len() < 32 ==> r is None,
        b@.len() >= 32 ==> (match r {
            Some(p) => Some(p.coords()),
            None => None::<(Seq<u8>, Seq<u8>)>,
        }) == compressed_point_of(b@.subrange(0, 32)),
        r matches Some(p) ==> p.wf() && in_prime_subgroup(p.coords().0, p.coords().1),
{
    match EdwardsAffine::deserialize_compressed(b) {
        Ok(q) => {
            let x = BaseElem { bytes: q.x.into_bigint().to_bytes_le().try_into().unwrap() };
            Some(Point { x, y: BaseElem { bytes: q.y.into_bigint().to_bytes_le().try_into().unwrap() } })
        },
        Err(_) => None,
    }
}

} // verus!
