//! Elements of the two prime fields of Baby-JubJub, held as canonical
//! little-endian bytes, with the arithmetic the protocol needs.
use vstd::prelude::*;
use ark_ed_on_bn254::{Fq, Fr};
use ark_ff::{BigInteger, PrimeField};
use ark_serialize::CanonicalDeserialize;

verus! {

/// Order of the base field (the field of point coordinates).
pub open spec fn base_modulus() -> nat {
    21888242871839275222246405745257275088548364400416034343698204186575808495617nat
}

/// Order of the scalar field (the order of the prime subgroup).
pub open spec fn scalar_modulus() -> nat {
    2736030358979909402780800718157159386076813972158567259200215660948447373041nat
}

/// The integer that a byte sequence spells in little-endian order.
pub open spec fn le_nat(b: Seq<u8>) -> nat
    decreases b.len(),
{
    if b.len() == 0 {
        0
    } else {
        b[0] as nat + 256 * le_nat(b.subrange(1, b.len() as int))
    }
}

/// The `n`-byte little-endian encoding of `v` (of `v` modulo `256^n`).
pub open spec fn le_bytes(v: nat, n: nat) -> Seq<u8>
    decreases n,
{
    if n == 0 {
        seq![]
    } else {
        seq![(v % 256) as u8] + le_bytes(v / 256, (n - 1) as nat)
    }
}

/// Two byte strings of one length that spell the same integer are equal.
pub proof fn lemma_le_nat_injective(a: Seq<u8>, b: Seq<u8>)
    requires
        a.len() == b.len(),
        le_nat(a) == le_nat(b),
    ensures
        a == b,
    decreases a.len(),
{
    if a.len() > 0 {
        let ta = a.subrange(1, a.len() as int);
        let tb = b.subrange(1, b.len() as int);
        let x = le_nat(ta);
        let y = le_nat(tb);
        let a0 = a[0] as nat;
        let b0 = b[0] as nat;
        assert(a0 + 256 * x == b0 + 256 * y);
        assert(a0 == b0 && x == y) by (nonlinear_arith)
            requires
                a0 + 256 * x == b0 + 256 * y,
                a0 < 256,
                b0 < 256,
        ;
        lemma_le_nat_injective(ta, tb);
        assert forall|i: int| 0 <= i < a.len() implies a[i] == b[i] by {
            if i > 0 {
                assert(a[i] == ta[i - 1]);
                assert(b[i] == tb[i - 1]);
            }
        }
        assert(a =~= b);
    } else {
        assert(a =~= b);
    }
}

proof fn lemma_mod_of_sum(a: nat, c: nat, m: nat)
    requires
        m > 0,
    ensures
        ((a % m) + c) % m == (a + c) % m,
        (a + c) % m < m,
{
    vstd::arithmetic::div_mod::lemma_add_mod_noop(a as int, c as int, m as int);
    vstd::arithmetic::div_mod::lemma_add_mod_noop((a % m) as int, c as int, m as int);
    vstd::arithmetic::div_mod::lemma_mod_twice(a as int, m as int);
    vstd::arithmetic::div_mod::lemma_mod_bound((a + c) as int, m as int);
}

pub(crate) fn bytes_eq(a: &[u8; 32], b: &[u8; 32]) -> (r: bool)
    ensures
        r == (a@ == b@),
{
    let mut i: usize = 0;
    while i < 32
        invariant
            0 <= i <= 32,
            a@.len() == 32,
            b@.len() == 32,
            forall|j: int| 0 <= j < i ==> a@[j] == b@[j],
        decreases 32 - i,
    {
        if a[i] != b[i] {
            return false;
        }
        i = i + 1;
    }
    assert(a@ =~= b@);
    true
}

/// An element of the base field.
#[derive(Clone, Copy, Debug)]
pub struct BaseElem {
    pub(crate) bytes: [u8; 32],
}

/// An element of the scalar field.
#[derive(Clone, Copy, Debug)]
pub struct ScalarElem {
    pub(crate) bytes: [u8; 32],
}

impl View for BaseElem {
    type V = Seq<u8>;

    closed spec fn view(&self) -> Seq<u8> {
        self.bytes@
    }
}

impl View for ScalarElem {
    type V = Seq<u8>;

    closed spec fn view(&self) -> Seq<u8> {
        self.bytes@
    }
}

impl PartialEq for BaseElem {
    fn eq(&self, o: &BaseElem) -> (r: bool) {
        bytes_eq(&self.bytes, &o.bytes)
    }
}

impl vstd::std_specs::cmp::PartialEqSpecImpl for BaseElem {
    open spec fn obeys_eq_spec() -> bool {
        true
    }

    open spec fn eq_spec(&self, o: &BaseElem) -> bool {
        self@ == o@
    }
}

impl PartialEq for ScalarElem {
    fn eq(&self, o: &ScalarElem) -> (r: bool) {
        bytes_eq(&self.bytes, &o.bytes)
    }
}

impl vstd::std_specs::cmp::PartialEqSpecImpl for ScalarElem {
    open spec fn obeys_eq_spec() -> bool {
        true
    }

    open spec fn eq_spec(&self, o: &ScalarElem) -> bool {
        self@ == o@
    }
}

/// Relies on PrimeField::from_le_bytes_mod_order of the base field: the
/// little-endian integer reduced modulo the field order.
#[verifier::external_body]
fn fq_from_le_mod(b: &[u8]) -> (r: BaseElem)
    ensures
        r@.len() == 32,
        le_nat(r@) == le_nat(b@) % base_modulus(),
{
    let e = Fq::from_le_bytes_mod_order(b);
    BaseElem { bytes: e.into_bigint().to_bytes_le().try_into().unwrap() }
}

/// Relies on PrimeField::from_le_bytes_mod_order of the scalar field: the
/// little-endian integer reduced modulo the field order.
#[verifier::external_body]
fn fr_from_le_mod(b: &[u8]) -> (r: ScalarElem)
    ensures
        r@ == le_bytes(le_nat(b@) % scalar_modulus(), 32),
        le_nat(r@) == le_nat(b@) % scalar_modulus(),
{
    let e = Fr::from_le_bytes_mod_order(b);
    ScalarElem { bytes: e.into_bigint().to_bytes_le().try_into().unwrap() }
}

/// Relies on CanonicalDeserialize::deserialize_uncompressed of the scalar
/// field: 32 little-endian bytes, accepted exactly when below the order.
#[verifier::external_body]
fn fr_decode(b: &[u8]) -> (r: Option<ScalarElem>)
    requires
        b@.len() == 32,
    ensures
        r is Some <==> le_nat(b@) < scalar_modulus(),
        r matches Some(s) ==> s@ == b@,
{
    match Fr::deserialize_uncompressed(b) {
        Ok(e) => Some(ScalarElem { bytes: e.into_bigint().to_bytes_le().try_into().unwrap() }),
        Err(_) => None,
    }
}

/// Relies on the product of two scalar-field elements (`Mul` of ark_ff's `Fp`).
#[verifier::external_body]
fn fr_mul(a: &ScalarElem, b: &ScalarElem) -> (r: ScalarElem)
    ensures
        r@ == le_bytes((le_nat(a@) * le_nat(b@)) % scalar_modulus(), 32),
        le_nat(r@) == (le_nat(a@) * le_nat(b@)) % scalar_modulus(),
{
    let e = Fr::from_le_bytes_mod_order(&a.bytes) * Fr::from_le_bytes_mod_order(&b.bytes);
    ScalarElem { bytes: e.into_bigint().to_bytes_le().try_into().unwrap() }
}

/// Relies on the sum of two scalar-field elements (`Add` of ark_ff's `Fp`).
#[verifier::external_body]
fn fr_add(a: &ScalarElem, b: &ScalarElem) -> (r: ScalarElem)
    ensures
        r@ == le_bytes((le_nat(a@) + le_nat(b@)) % scalar_modulus(), 32),
        le_nat(r@) == (le_nat(a@) + le_nat(b@)) % scalar_modulus(),
{
    let e = Fr::from_le_bytes_mod_order(&a.bytes) + Fr::from_le_bytes_mod_order(&b.bytes);
    ScalarElem { bytes: e.into_bigint().to_bytes_le().try_into().unwrap() }
}

/// Relies on the product of two base-field elements (`Mul` of ark_ff's `Fp`).
#[verifier::external_body]
fn fq_mul(a: &BaseElem, b: &BaseElem) -> (r: BaseElem)
    ensures
        r@.len() == 32,
        le_nat(r@) == (le_nat(a@) * le_nat(b@)) % base_modulus(),
{
    let e = Fq::from_le_bytes_mod_order(&a.bytes) * Fq::from_le_bytes_mod_order(&b.bytes);
    BaseElem { bytes: e.into_bigint().to_bytes_le().try_into().unwrap() }
}

/// Relies on `From<u64>` of ark_ff's `Fp`: the integer itself, which is
/// below the base field's order.
#[verifier::external_body]
fn fq_from_u64(v: u64) -> (r: BaseElem)
    ensures
        r@ == le_bytes(v as nat, 32),
        le_nat(r@) == v as nat,
{
    BaseElem { bytes: Fq::from(v).into_bigint().to_bytes_le().try_into().unwrap() }
}

/// Relies on the sum of two base-field elements (`Add` of ark_ff's `Fp`).
#[verifier::external_body]
fn fq_add(a: &BaseElem, b: &BaseElem) -> (r: BaseElem)
    ensures
        r@.len() == 32,
        le_nat(r@) == (le_nat(a@) + le_nat(b@)) % base_modulus(),
{
    let e = Fq::from_le_bytes_mod_order(&a.bytes) + Fq::from_le_bytes_mod_order(&b.bytes);
    BaseElem { bytes: e.into_bigint().to_bytes_le().try_into().unwrap() }
}

impl BaseElem {
    /// An encoding is always 32 bytes long.
    pub proof fn lemma_len(&self)
        ensures
            self@.len() == 32,
    {
    }

    /// The integer this element stands for.
    pub open spec fn value(&self) -> nat {
        le_nat(self@)
    }

    /// Canonical: 32 bytes spelling an integer below the field order.
    pub open spec fn wf(&self) -> bool {
        self@.len() == 32 && self.value() < base_modulus()
    }

    /// The element that a little-endian byte string spells, reduced modulo the
    /// field order.
    pub fn from_le_bytes_mod_order(b: &[u8]) -> (r: BaseElem)
        ensures
            r.wf(),
            r.value() == le_nat(b@) % base_modulus(),
    {
        fq_from_le_mod(b)
    }

    /// The canonical little-endian encoding.
    pub fn to_bytes(&self) -> (r: [u8; 32])
        ensures
            r@ == self@,
    {
        self.bytes
    }

    /// The element standing for a small integer.
    pub fn from_u64(v: u64) -> (r: BaseElem)
        ensures
            r.wf(),
            r.value() == v as nat,
    {
        fq_from_u64(v)
    }

    /// The sum of two elements.
    pub fn add(&self, o: &BaseElem) -> (r: BaseElem)
        ensures
            r.wf(),
            r.value() == (self.value() + o.value()) % base_modulus(),
    {
        fq_add(self, o)
    }

    /// The product of two elements.
    pub fn mul(&self, o: &BaseElem) -> (r: BaseElem)
        ensures
            r.wf(),
            r.value() == (self.value() * o.value()) % base_modulus(),
    {
        fq_mul(self, o)
    }
}

impl ScalarElem {
    /// An encoding is always 32 bytes long.
    pub proof fn lemma_len(&self)
        ensures
            self@.len() == 32,
    {
    }

    /// The integer this element stands for.
    pub open spec fn value(&self) -> nat {
        le_nat(self@)
    }

    /// Canonical: 32 bytes spelling an integer below the field order.
    pub open spec fn wf(&self) -> bool {
        self@.len() == 32 && self.value() < scalar_modulus()
    }

    /// The element that a little-endian byte string spells, reduced modulo the
    /// field order.
    pub fn from_le_bytes_mod_order(b: &[u8]) -> (r: ScalarElem)
        ensures
            r.wf(),
            r.value() == le_nat(b@) % scalar_modulus(),
            r@ == le_bytes(le_nat(b@) % scalar_modulus(), 32),
    {
        fr_from_le_mod(b)
    }

    /// Reads a canonical encoding: exactly 32 bytes below the field order.
    pub fn from_bytes(b: &[u8]) -> (r: Option<ScalarElem>)
        ensures
            r is Some <==> (b@.len() == 32 && le_nat(b@) < scalar_modulus()),
            r matches Some(s) ==> s@ == b@ && s.wf(),
    {
        if b.len() != 32 {
            return None;
        }
        fr_decode(b)
    }

    /// The canonical little-endian encoding.
    pub fn to_bytes(&self) -> (r: [u8; 32])
        ensures
            r@ == self@,
    {
        self.bytes
    }

    /// `self * o + c` in the field.
    pub fn mul_add(&self, o: &ScalarElem, c: &ScalarElem) -> (r: ScalarElem)
        ensures
            r.wf(),
            r.value() == (self.value() * o.value() + c.value()) % scalar_modulus(),
            r@ == le_bytes((self.value() * o.value() + c.value()) % scalar_modulus(), 32),
    {
        let p = fr_mul(self, o);
        let r = fr_add(&p, c);
        proof {
            lemma_mod_of_sum(self.value() * o.value(), c.value(), scalar_modulus());
        }
        r
    }
}

} // verus!
