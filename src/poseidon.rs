//! Poseidon sponge parameters over the base field, and the challenge that
//! signer and verifier derive from them.
use vstd::prelude::*;
use crate::field::{scalar_modulus, le_nat, BaseElem, ScalarElem};
use ark_crypto_primitives::sponge::poseidon::{find_poseidon_ark_and_mds, PoseidonConfig, PoseidonSponge};
use ark_crypto_primitives::sponge::CryptographicSponge;
use ark_ed_on_bn254::{Fq, Fr};
use ark_ff::{BigInteger, PrimeField};

verus! {

/// Bit size of the base field's order (`MODULUS_BIT_SIZE`).
pub const BASE_FIELD_BITS: u64 = 254;

/// Immutable Poseidon parameters (round constants and MDS matrix) for the base
/// field, generated from a rate and a round profile. It holds arkworks'
/// `PoseidonConfig` and is built only by `generate_config`.
#[verifier::external_body]
pub struct PoseidonSpongeConfig {
    inner: PoseidonConfig<Fq>,
}

/// The rate, full rounds and partial rounds that a configuration was generated
/// from; the constants are a function of these.
pub uninterp spec fn sponge_profile(c: PoseidonSpongeConfig) -> (nat, nat, nat);

/// The fixed parameters of a configuration: the bit size of the field, the
/// S-box exponent, the capacity, the number of skipped MDS matrices, the
/// number of round-constant rows and the state width (length of each row, and
/// side of the square MDS matrix).
pub uninterp spec fn sponge_layout(c: PoseidonSpongeConfig) -> (nat, nat, nat, nat, nat, nat);

/// The fixed parameters that this library generates for a rate and a round
/// profile.
pub open spec fn expected_layout(rate: nat, full_rounds: nat, partial_rounds: nat) -> (
    nat,
    nat,
    nat,
    nat,
    nat,
    nat,
) {
    (BASE_FIELD_BITS as nat, 5, 1, 0, full_rounds + partial_rounds, rate + 1)
}

/// The scalar that a fresh sponge of the given profile squeezes after absorbing
/// these base-field encodings in order.
pub uninterp spec fn sponge_challenge(profile: (nat, nat, nat), inputs: Seq<Seq<u8>>) -> Seq<u8>;

/// Relies on find_poseidon_ark_and_mds (for the base field's bit size, no
/// skipped matrices: `full + partial` rows of `rate + 1` round constants and a
/// `(rate + 1)`-square MDS matrix) and PoseidonConfig::new (S-box exponent
/// five, capacity one), which asserts that those tables have matching sizes.
#[verifier::external_body]
fn generate_config(rate: usize, full_rounds: usize, partial_rounds: usize) -> (r: PoseidonSpongeConfig)
    requires
        rate + 1 <= usize::MAX,
        full_rounds + partial_rounds <= usize::MAX,
    ensures
        sponge_profile(r) == (rate as nat, full_rounds as nat, partial_rounds as nat),
        sponge_layout(r) == expected_layout(rate as nat, full_rounds as nat, partial_rounds as nat),
{
    let (ark, mds) = find_poseidon_ark_and_mds::<Fq>(
        Fq::MODULUS_BIT_SIZE as u64, rate, full_rounds as u64, partial_rounds as u64, 0);
    PoseidonSpongeConfig { inner: PoseidonConfig::new(full_rounds, partial_rounds, 5, mds, ark, rate, 1) }
}

/// Relies on PoseidonSponge: `new` on the configuration, `absorb` of each
/// element in order, then `squeeze_field_elements` of one scalar-field element.
/// A sponge of rate zero never finishes absorbing, hence the bound.
#[verifier::external_body]
fn squeeze_challenge(c: &PoseidonSpongeConfig, inputs: &Vec<BaseElem>) -> (r: ScalarElem)
    requires
        sponge_profile(*c).0 >= 1,
    ensures
        r@ == sponge_challenge(sponge_profile(*c), inputs@.map_values(|e: BaseElem| e@)),
        r@.len() == 32,
        le_nat(r@) < scalar_modulus(),
{
    let mut sponge = PoseidonSponge::new(&c.inner);
    for e in inputs.iter() {
        sponge.absorb(&Fq::from_le_bytes_mod_order(&e.bytes));
    }
    let k = sponge.squeeze_field_elements::<Fr>(1);
    ScalarElem { bytes: k[0].into_bigint().to_bytes_le().try_into().unwrap() }
}

impl PoseidonSpongeConfig {
    /// Relies on the `rate` field of arkworks' `PoseidonConfig`, which
    /// `generate_config` set from the profile's rate.
    #[verifier::external_body]
    pub fn rate(&self) -> (r: usize)
        ensures
            r as nat == sponge_profile(*self).0,
    {
        self.inner.rate
    }
}

/// Generates the Poseidon constants for the base field and returns the
/// configuration: S-box exponent five, capacity one. Signing and verifying
/// need a rate of at least one.
pub fn poseidon_config(rate: usize, full_rounds: usize, partial_rounds: usize) -> (r: PoseidonSpongeConfig)
    requires
        rate < usize::MAX,
        full_rounds + partial_rounds <= usize::MAX,
    ensures
        sponge_profile(r) == (rate as nat, full_rounds as nat, partial_rounds as nat),
        sponge_layout(r) == expected_layout(rate as nat, full_rounds as nat, partial_rounds as nat),
{
    generate_config(rate, full_rounds, partial_rounds)
}

/// The challenge `k`: a fresh sponge absorbs both coordinates of `r`, both of
/// the public key `pk`, then every message element, and squeezes one scalar.
pub fn challenge(
    c: &PoseidonSpongeConfig,
    r: (BaseElem, BaseElem),
    pk: (BaseElem, BaseElem),
    message: &[BaseElem],
) -> (k: ScalarElem)
    requires
        sponge_profile(*c).0 >= 1,
    ensures
        k.wf(),
        k@ == sponge_challenge(sponge_profile(*c), challenge_inputs((r.0@, r.1@), (pk.0@, pk.1@), message@)),
{
    let mut inputs: Vec<BaseElem> = Vec::new();
    inputs.push(r.0);
    inputs.push(r.1);
    inputs.push(pk.0);
    inputs.push(pk.1);
    let mut i: usize = 0;
    while i < message.len()
        invariant
            0 <= i <= message@.len(),
            inputs@.len() == 4 + i,
            inputs@[0] == r.0,
            inputs@[1] == r.1,
            inputs@[2] == pk.0,
            inputs@[3] == pk.1,
            forall|j: int| 0 <= j < i ==> inputs@[4 + j] == message@[j],
        decreases message@.len() - i,
    {
        inputs.push(message[i]);
        i = i + 1;
    }
    let k = squeeze_challenge(c, &inputs);
    assert(inputs@.map_values(|e: BaseElem| e@) =~= challenge_inputs((r.0@, r.1@), (pk.0@, pk.1@), message@));
    k
}

/// What the challenge sponge absorbs, as encodings, in order.
pub open spec fn challenge_inputs(
    r: (Seq<u8>, Seq<u8>),
    pk: (Seq<u8>, Seq<u8>),
    message: Seq<BaseElem>,
) -> Seq<Seq<u8>> {
    seq![r.0, r.1, pk.0, pk.1] + message.map_values(|e: BaseElem| e@)
}

} // verus!
