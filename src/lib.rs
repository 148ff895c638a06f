//! EdDSA signatures over Baby-JubJub whose challenge is a Poseidon sponge
//! hash, so that verification can also be expressed as a circuit.
use vstd::prelude::*;

pub mod curve;
pub mod ed_on_bn254_twist;
pub mod eddsa;
pub mod field;
pub mod poseidon;
pub mod signature;

pub use eddsa::{PublicKey, SecretKey, SigningKey};
pub use poseidon::{poseidon_config, PoseidonSpongeConfig};

verus! {

/// Why an operation of the library failed.
#[derive(Clone, Copy, Debug, PartialEq, Eq, Structural)]
pub enum Error {
    /// The signature does not satisfy the verification equation.
    Verify,
    /// The wide digest did not produce exactly 64 bytes.
    BadDigestOutput,
    /// Bytes handed to a decoder are not a valid encoding.
    InvalidData,
}

/// The scalar that a digest's output reduces to, read little-endian.
pub(crate) fn from_digest(digest: &[u8]) -> (r: field::ScalarElem)
    ensures
        r.wf(),
        r@ == eddsa::nonce_scalar(digest@),
        r.value() == field::le_nat(digest@) % field::scalar_modulus(),
{
    field::ScalarElem::from_le_bytes_mod_order(digest)
}

impl Error {
    /// A sentence that describes the error.
    pub fn message(&self) -> (r: &'static str)
        ensures
            *self == Error::Verify ==> r@ == "Signature verification failed"@,
            *self == Error::BadDigestOutput ==> r@ == "Bad digest output size"@,
            *self == Error::InvalidData ==> r@ == "Invalid data"@,
    {
        match self {
            Error::Verify => "Signature verification failed",
            Error::BadDigestOutput => "Bad digest output size",
            Error::InvalidData => "Invalid data",
        }
    }
}

} // verus!
