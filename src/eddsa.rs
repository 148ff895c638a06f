//! Keys, signing and verification.
use vstd::prelude::*;
use crate::curve::{
    compressed_encoding, compressed_point_of, decode_compressed, difference_of, encode_compressed,
    generator, generator_times, in_prime_subgroup, multiple_of_generator, point_mul, point_sub,
    scalar_mul_of, Point,
};
use crate::field::{le_bytes, le_nat, scalar_modulus, BaseElem, ScalarElem};
use crate::poseidon::{challenge, challenge_inputs, sponge_challenge, sponge_profile, PoseidonSpongeConfig};
use crate::signature::Signature;
use crate::Error;

verus! {

/// Length of the wide digest that expands a secret key.
pub const DIGEST_LEN: usize = 64;

/// The first half of the digest with the three lowest bits cleared, the top
/// bit cleared and the second-highest bit set.
pub open spec fn pruned(b: Seq<u8>) -> Seq<u8> {
    b.update(0, b[0] & 0xf8u8).update(31, (b[31] & 0x7fu8) | 0x40u8)
}

/// Encoding of the secret scalar `x` that a 64-byte digest expands to.
pub open spec fn secret_scalar(digest: Seq<u8>) -> Seq<u8> {
    le_bytes(le_nat(pruned(digest.subrange(0, 32))) % scalar_modulus(), 32)
}

/// Encoding of the nonce `r` that a nonce digest reduces to.
pub open spec fn nonce_scalar(nonce_digest: Seq<u8>) -> Seq<u8> {
    le_bytes(le_nat(nonce_digest) % scalar_modulus(), 32)
}

/// Concatenation of the encodings of the message elements.
pub open spec fn message_bytes(message: Seq<BaseElem>) -> Seq<u8>
    decreases message.len(),
{
    if message.len() == 0 {
        seq![]
    } else {
        message_bytes(message.drop_last()) + message.last()@
    }
}

/// The scalar `S = x·k + r` of the signature that secret scalar `x` with
/// public key `pk` gives for a message.
pub open spec fn signed_scalar(
    x: Seq<u8>,
    pk: (Seq<u8>, Seq<u8>),
    profile: (nat, nat, nat),
    message: Seq<BaseElem>,
    nonce_digest: Seq<u8>,
) -> Seq<u8> {
    let r = nonce_scalar(nonce_digest);
    let k = sponge_challenge(profile, challenge_inputs(generator_times(r), pk, message));
    le_bytes((le_nat(x) * le_nat(k) + le_nat(r)) % scalar_modulus(), 32)
}

/// The encoding of the signature that secret scalar `x` with public key `pk`
/// gives for a message, under a sponge profile and a nonce digest:
/// `R = r·G`, `k` the challenge over `R`, `pk` and the message,
/// `S = x·k + r`.
pub open spec fn signature_encoding(
    x: Seq<u8>,
    pk: (Seq<u8>, Seq<u8>),
    profile: (nat, nat, nat),
    message: Seq<BaseElem>,
    nonce_digest: Seq<u8>,
) -> Seq<u8> {
    let big_r = generator_times(nonce_scalar(nonce_digest));
    big_r.0 + big_r.1 + signed_scalar(x, pk, profile, message, nonce_digest)
}

/// The verification equation on an encoded signature: with `k` the challenge
/// over `R`, `pk` and the message, `S·G − k·pk` equals `R`.
pub open spec fn verification_holds(
    pk: (Seq<u8>, Seq<u8>),
    profile: (nat, nat, nat),
    message: Seq<BaseElem>,
    sig: Seq<u8>,
) -> bool {
    let big_r = (sig.subrange(0, 32), sig.subrange(32, 64));
    let s = sig.subrange(64, 96);
    let k = sponge_challenge(profile, challenge_inputs(big_r, pk, message));
    let sg = generator_times(s);
    let kp = scalar_mul_of(pk.0, pk.1, k);
    difference_of(sg.0, sg.1, kp.0, kp.1) == big_r
}

/// `sig` is what secret scalar `x` and nonce `r` sign: the public key is
/// `x · G`, `R = r · G`, and `S = x·k + r` for the challenge `k` over `R`,
/// the public key and the message.
pub open spec fn signed_by(
    pk: (Seq<u8>, Seq<u8>),
    profile: (nat, nat, nat),
    message: Seq<BaseElem>,
    sig: Seq<u8>,
    x: nat,
    r: nat,
) -> bool {
    let big_r = (sig.subrange(0, 32), sig.subrange(32, 64));
    let k = sponge_challenge(profile, challenge_inputs(big_r, pk, message));
    &&& x < scalar_modulus()
    &&& r < scalar_modulus()
    &&& pk == multiple_of_generator(x)
    &&& big_r == multiple_of_generator(r)
    &&& le_nat(sig.subrange(64, 96)) == (x * le_nat(k) + r) % scalar_modulus()
}

/// `sig` has `R = r · G` for a public key `x · G`, but its `S` is not
/// `x·k + r`: a signature with a wrong scalar.
pub open spec fn mismatched_scalar(
    pk: (Seq<u8>, Seq<u8>),
    profile: (nat, nat, nat),
    message: Seq<BaseElem>,
    sig: Seq<u8>,
    x: nat,
    r: nat,
) -> bool {
    let big_r = (sig.subrange(0, 32), sig.subrange(32, 64));
    let k = sponge_challenge(profile, challenge_inputs(big_r, pk, message));
    &&& x < scalar_modulus()
    &&& r < scalar_modulus()
    &&& pk == multiple_of_generator(x)
    &&& big_r == multiple_of_generator(r)
    &&& le_nat(sig.subrange(64, 96)) != (x * le_nat(k) + r) % scalar_modulus()
}

proof fn lemma_nonce_determines_scalar(a: int, s: int, r: int, n: int)
    requires
        n > 0,
        0 <= s < n,
        0 <= r < n,
        (s - a % n) % n == r,
    ensures
        s == (a + r) % n,
{
    vstd::arithmetic::div_mod::lemma_add_mod_noop(s - a % n, a, n);
    vstd::arithmetic::div_mod::lemma_add_mod_noop(r, a, n);
    vstd::arithmetic::div_mod::lemma_mod_twice(s - a % n, n);
    vstd::arithmetic::div_mod::lemma_add_mod_noop(s - a % n, a % n, n);
    vstd::arithmetic::div_mod::lemma_mod_twice(a, n);
    vstd::arithmetic::div_mod::lemma_small_mod(s as nat, n as nat);
}

proof fn lemma_recover_nonce(a: int, r: int, n: int)
    requires
        n > 0,
        0 <= r < n,
    ensures
        (((a + r) % n) - (a % n)) % n == r,
{
    vstd::arithmetic::div_mod::lemma_sub_mod_noop(a + r, a, n);
    vstd::arithmetic::div_mod::lemma_small_mod(r as nat, n as nat);
}

/// An EdDSA secret key: 32 bytes.
#[derive(Clone, Copy, Debug)]
pub struct SecretKey {
    bytes: [u8; 32],
}

impl View for SecretKey {
    type V = Seq<u8>;

    closed spec fn view(&self) -> Seq<u8> {
        self.bytes@
    }
}

impl SecretKey {
    pub fn to_bytes(&self) -> (r: [u8; 32])
        ensures
            r@ == self@,
    {
        self.bytes
    }

    pub fn from_bytes(bytes: &[u8; 32]) -> (r: SecretKey)
        ensures
            r@ == bytes@,
    {
        SecretKey { bytes: *bytes }
    }
}

/// Prunes the first half of the digest and reduces it into the scalar field.
fn prune_buffer(bytes: [u8; 32]) -> (x: ScalarElem)
    ensures
        x.wf(),
        x@ == le_bytes(le_nat(pruned(bytes@)) % scalar_modulus(), 32),
{
    let mut b = bytes;
    b[0] = b[0] & 0b1111_1000;
    b[31] = b[31] & 0b0111_1111;
    b[31] = b[31] | 0b0100_0000;
    assert(b@ =~= pruned(bytes@));
    ScalarElem::from_le_bytes_mod_order(&b)
}

/// Splits a 64-byte digest of the secret key into the secret scalar and the
/// nonce prefix.
fn expand(digest: &[u8]) -> (r: Result<(ScalarElem, [u8; 32]), Error>)
    ensures
        r is Err <==> digest@.len() != 64,
        r is Err ==> r == Err::<(ScalarElem, [u8; 32]), Error>(Error::BadDigestOutput),
        r matches Ok(e) ==> e.0.wf() && e.0@ == secret_scalar(digest@) && e.1@ == digest@.subrange(
            32,
            64,
        ),
{
    if digest.len() != DIGEST_LEN {
        return Err(Error::BadDigestOutput);
    }
    let mut buffer: [u8; 32] = [0u8; 32];
    let mut prefix: [u8; 32] = [0u8; 32];
    let mut i: usize = 0;
    while i < 32
        invariant
            0 <= i <= 32,
            digest@.len() == 64,
            forall|j: int| 0 <= j < i ==> buffer@[j] == digest@[j],
            forall|j: int| 0 <= j < i ==> prefix@[j] == digest@[32 + j],
        decreases 32 - i,
    {
        buffer[i] = digest[i];
        prefix[i] = digest[32 + i];
        i = i + 1;
    }
    assert(buffer@ =~= digest@.subrange(0, 32));
    assert(prefix@ =~= digest@.subrange(32, 64));
    Ok((prune_buffer(buffer), prefix))
}

/// An EdDSA verification key: a point of the prime subgroup.
#[derive(Clone, Copy, Debug)]
pub struct PublicKey {
    point: Point,
}

impl PublicKey {
    /// The key's point.
    pub closed spec fn point(&self) -> Point {
        self.point
    }

    /// Coordinates of the key's point.
    pub open spec fn coords(&self) -> (Seq<u8>, Seq<u8>) {
        self.point().coords()
    }

    /// A point of the prime-order subgroup.
    pub open spec fn wf(&self) -> bool {
        self.point().wf() && in_prime_subgroup(self.coords().0, self.coords().1)
    }

    /// The affine coordinates.
    pub fn xy(&self) -> (r: (BaseElem, BaseElem))
        ensures
            (r.0@, r.1@) == self.coords(),
            self.wf() ==> r.0.wf() && r.1.wf(),
    {
        self.point.xy()
    }

    /// The compressed encoding of the point.
    pub fn to_bytes(&self) -> (r: Vec<u8>)
        requires
            self.wf(),
        ensures
            r@ == compressed_encoding(self.coords().0, self.coords().1),
    {
        encode_compressed(&self.point)
    }

    /// Reads a compressed encoding; bytes past the first 32 are not read.
    pub fn from_bytes(bytes: &[u8]) -> (r: Result<PublicKey, Error>)
        ensures
            bytes@.len() < 32 ==> r is Err,
            bytes@.len() >= 32 ==> (match r {
                Ok(k) => Some(k.coords()),
                Err(_) => None::<(Seq<u8>, Seq<u8>)>,
            }) == compressed_point_of(bytes@.subrange(0, 32)),
            r matches Ok(k) ==> k.wf(),
            r is Err ==> r == Err::<PublicKey, Error>(Error::InvalidData),
    {
        match decode_compressed(bytes) {
            Some(point) => Ok(PublicKey { point }),
            None => Err(Error::InvalidData),
        }
    }

    /// Checks `signature` on `message`: accepts exactly when the verification
    /// equation holds, else fails with `Verify`.
    pub fn verify(
        &self,
        poseidon: &PoseidonSpongeConfig,
        message: &[BaseElem],
        signature: &Signature,
    ) -> (r: Result<(), Error>)
        requires
            self.wf(),
            signature.wf(),
            sponge_profile(*poseidon).0 >= 1,
        ensures
            r is Ok <==> verification_holds(
                self.coords(),
                sponge_profile(*poseidon),
                message@,
                signature@,
            ),
            r is Err ==> r == Err::<(), Error>(Error::Verify),
            (exists|x: nat, n: nat|
                signed_by(self.coords(), sponge_profile(*poseidon), message@, signature@, x, n))
                ==> r is Ok,
            (exists|x: nat, n: nat|
                mismatched_scalar(self.coords(), sponge_profile(*poseidon), message@, signature@, x, n))
                ==> r is Err,
    {
        let sig_r = signature.r();
        let sig_s = signature.s();
        let k = challenge(poseidon, sig_r.xy(), self.point.xy(), message);
        let kx_b = point_mul(&self.point, &k);
        let g = generator();
        let s_b = point_mul(&g, sig_s);
        let r_rec = point_sub(&s_b, &kx_b);
        proof {
            signature.lemma_parts();
            let profile = sponge_profile(*poseidon);
            if exists|x: nat, n: nat| signed_by(self.coords(), profile, message@, signature@, x, n) {
                let (x, n) = choose|x: nat, n: nat|
                    signed_by(self.coords(), profile, message@, signature@, x, n);
                let m = scalar_modulus();
                let kv = le_nat(k@);
                let sv = le_nat(sig_s@);
                assert(s_b.coords() == multiple_of_generator((1 * sv) % m));
                assert((1 * sv) % m == sv) by {
                    vstd::arithmetic::div_mod::lemma_small_mod(sv, m);
                }
                assert(kx_b.coords() == multiple_of_generator((x * kv) % m));
                assert(r_rec.coords() == multiple_of_generator(
                    ((sv - (x * kv) % m) % (m as int)) as nat,
                ));
                lemma_recover_nonce((x * kv) as int, n as int, m as int);
            }
            if exists|x: nat, n: nat| mismatched_scalar(self.coords(), profile, message@, signature@, x, n) {
                let (x, n) = choose|x: nat, n: nat|
                    mismatched_scalar(self.coords(), profile, message@, signature@, x, n);
                let m = scalar_modulus();
                let kv = le_nat(k@);
                let sv = le_nat(sig_s@);
                assert((1 * sv) % m == sv) by {
                    vstd::arithmetic::div_mod::lemma_small_mod(sv, m);
                }
                assert(kx_b.coords() == multiple_of_generator((x * kv) % m));
                let d = ((sv - (x * kv) % m) % (m as int)) as nat;
                assert(r_rec.coords() == multiple_of_generator(d));
                if r_rec.coords() == sig_r.coords() {
                    assert(multiple_of_generator(d) == multiple_of_generator(n));
                    assert(d == n);
                    lemma_nonce_determines_scalar((x * kv) as int, sv as int, n as int, m as int);
                }
            }
        }
        if *sig_r == r_rec {
            Ok(())
        } else {
            Err(Error::Verify)
        }
    }
}

/// A signing key: the secret key, what it expands to, and the public key.
#[derive(Clone, Copy, Debug)]
pub struct SigningKey {
    secret_key: SecretKey,
    x: ScalarElem,
    prefix: [u8; 32],
    public_key: PublicKey,
}

impl SigningKey {
    /// The secret key.
    pub closed spec fn secret(&self) -> SecretKey {
        self.secret_key
    }

    /// The secret scalar `x`.
    pub closed spec fn scalar(&self) -> ScalarElem {
        self.x
    }

    /// The nonce prefix.
    pub closed spec fn prefix(&self) -> Seq<u8> {
        self.prefix@
    }

    /// The public key.
    pub closed spec fn public(&self) -> PublicKey {
        self.public_key
    }

    /// The public key is `x · G`.
    pub open spec fn wf(&self) -> bool {
        &&& self.scalar().wf()
        &&& self.public().wf()
        &&& self.public().coords() == generator_times(self.scalar()@)
        &&& self.public().coords() == multiple_of_generator(self.scalar().value())
    }

    /// Builds the key from a secret key and the 64-byte wide digest of its
    /// bytes; any other digest length is `BadDigestOutput`.
    pub fn new(secret_key: &SecretKey, secret_digest: &[u8]) -> (r: Result<SigningKey, Error>)
        ensures
            r is Err <==> secret_digest@.len() != 64,
            r is Err ==> r == Err::<SigningKey, Error>(Error::BadDigestOutput),
            r matches Ok(k) ==> k.wf() && k.secret()@ == secret_key@ && k.scalar()@
                == secret_scalar(secret_digest@) && k.prefix() == secret_digest@.subrange(32, 64),
    {
        let (x, prefix) = match expand(secret_digest) {
            Ok(e) => e,
            Err(e) => {
                return Err(e);
            },
        };
        let g = generator();
        let point = point_mul(&g, &x);
        assert((1 * x.value()) % scalar_modulus() == x.value()) by {
            vstd::arithmetic::div_mod::lemma_small_mod(x.value(), scalar_modulus());
        }
        Ok(SigningKey { secret_key: *secret_key, x, prefix, public_key: PublicKey { point } })
    }

    /// `new` on the secret key with these bytes.
    pub fn from_bytes(bytes: &[u8; 32], secret_digest: &[u8]) -> (r: Result<SigningKey, Error>)
        ensures
            r is Err <==> secret_digest@.len() != 64,
            r is Err ==> r == Err::<SigningKey, Error>(Error::BadDigestOutput),
            r matches Ok(k) ==> k.wf() && k.secret()@ == bytes@ && k.scalar()@ == secret_scalar(
                secret_digest@,
            ) && k.prefix() == secret_digest@.subrange(32, 64),
    {
        let secret_key = SecretKey::from_bytes(bytes);
        SigningKey::new(&secret_key, secret_digest)
    }

    /// The secret key's bytes.
    pub fn to_bytes(&self) -> (r: [u8; 32])
        ensures
            r@ == self.secret()@,
    {
        self.secret_key.to_bytes()
    }

    pub fn public_key(&self) -> (r: &PublicKey)
        ensures
            *r == self.public(),
    {
        &self.public_key
    }

    /// What the wide digest hashes to derive the nonce: the prefix, then the
    /// encoding of each message element in order.
    pub fn nonce_input(&self, message: &[BaseElem]) -> (r: Vec<u8>)
        ensures
            r@ == self.prefix() + message_bytes(message@),
    {
        let mut v: Vec<u8> = Vec::new();
        let mut i: usize = 0;
        while i < 32
            invariant
                0 <= i <= 32,
                self.prefix@.len() == 32,
                v@ == self.prefix@.subrange(0, i as int),
            decreases 32 - i,
        {
            v.push(self.prefix[i]);
            i = i + 1;
        }
        assert(self.prefix@.subrange(0, 32) =~= self.prefix@);
        let mut m: usize = 0;
        while m < message.len()
            invariant
                0 <= m <= message@.len(),
                v@ == self.prefix@ + message_bytes(message@.subrange(0, m as int)),
            decreases message@.len() - m,
        {
            let b = message[m].to_bytes();
            let ghost before = v@;
            let mut j: usize = 0;
            while j < 32
                invariant
                    0 <= j <= 32,
                    b@.len() == 32,
                    v@ == before + b@.subrange(0, j as int),
                decreases 32 - j,
            {
                v.push(b[j]);
                j = j + 1;
            }
            proof {
                let s = message@.subrange(0, m + 1);
                assert(s.drop_last() =~= message@.subrange(0, m as int));
                assert(b@.subrange(0, 32) =~= b@);
                assert(v@ =~= self.prefix@ + message_bytes(s));
            }
            m = m + 1;
        }
        assert(message@.subrange(0, message@.len() as int) =~= message@);
        v
    }

    /// Signs `message`, given the wide digest of `nonce_input(message)`:
    /// `R = r·G` for the nonce `r` that the digest reduces to, `k` the
    /// challenge over `R`, the public key and the message, `S = x·k + r`.
    pub fn sign(
        &self,
        poseidon: &PoseidonSpongeConfig,
        message: &[BaseElem],
        nonce_digest: &[u8],
    ) -> (sig: Signature)
        requires
            self.wf(),
            sponge_profile(*poseidon).0 >= 1,
        ensures
            sig.wf(),
            sig.r_point().coords() == generator_times(nonce_scalar(nonce_digest@)),
            sig.s_scalar()@ == signed_scalar(
                self.scalar()@,
                self.public().coords(),
                sponge_profile(*poseidon),
                message@,
                nonce_digest@,
            ),
            sig@ == signature_encoding(
                self.scalar()@,
                self.public().coords(),
                sponge_profile(*poseidon),
                message@,
                nonce_digest@,
            ),
            signed_by(
                self.public().coords(),
                sponge_profile(*poseidon),
                message@,
                sig@,
                self.scalar().value(),
                le_nat(nonce_digest@) % scalar_modulus(),
            ),
    {
        let r = crate::from_digest(nonce_digest);
        let g = generator();
        let sig_r = point_mul(&g, &r);
        let k = challenge(poseidon, sig_r.xy(), self.public_key.point.xy(), message);
        let sig_s = self.x.mul_add(&k, &r);
        let sig = Signature::new(sig_r, sig_s);
        proof {
            sig_r.lemma_coords_len();
            sig.lemma_parts();
            assert((1 * r.value()) % scalar_modulus() == r.value()) by {
                vstd::arithmetic::div_mod::lemma_small_mod(r.value(), scalar_modulus());
            }
        }
        sig
    }

    /// A key shared with `recipient`: the compressed encoding of `x · recipient`.
    pub fn shared_key(&self, recipient: &PublicKey) -> (r: [u8; 32])
        requires
            recipient.wf(),
        ensures
            r@ == ({
                let p = scalar_mul_of(recipient.coords().0, recipient.coords().1, self.scalar()@);
                compressed_encoding(p.0, p.1)
            }),
    {
        let shared = point_mul(&recipient.point, &self.x);
        let data = encode_compressed(&shared);
        proof {
            shared.lemma_coords_len();
        }
        let mut out: [u8; 32] = [0u8; 32];
        let mut i: usize = 0;
        while i < 32
            invariant
                0 <= i <= 32,
                data@.len() == 32,
                forall|j: int| 0 <= j < i ==> out@[j] == data@[j],
            decreases 32 - i,
        {
            out[i] = data[i];
            i = i + 1;
        }
        assert(out@ =~= data@);
        out
    }
}

/// Signing is deterministic: keys built from the same 64-byte digest feed
/// the wide digest the same nonce input for a message and, under one sponge
/// configuration and one nonce digest, sign it to the same bytes.
pub proof fn lemma_sign_deterministic(
    k1: SigningKey,
    k2: SigningKey,
    digest: Seq<u8>,
    c: PoseidonSpongeConfig,
    message: Seq<BaseElem>,
    nonce_digest: Seq<u8>,
)
    requires
        k1.wf(),
        k2.wf(),
        k1.scalar()@ == secret_scalar(digest),
        k2.scalar()@ == secret_scalar(digest),
        k1.prefix() == digest.subrange(32, 64),
        k2.prefix() == digest.subrange(32, 64),
    ensures
        k1.prefix() + message_bytes(message) == k2.prefix() + message_bytes(message),
        signature_encoding(k1.scalar()@, k1.public().coords(), sponge_profile(c), message, nonce_digest)
            == signature_encoding(
            k2.scalar()@,
            k2.public().coords(),
            sponge_profile(c),
            message,
            nonce_digest,
        ),
{
}

/// Round trip: the signature that `sign` returns meets the condition under
/// which `verify` accepts, for the signing key's public key, the same sponge
/// configuration and the same message.
pub proof fn lemma_sign_then_verify(
    key: SigningKey,
    c: PoseidonSpongeConfig,
    message: Seq<BaseElem>,
    nonce_digest: Seq<u8>,
    sig: Signature,
)
    requires
        key.wf(),
        signed_by(
            key.public().coords(),
            sponge_profile(c),
            message,
            sig@,
            key.scalar().value(),
            le_nat(nonce_digest) % scalar_modulus(),
        ),
    ensures
        exists|x: nat, n: nat| signed_by(key.public().coords(), sponge_profile(c), message, sig@, x, n),
{
}

} // verus!
