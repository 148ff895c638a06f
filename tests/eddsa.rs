use ark_crypto_primitives::sponge::poseidon::{find_poseidon_ark_and_mds, PoseidonConfig, PoseidonSponge};
use ark_crypto_primitives::sponge::CryptographicSponge;
use ark_ec::{AffineRepr, CurveGroup};
use ark_ed_on_bn254::{EdwardsAffine, Fq, Fr};
use ark_ff::{BigInteger, PrimeField};
use ark_serialize::CanonicalSerialize;
use digest::Digest;
use poseidon_eddsa::ed_on_bn254_twist::EdwardsConfig;
use poseidon_eddsa::field::{BaseElem, ScalarElem};
use poseidon_eddsa::signature::Signature;
use poseidon_eddsa::{poseidon_config, Error, PoseidonSpongeConfig, PublicKey, SecretKey, SigningKey};
use rand_core::{OsRng, RngCore};

const MESSAGE: &[u8] = b"xxx yyy <<< zzz >>> bunny";

fn key_with<D: Digest>(secret: [u8; 32]) -> SigningKey {
    let digest = D::digest(secret);
    SigningKey::from_bytes(&secret, &digest).unwrap()
}

fn sign_with<D: Digest>(key: &SigningKey, config: &PoseidonSpongeConfig, message: &[BaseElem]) -> Signature {
    let nonce = D::digest(key.nonce_input(message));
    key.sign(config, message, &nonce)
}

fn message() -> Vec<BaseElem> {
    vec![BaseElem::from_le_bytes_mod_order(MESSAGE)]
}

fn run_test<D: Digest>() {
    let poseidon = poseidon_config(4, 8, 55);
    let mut secret = [0u8; 32];
    OsRng.fill_bytes(&mut secret);
    let signing_key = key_with::<D>(secret);
    let message = message();
    let signature = sign_with::<D>(&signing_key, &poseidon, &message);
    let public_key = signing_key.public_key();
    public_key.verify(&poseidon, &message, &signature).unwrap();
}

#[test]
fn test_eddsa() {
    run_test::<sha2::Sha512>();
    run_test::<blake2::Blake2b512>();
}

#[test]
fn round_trip_signing_on_fixed_keys() {
    let poseidon = poseidon_config(4, 8, 55);
    for seed in [[0u8; 32], [1u8; 32], [0xffu8; 32]] {
        let key = key_with::<sha2::Sha512>(seed);
        let msg = vec![BaseElem::from_u64(7), BaseElem::from_u64(11), BaseElem::from_u64(13)];
        let sig = sign_with::<sha2::Sha512>(&key, &poseidon, &msg);
        assert_eq!(key.public_key().verify(&poseidon, &msg, &sig), Ok(()));
        let empty: Vec<BaseElem> = Vec::new();
        let sig = sign_with::<sha2::Sha512>(&key, &poseidon, &empty);
        assert_eq!(key.public_key().verify(&poseidon, &empty, &sig), Ok(()));
    }
}

#[test]
fn signing_is_deterministic() {
    let poseidon = poseidon_config(4, 8, 55);
    let a = key_with::<sha2::Sha512>([3u8; 32]);
    let b = key_with::<sha2::Sha512>([3u8; 32]);
    let msg = message();
    let s1 = sign_with::<sha2::Sha512>(&a, &poseidon, &msg);
    let s2 = sign_with::<sha2::Sha512>(&b, &poseidon, &msg);
    assert_eq!(s1.to_bytes(), s2.to_bytes());
    assert!(s1 == s2);
    let other = vec![BaseElem::from_u64(1)];
    let s3 = sign_with::<sha2::Sha512>(&a, &poseidon, &other);
    assert_ne!(s1.to_bytes(), s3.to_bytes());
}

#[test]
fn tampered_signature_or_message_fails() {
    let poseidon = poseidon_config(4, 8, 55);
    let key = key_with::<blake2::Blake2b512>([9u8; 32]);
    let msg = message();
    let sig = sign_with::<blake2::Blake2b512>(&key, &poseidon, &msg);
    let bytes = sig.to_bytes();
    for bit in [0usize, 1, 7, 100, 255, 256, 300, 511, 512, 513, 600, 700] {
        let mut t = bytes.clone();
        t[bit / 8] ^= 1 << (bit % 8);
        match Signature::from_bytes(&t) {
            Ok(bad) => assert_eq!(key.public_key().verify(&poseidon, &msg, &bad), Err(Error::Verify)),
            Err(e) => assert_eq!(e, Error::InvalidData),
        }
    }
    let mut raw = MESSAGE.to_vec();
    raw[0] ^= 1;
    let altered = vec![BaseElem::from_le_bytes_mod_order(&raw)];
    assert_eq!(key.public_key().verify(&poseidon, &altered, &sig), Err(Error::Verify));
}

#[test]
fn signature_codec_round_trip() {
    let poseidon = poseidon_config(4, 8, 55);
    let key = key_with::<sha2::Sha512>([5u8; 32]);
    let sig = sign_with::<sha2::Sha512>(&key, &poseidon, &message());
    let bytes = sig.to_bytes();
    assert_eq!(bytes.len(), 96);
    let back = Signature::from_bytes(&bytes).unwrap();
    assert!(back == sig);
    assert_eq!(back.to_bytes(), bytes);
    assert_eq!(Signature::from_bytes(&bytes[..95]).unwrap_err(), Error::InvalidData);
    let mut longer = bytes.clone();
    longer.push(0);
    assert_eq!(Signature::from_bytes(&longer).unwrap_err(), Error::InvalidData);
    assert_eq!(Signature::from_bytes(&[]).unwrap_err(), Error::InvalidData);
    let mut big_s = bytes.clone();
    for b in big_s[64..].iter_mut() {
        *b = 0xff;
    }
    assert_eq!(Signature::from_bytes(&big_s).unwrap_err(), Error::InvalidData);
}

#[test]
fn other_sponge_configuration_fails() {
    let a = poseidon_config(4, 8, 55);
    let b = poseidon_config(4, 8, 56);
    let key = key_with::<sha2::Sha512>([2u8; 32]);
    let msg = message();
    let sig = sign_with::<sha2::Sha512>(&key, &a, &msg);
    assert_eq!(key.public_key().verify(&a, &msg, &sig), Ok(()));
    assert_eq!(key.public_key().verify(&b, &msg, &sig), Err(Error::Verify));
}

#[test]
fn short_digest_is_rejected() {
    let secret = SecretKey::from_bytes(&[4u8; 32]);
    let short = sha2::Sha256::digest([4u8; 32]);
    assert_eq!(SigningKey::new(&secret, &short).unwrap_err(), Error::BadDigestOutput);
    assert_eq!(SigningKey::from_bytes(&[4u8; 32], &[0u8; 65]).unwrap_err(), Error::BadDigestOutput);
    assert_eq!(Error::BadDigestOutput.message(), "Bad digest output size");
    assert_eq!(Error::Verify.message(), "Signature verification failed");
}

#[test]
fn key_bytes_round_trip() {
    let secret = SecretKey::from_bytes(&[8u8; 32]);
    assert_eq!(secret.to_bytes(), [8u8; 32]);
    let key = key_with::<sha2::Sha512>([8u8; 32]);
    assert_eq!(key.to_bytes(), [8u8; 32]);
    let pk_bytes = key.public_key().to_bytes();
    assert_eq!(pk_bytes.len(), 32);
    let pk = PublicKey::from_bytes(&pk_bytes).unwrap();
    assert_eq!(pk.to_bytes(), pk_bytes);
    assert_eq!(pk.xy().0, key.public_key().xy().0);
    assert_eq!(PublicKey::from_bytes(&pk_bytes[..31]).unwrap_err(), Error::InvalidData);
}

#[test]
fn shared_keys_agree() {
    let a = key_with::<sha2::Sha512>([10u8; 32]);
    let b = key_with::<sha2::Sha512>([11u8; 32]);
    assert_eq!(a.shared_key(b.public_key()), b.shared_key(a.public_key()));
    assert_ne!(a.shared_key(b.public_key()), a.shared_key(a.public_key()));
}

#[test]
fn nonce_input_is_prefix_then_elements() {
    let key = key_with::<sha2::Sha512>([6u8; 32]);
    let digest = sha2::Sha512::digest([6u8; 32]);
    let msg = vec![BaseElem::from_u64(258), BaseElem::from_u64(1)];
    let input = key.nonce_input(&msg);
    assert_eq!(input.len(), 96);
    assert_eq!(&input[..32], &digest[32..]);
    assert_eq!(&input[32..35], &[2u8, 1, 0]);
    assert_eq!(input[64], 1);
}

fn ark_bytes(e: Fq) -> [u8; 32] {
    e.into_bigint().to_bytes_le().try_into().unwrap()
}

#[test]
fn signature_matches_arkworks_computation() {
    let secret = [12u8; 32];
    let hash = sha2::Sha512::digest(secret);
    let mut buffer: [u8; 32] = hash[..32].try_into().unwrap();
    buffer[0] &= 0b1111_1000;
    buffer[31] &= 0b0111_1111;
    buffer[31] |= 0b0100_0000;
    let x = Fr::from_le_bytes_mod_order(&buffer);
    let pk: EdwardsAffine = (EdwardsAffine::generator() * x).into_affine();
    let m = Fq::from_le_bytes_mod_order(MESSAGE);
    let mut h = sha2::Sha512::new();
    h.update(&hash[32..]);
    let mut mb = Vec::new();
    m.serialize_compressed(&mut mb).unwrap();
    h.update(&mb);
    let r = Fr::from_le_bytes_mod_order(&h.finalize());
    let big_r: EdwardsAffine = (EdwardsAffine::generator() * r).into_affine();
    let (ark, mds) = find_poseidon_ark_and_mds::<Fq>(254, 4, 8, 55, 0);
    let cfg = PoseidonConfig::new(8, 55, 5, mds, ark, 4, 1);
    let mut sponge = PoseidonSponge::new(&cfg);
    for e in [big_r.x, big_r.y, pk.x, pk.y, m] {
        sponge.absorb(&e);
    }
    let k = sponge.squeeze_field_elements::<Fr>(1)[0];
    let s = x * k + r;
    let mut expected = Vec::new();
    big_r.serialize_uncompressed(&mut expected).unwrap();
    s.serialize_uncompressed(&mut expected).unwrap();

    let key = key_with::<sha2::Sha512>(secret);
    assert_eq!(key.public_key().xy().0.to_bytes(), ark_bytes(pk.x));
    assert_eq!(key.public_key().xy().1.to_bytes(), ark_bytes(pk.y));
    let sig = sign_with::<sha2::Sha512>(&key, &poseidon_config(4, 8, 55), &message());
    assert_eq!(sig.to_bytes(), expected);
}

#[test]
fn scalar_arithmetic_is_modular() {
    let two = ScalarElem::from_le_bytes_mod_order(&[2]);
    let three = ScalarElem::from_le_bytes_mod_order(&[3]);
    let five = ScalarElem::from_le_bytes_mod_order(&[5]);
    let r = two.mul_add(&three, &five);
    let mut expected = [0u8; 32];
    expected[0] = 11;
    assert_eq!(r.to_bytes(), expected);
    let reduced = ScalarElem::from_le_bytes_mod_order(&[0xffu8; 32]);
    assert_ne!(reduced.to_bytes(), [0xffu8; 32]);
    assert!(ScalarElem::from_bytes(&[0xffu8; 32]).is_none());
    assert!(ScalarElem::from_bytes(&expected).is_some());
    assert!(ScalarElem::from_bytes(&expected[..31]).is_none());
}

#[test]
fn twist_parameters() {
    let x = BaseElem::from_u64(2);
    let ax = EdwardsConfig::mul_by_a(&x);
    assert_eq!(ax, BaseElem::from_u64(337400));
    let gx = BaseElem::from_le_bytes_mod_order(&decimal_le(
        "5299619240641551281634865583518297030282874472190772894086521144482721001553",
    ));
    let gy = BaseElem::from_le_bytes_mod_order(&decimal_le(
        "16950150798460657717958625567821834550301663161624707787222815936182638968203",
    ));
    assert!(EdwardsConfig::is_on_curve(&gx, &gy));
    assert!(!EdwardsConfig::is_on_curve(&gx, &BaseElem::from_u64(1)));
    assert!(EdwardsConfig::is_on_curve(&BaseElem::from_u64(0), &BaseElem::from_u64(1)));
}

fn decimal_le(s: &str) -> Vec<u8> {
    let mut out = vec![0u8; 32];
    for c in s.bytes() {
        let mut carry = (c - b'0') as u32;
        for b in out.iter_mut() {
            let v = (*b as u32) * 10 + carry;
            *b = (v & 0xff) as u8;
            carry = v >> 8;
        }
    }
    out
}

#[test]
fn zero_rate_configuration_is_generated() {
    let c = poseidon_config(0, 8, 55);
    assert_eq!(c.rate(), 0);
    assert_eq!(poseidon_config(4, 8, 55).rate(), 4);
}

#[test]
fn changed_scalar_is_rejected() {
    let poseidon = poseidon_config(4, 8, 55);
    let key = key_with::<sha2::Sha512>([13u8; 32]);
    let msg = message();
    let sig = sign_with::<sha2::Sha512>(&key, &poseidon, &msg);
    let mut s = sig.s().to_bytes();
    s[0] ^= 1;
    let other = ScalarElem::from_bytes(&s).unwrap();
    let forged = Signature::new(*sig.r(), other);
    assert_eq!(key.public_key().verify(&poseidon, &msg, &forged), Err(Error::Verify));
    let same = Signature::new(*sig.r(), *sig.s());
    assert_eq!(key.public_key().verify(&poseidon, &msg, &same), Ok(()));
}
