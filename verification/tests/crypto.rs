use febft::crypto::hash::{chain_digests, Context, Digest};
use febft::crypto::signature::{KeyPair, PublicKey, Signature};
use febft::error::ErrorKind;

fn hex(s: &str) -> Vec<u8> {
    (0..s.len()).step_by(2).map(|i| u8::from_str_radix(&s[i..i + 2], 16).unwrap()).collect()
}

#[test]
fn digest_of_known_inputs() {
    assert_eq!(
        Digest::of(b"abc").to_vec(),
        hex("ba7816bf8f01cfea414140de5dae2223b00361a396177a9cb410ff61f20015ad")
    );
    assert_eq!(
        Digest::of(b"").to_vec(),
        hex("e3b0c44298fc1c149afbf4c8996fb92427ae41e4649b934ca495991b7852b855")
    );
}

#[test]
fn digest_from_bytes_takes_the_first_32_bytes() {
    let raw: Vec<u8> = (0u8..40).collect();
    let d = Digest::from_bytes(&raw).unwrap();
    assert_eq!(d.to_vec(), raw[..32].to_vec());
}

#[test]
fn digest_from_too_few_bytes_is_refused() {
    let e = Digest::from_bytes(&[0u8; 31]).unwrap_err();
    assert_eq!(e.get_kind(), ErrorKind::CryptoHash);
}

#[test]
fn digests_compare_by_their_bytes() {
    assert!(Digest([7u8; 32]) == Digest([7u8; 32]));
    assert!(Digest([7u8; 32]) != Digest([8u8; 32]));
    assert!(Digest::zero() == Digest([0u8; 32]));
}

#[test]
fn context_hashes_what_it_was_fed() {
    let mut ctx = Context::new();
    ctx.update(b"a");
    ctx.update(b"bc");
    assert!(ctx.finish() == Digest::of(b"abc"));
}

#[test]
fn hash_chain_is_the_digest_of_the_concatenation() {
    let a = Digest([1u8; 32]);
    let b = Digest([2u8; 32]);
    let mut bytes = vec![1u8; 32];
    bytes.extend_from_slice(&[2u8; 32]);
    assert!(chain_digests(&vec![a, b]) == Digest::of(&bytes));
    assert!(chain_digests(&vec![]) == Digest::of(b""));
    assert!(chain_digests(&vec![a, b]) != chain_digests(&vec![b, a]));
}

#[test]
fn signature_from_bytes_needs_64_bytes() {
    let raw: Vec<u8> = (0u8..80).collect();
    let s = Signature::from_bytes(&raw).unwrap();
    assert_eq!(s.0.to_vec(), raw[..64].to_vec());
    let e = Signature::from_bytes(&raw[..63]).err().unwrap();
    assert_eq!(e.get_kind(), ErrorKind::CryptoSignatureRingEd25519);
}

#[test]
fn zero_signature_is_recognised() {
    assert!(Signature::zero().is_zero());
    let mut raw = [0u8; 64];
    raw[63] = 1;
    assert!(!Signature(raw).is_zero());
}

#[test]
fn key_pair_needs_a_seed_of_32_bytes() {
    assert!(KeyPair::from_bytes(&[1u8; 32]).is_ok());
    let e = KeyPair::from_bytes(&[1u8; 31]).err().unwrap();
    assert_eq!(e.get_kind(), ErrorKind::CryptoSignatureRingEd25519);
    assert!(KeyPair::from_bytes(&[1u8; 33]).is_err());
}

#[test]
fn key_pair_of_a_known_seed() {
    let seed = hex("9d61b19deffd5a60ba844af492ec2cc44449c5697b326919703bac031cae7f60");
    let pair = KeyPair::from_bytes(&seed).unwrap();
    assert_eq!(
        pair.public_key().0.to_vec(),
        hex("d75a980182b10ab7d54bfed3c964073a0ee172f3daa62325af021a68f707511a")
    );
    let signature = pair.sign(b"").unwrap();
    assert_eq!(
        signature.0.to_vec(),
        hex("e5564300c360ac729086e2cc806e828a84877f1eb8e5d974d873e065224901555fb8821590a33bacc61e39701cf9b46bd25bf5f0595bbe24655141438e7a100b")
    );
}

#[test]
fn a_signature_verifies_under_its_key_only() {
    let pair = KeyPair::from_bytes(&[3u8; 32]).unwrap();
    let other = KeyPair::from_bytes(&[4u8; 32]).unwrap();
    let signature = pair.sign(b"message").unwrap();
    assert!(pair.verify(b"message", &signature).is_ok());
    assert!(pair.public_key().verify(b"message", &signature).is_ok());
    let e = pair.verify(b"another", &signature).unwrap_err();
    assert_eq!(e.get_kind(), ErrorKind::CryptoSignatureRingEd25519);
    assert!(other.verify(b"message", &signature).is_err());
    assert!(pair.verify(b"message", &Signature::zero()).is_err());
}

#[test]
fn public_key_needs_exactly_32_bytes() {
    assert!(PublicKey::from_bytes(&[0u8; 32]).is_ok());
    assert!(PublicKey::from_bytes(&[0u8; 31]).is_err());
    assert!(PublicKey::from_bytes(&[0u8; 33]).is_err());
}

#[test]
fn an_error_keeps_its_kind_and_its_description() {
    let e = febft::error::Error::simple_with_msg(ErrorKind::Communication, "Invalid node ID");
    assert_eq!(e.get_kind(), ErrorKind::Communication);
    assert_eq!(e.message(), "Invalid node ID");
    assert_eq!(febft::error::Error::simple(ErrorKind::Executable).message(), "");
}
