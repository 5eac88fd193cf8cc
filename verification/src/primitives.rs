//! The cryptographic primitives of the tunnel, taken from `ring`.

use ring::aead::{Aad, LessSafeKey, Nonce, UnboundKey, CHACHA20_POLY1305};
use ring::agreement::{agree_ephemeral, EphemeralPrivateKey, UnparsedPublicKey, X25519};
use ring::error::Unspecified;
use ring::hkdf::{Salt, HKDF_SHA256};
use ring::rand::SystemRandom;
use vstd::prelude::*;

verus! {

/// The opaque failure that `ring` reports.
#[verifier::external_type_specification]
#[verifier::external_body]
pub struct ExUnspecified(ring::error::Unspecified);

/// A private key of `ring` for one key agreement.
#[verifier::external_type_specification]
#[verifier::external_body]
pub struct ExEphemeralPrivateKey(ring::agreement::EphemeralPrivateKey);

/// The 32 bytes that HKDF-SHA256 (RFC 5869) derives from a salt, a secret and an
/// info string.
pub uninterp spec fn hkdf_sha256(salt: Seq<u8>, secret: Seq<u8>, info: Seq<u8>) -> Seq<u8>;

/// ChaCha20-Poly1305 (RFC 8439): the ciphertext of `plaintext` followed by the tag.
pub uninterp spec fn chacha20_poly1305_seal(
    key: Seq<u8>,
    nonce: Seq<u8>,
    aad: Seq<u8>,
    plaintext: Seq<u8>,
) -> Seq<u8>;

/// ChaCha20-Poly1305 (RFC 8439): the plaintext of a ciphertext followed by its tag, or
/// `None` where the tag is not that of the rest.
pub uninterp spec fn chacha20_poly1305_open(
    key: Seq<u8>,
    nonce: Seq<u8>,
    aad: Seq<u8>,
    sealed: Seq<u8>,
) -> Option<Seq<u8>>;

/// The 32 bytes of the X25519 scalar that a private key holds; `None` for a key of another
/// curve.
pub uninterp spec fn x25519_scalar(key: EphemeralPrivateKey) -> Option<Seq<u8>>;

/// X25519 (RFC 7748): the public key that belongs to a scalar of 32 bytes.
pub uninterp spec fn x25519_public_key(scalar: Seq<u8>) -> Seq<u8>;

/// X25519 (RFC 7748): the secret that a scalar of 32 bytes shares with a peer's public key,
/// or `None` where `ring` rejects the peer's key: it does not have 32 bytes, or the secret
/// would be zero.
pub uninterp spec fn x25519_shared_secret(scalar: Seq<u8>, peer: Seq<u8>) -> Option<Seq<u8>>;

/// Calls `ring::hkdf::Salt::extract`, `Prk::expand` and `Okm::fill` with HKDF-SHA256.
///
/// The output has the key length of ChaCha20-Poly1305, 32 bytes, far below the limit of
/// 255 * 32 bytes past which `expand` fails. The info string is the concatenation of its
/// two pieces, which are fed to the HMAC one after the other.
#[verifier::external_body]
pub(crate) fn derive_hkdf_sha256(
    salt: &[u8],
    secret: &[u8],
    context: &[u8],
    direction: &[u8],
) -> (result: Result<[u8; 32], Unspecified>)
    ensures
        match result {
            Ok(key) => key@ == hkdf_sha256(salt@, secret@, context@ + direction@),
            Err(_) => false,
        },
{
    let prk = Salt::new(HKDF_SHA256, salt).extract(secret);
    let info = [context, direction];
    let okm = prk.expand(&info, &CHACHA20_POLY1305)?;
    let mut key = [0u8; 32];
    okm.fill(&mut key)?;
    Ok(key)
}

/// Calls `ring::aead::LessSafeKey::seal_in_place_append_tag` with ChaCha20-Poly1305.
///
/// Sealing fails exactly on plaintexts longer than 2^32 - 1 blocks of 64 bytes. The tag
/// has 16 bytes, and opening what was sealed under the same key, nonce and additional
/// data gives the plaintext back.
#[verifier::external_body]
pub(crate) fn seal_chacha20_poly1305(
    key: &[u8; 32],
    nonce: [u8; 12],
    aad: &[u8],
    plaintext: Vec<u8>,
) -> (result: Result<Vec<u8>, Unspecified>)
    ensures
        result is Ok <==> plaintext@.len() <= 274_877_906_880,
        result matches Ok(sealed) ==> {
            &&& sealed@ == chacha20_poly1305_seal(key@, nonce@, aad@, plaintext@)
            &&& sealed@.len() == plaintext@.len() + 16
            &&& chacha20_poly1305_open(key@, nonce@, aad@, sealed@) == Some(plaintext@)
        },
{
    let key = LessSafeKey::new(UnboundKey::new(&CHACHA20_POLY1305, key)?);
    let nonce = Nonce::assume_unique_for_key(nonce);
    let mut sealed = plaintext;
    key.seal_in_place_append_tag(nonce, Aad::from(aad), &mut sealed)?;
    Ok(sealed)
}

/// Calls `ring::aead::LessSafeKey::open_in_place` with ChaCha20-Poly1305.
///
/// The plaintext is what stands before the 16 bytes of the tag, deciphered. It is given out
/// only where the tag is the one that sealing it computes, so sealing it under the same key,
/// nonce and additional data gives back what was opened.
#[verifier::external_body]
pub(crate) fn open_chacha20_poly1305(
    key: &[u8; 32],
    nonce: [u8; 12],
    aad: &[u8],
    sealed: Vec<u8>,
) -> (result: Result<Vec<u8>, Unspecified>)
    ensures
        match result {
            Ok(plaintext) => {
                &&& chacha20_poly1305_open(key@, nonce@, aad@, sealed@) == Some(plaintext@)
                &&& plaintext@.len() + 16 == sealed@.len()
                &&& chacha20_poly1305_seal(key@, nonce@, aad@, plaintext@) == sealed@
            },
            Err(_) => chacha20_poly1305_open(key@, nonce@, aad@, sealed@) is None,
        },
{
    let key = LessSafeKey::new(UnboundKey::new(&CHACHA20_POLY1305, key)?);
    let nonce = Nonce::assume_unique_for_key(nonce);
    let mut sealed = sealed;
    let plaintext = key.open_in_place(nonce, Aad::from(aad), &mut sealed)?;
    Ok(plaintext.to_vec())
}

/// Calls `ring::agreement::EphemeralPrivateKey::generate` for X25519 with the system's
/// random numbers. Which scalar comes, and whether one comes, is left to chance and to
/// the machine.
#[verifier::external_body]
pub(crate) fn generate_x25519() -> (result: Result<EphemeralPrivateKey, Unspecified>)
    ensures
        result matches Ok(key) ==> x25519_scalar(key) is Some && x25519_scalar(key)->0.len() == 32,
{
    EphemeralPrivateKey::generate(&X25519, &SystemRandom::new())
}

/// Calls `ring::agreement::EphemeralPrivateKey::compute_public_key`.
///
/// For X25519 it succeeds and gives the 32 bytes of the public key.
#[verifier::external_body]
pub(crate) fn compute_x25519_public_key(key: &EphemeralPrivateKey) -> (result: Result<
    Vec<u8>,
    Unspecified,
>)
    requires
        x25519_scalar(*key) is Some,
        x25519_scalar(*key)->0.len() == 32,
    ensures
        match result {
            Ok(public_key) => {
                &&& public_key@ == x25519_public_key(x25519_scalar(*key)->0)
                &&& public_key@.len() == 32
            },
            Err(_) => false,
        },
{
    let public_key = key.compute_public_key()?;
    Ok(public_key.as_ref().to_vec())
}

/// Calls `ring::agreement::agree_ephemeral` for X25519.
///
/// A peer's key that does not have 32 bytes is rejected. The secret has 32 bytes and is not
/// zero. Where the peer's key is the public key of a scalar, the peer comes to the same
/// result from that scalar and this key's public key: that is the Diffie-Hellman property of
/// RFC 7748. Nothing is claimed of which keys of 32 bytes are rejected: `ring` rejects those
/// with which the secret would be zero, points of small order.
#[verifier::external_body]
pub(crate) fn agree_x25519(key: EphemeralPrivateKey, peer: &[u8]) -> (result: Result<
    Vec<u8>,
    Unspecified,
>)
    requires
        x25519_scalar(key) is Some,
        x25519_scalar(key)->0.len() == 32,
    ensures
        match result {
            Ok(secret) => {
                &&& x25519_shared_secret(x25519_scalar(key)->0, peer@) == Some(secret@)
                &&& secret@.len() == 32
                &&& secret@ != Seq::new(32, |i: int| 0u8)
                &&& peer@.len() == 32
            },
            Err(_) => x25519_shared_secret(x25519_scalar(key)->0, peer@) is None,
        },
        forall|scalar: Seq<u8>|
            #![trigger x25519_public_key(scalar)]
            scalar.len() == 32 && peer@ == x25519_public_key(scalar) ==> match result {
                Ok(secret) => x25519_shared_secret(
                    scalar,
                    x25519_public_key(x25519_scalar(key)->0),
                ) == Some(secret@),
                Err(_) => x25519_shared_secret(
                    scalar,
                    x25519_public_key(x25519_scalar(key)->0),
                ) is None,
            },
{
    agree_ephemeral(key, &UnparsedPublicKey::new(&X25519, peer), |secret| secret.to_vec())
}

} // verus!
