//! The cryptographic building blocks: base64, Ed25519, X25519, HKDF-SHA256 and ChaCha20-Poly1305.
//!
//! Most functions here hand bytes to one function of an outside crate. What those functions compute
//! is left to the crates; their results carry names, and beside the names stand the few facts that
//! the chat depends on.

use base64::engine::general_purpose::STANDARD as B64;
use base64::Engine;
use chacha20poly1305::aead::Aead;
use chacha20poly1305::{AeadCore, ChaCha20Poly1305, KeyInit};
use ed25519_dalek::{Signer, Verifier};
use rand::rngs::OsRng;
use vstd::prelude::*;

verus! {

/// Why a text is not base64.
#[verifier::external_type_specification]
#[verifier::external_body]
pub struct ExDecodeError(base64::DecodeError);

/// A key derivation was asked for too many bytes.
#[verifier::external_type_specification]
#[verifier::external_body]
pub struct ExInvalidLength(hkdf::InvalidLength);

/// A ciphertext that its key does not open.
#[verifier::external_type_specification]
#[verifier::external_body]
pub struct ExAeadError(chacha20poly1305::Error);

/// A public key that is no curve point, or a signature that does not fit its message.
#[verifier::external_type_specification]
#[verifier::external_body]
pub struct ExSignatureError(ed25519_dalek::SignatureError);

/// The base64 text of some bytes, in the standard alphabet and padded.
pub uninterp spec fn b64_text(data: Seq<u8>) -> Seq<char>;

/// The bytes that a padded base64 text stands for, if it is one.
pub uninterp spec fn b64_bytes(text: Seq<char>) -> Option<Seq<u8>>;

/// Whether `c` occurs in base64 text.
pub open spec fn is_b64_char(c: char) -> bool {
    'a' <= c <= 'z' || 'A' <= c <= 'Z' || '0' <= c <= '9' || c == '+' || c == '/' || c == '='
}

/// Whether the base64 text of `n` bytes fits in memory.
pub open spec fn b64_fits(n: nat) -> bool {
    4 * ((n + 2) / 3) <= isize::MAX
}

/// `Engine::encode` of the standard base64 engine: four characters of the alphabet for every three
/// bytes begun, and decoding them gives the bytes back. It panics where the text is longer than
/// memory can hold.
#[verifier::external_body]
pub(crate) fn b64_encode(data: &[u8]) -> (r: String)
    requires
        b64_fits(data@.len()),
    ensures
        r@ == b64_text(data@),
        b64_bytes(r@) == Some(data@),
        r@.len() == 4 * ((data@.len() + 2) / 3),
        forall|i: int| 0 <= i < r@.len() ==> is_b64_char(#[trigger] r@[i]),
{
    B64.encode(data)
}

/// `Engine::decode` of the standard base64 engine: the bytes of the text, or an error where it is
/// not base64.
#[verifier::external_body]
pub(crate) fn b64_decode(text: &str) -> (r: Result<Vec<u8>, base64::DecodeError>)
    ensures
        match r {
            Ok(v) => b64_bytes(text@) == Some(v@),
            Err(_) => b64_bytes(text@) is None,
        },
{
    B64.decode(text)
}

/// The Ed25519 public key of a seed.
pub uninterp spec fn ed25519_public(seed: Seq<u8>) -> Seq<u8>;

/// The Ed25519 signature that a seed makes of a message.
pub uninterp spec fn ed25519_signature(seed: Seq<u8>, message: Seq<u8>) -> Seq<u8>;

/// Whether some bytes are an Ed25519 public key.
pub uninterp spec fn ed25519_is_key(key: Seq<u8>) -> bool;

/// Whether a signature is one of the message under the public key.
pub uninterp spec fn ed25519_verifies(
    key: Seq<u8>,
    message: Seq<u8>,
    signature: Seq<u8>,
) -> bool;

/// An Ed25519 keypair. The memory of its seed is overwritten when it is dropped.
#[verifier::external_type_specification]
#[verifier::external_body]
pub struct ExSigningKey(ed25519_dalek::SigningKey);

/// The seed that an Ed25519 keypair holds.
pub uninterp spec fn ed25519_held(key: ed25519_dalek::SigningKey) -> Seq<u8>;

/// `SigningKey::generate` with the operating system's generator: the keypair of a fresh seed of 32
/// bytes. Which one is chance.
#[verifier::external_body]
pub(crate) fn ed25519_generate() -> (r: ed25519_dalek::SigningKey)
    ensures
        ed25519_held(r).len() == 32,
{
    ed25519_dalek::SigningKey::generate(&mut OsRng)
}

/// `SigningKey::from_bytes`: the keypair of this seed.
#[verifier::external_body]
pub(crate) fn ed25519_keypair(seed: &[u8; 32]) -> (r: ed25519_dalek::SigningKey)
    ensures
        ed25519_held(r) == seed@,
{
    ed25519_dalek::SigningKey::from_bytes(seed)
}

/// `SigningKey::to_bytes`: the seed of the keypair.
#[verifier::external_body]
pub(crate) fn ed25519_seed(key: &ed25519_dalek::SigningKey) -> (r: [u8; 32])
    ensures
        r@ == ed25519_held(*key),
{
    key.to_bytes()
}

/// `SigningKey::verifying_key`: the public key of the keypair, which is a public key.
#[verifier::external_body]
pub(crate) fn ed25519_public_key(key: &ed25519_dalek::SigningKey) -> (r: [u8; 32])
    ensures
        r@ == ed25519_public(ed25519_held(*key)),
        ed25519_is_key(r@),
{
    key.verifying_key().to_bytes()
}

/// `SigningKey::sign`: the signature of the message, which verifies under the keypair's public key.
#[verifier::external_body]
pub(crate) fn ed25519_sign(key: &ed25519_dalek::SigningKey, message: &[u8]) -> (r: [u8; 64])
    ensures
        r@ == ed25519_signature(ed25519_held(*key), message@),
        ed25519_verifies(ed25519_public(ed25519_held(*key)), message@, r@),
{
    key.sign(message).to_bytes()
}

/// `VerifyingKey::from_bytes`: succeeds on the bytes that are a public key.
#[verifier::external_body]
pub(crate) fn ed25519_check_key(key: &[u8; 32]) -> (r: Result<(), ed25519_dalek::SignatureError>)
    ensures
        r is Ok <==> ed25519_is_key(key@),
{
    ed25519_dalek::VerifyingKey::from_bytes(key).map(|_| ())
}

/// `VerifyingKey::verify`: succeeds where the signature is one of the message under the key.
#[verifier::external_body]
pub(crate) fn ed25519_verify(key: &[u8; 32], message: &[u8], signature: &[u8; 64]) -> (r: Result<
    (),
    ed25519_dalek::SignatureError,
>)
    requires
        ed25519_is_key(key@),
    ensures
        r is Ok <==> ed25519_verifies(key@, message@, signature@),
{
    ed25519_dalek::VerifyingKey::from_bytes(key)?.verify(
        message,
        &ed25519_dalek::Signature::from_bytes(signature),
    )
}

/// The X25519 public key of a secret.
pub uninterp spec fn x25519_public(secret: Seq<u8>) -> Seq<u8>;

/// The X25519 shared secret of a secret and a peer's public key.
pub uninterp spec fn x25519_shared(secret: Seq<u8>, peer: Seq<u8>) -> Seq<u8>;

/// An X25519 secret. Its memory is overwritten when it is dropped.
#[verifier::external_type_specification]
#[verifier::external_body]
pub struct ExStaticSecret(x25519_dalek::StaticSecret);

/// The bytes that an X25519 secret holds.
pub uninterp spec fn x25519_held(secret: x25519_dalek::StaticSecret) -> Seq<u8>;

/// `StaticSecret::random_from_rng` with the operating system's generator: a fresh secret of 32
/// bytes. Which one is chance.
#[verifier::external_body]
pub(crate) fn x25519_generate() -> (r: x25519_dalek::StaticSecret)
    ensures
        x25519_held(r).len() == 32,
{
    x25519_dalek::StaticSecret::random_from_rng(OsRng)
}

/// `StaticSecret::from`: the secret that holds these bytes.
#[verifier::external_body]
pub(crate) fn x25519_secret(bytes: [u8; 32]) -> (r: x25519_dalek::StaticSecret)
    ensures
        x25519_held(r) == bytes@,
{
    x25519_dalek::StaticSecret::from(bytes)
}

/// `PublicKey::from` a secret: its public key.
#[verifier::external_body]
pub(crate) fn x25519_public_key(secret: &x25519_dalek::StaticSecret) -> (r: [u8; 32])
    ensures
        r@ == x25519_public(x25519_held(*secret)),
{
    x25519_dalek::PublicKey::from(secret).to_bytes()
}

/// What two sides of an X25519 exchange share. Its memory is overwritten when it is dropped.
#[verifier::external_type_specification]
#[verifier::external_body]
pub struct ExSharedSecret(x25519_dalek::SharedSecret);

/// The bytes that a shared secret holds.
pub uninterp spec fn x25519_agreed(shared: x25519_dalek::SharedSecret) -> Seq<u8>;

/// `StaticSecret::diffie_hellman`: the shared secret. Where the peer's key is the public key of
/// another secret, that secret and this one's public key give the same.
#[verifier::external_body]
pub(crate) fn x25519_agree(secret: &x25519_dalek::StaticSecret, peer: &[u8; 32]) -> (r:
    x25519_dalek::SharedSecret)
    ensures
        x25519_agreed(r) == x25519_shared(x25519_held(*secret), peer@),
        forall|other: Seq<u8>|
            other.len() == 32 && peer@ == #[trigger] x25519_public(other) ==> x25519_agreed(r)
                == x25519_shared(other, x25519_public(x25519_held(*secret))),
{
    secret.diffie_hellman(&x25519_dalek::PublicKey::from(*peer))
}

/// `SharedSecret::as_bytes`: the bytes of the shared secret.
#[verifier::external_body]
pub(crate) fn x25519_bytes(shared: &x25519_dalek::SharedSecret) -> (r: &[u8; 32])
    ensures
        r@ == x25519_agreed(*shared),
{
    shared.as_bytes()
}

/// HKDF-SHA256 without salt: `len` bytes drawn from the key material for the purpose `info`.
pub uninterp spec fn hkdf_sha256(material: Seq<u8>, info: Seq<u8>, len: nat) -> Seq<u8>;

/// `Hkdf::<Sha256>::new` without salt, then `expand` to `len` bytes; it gives at most 255 blocks of
/// 32 bytes.
#[verifier::external_body]
pub(crate) fn hkdf_expand(material: &[u8], info: &[u8], len: usize) -> (r: Result<
    Vec<u8>,
    hkdf::InvalidLength,
>)
    ensures
        match r {
            Ok(v) => len <= 8160 && v@ == hkdf_sha256(material@, info@, len as nat) && v@.len()
                == len,
            Err(_) => len > 8160,
        },
{
    let mut okm = vec![0u8; len];
    hkdf::Hkdf::<sha2::Sha256>::new(None, material).expand(info, &mut okm)?;
    Ok(okm)
}

/// The ChaCha20-Poly1305 ciphertext, tag included, of a plaintext under a key and a nonce.
pub uninterp spec fn aead_sealed(key: Seq<u8>, nonce: Seq<u8>, plaintext: Seq<u8>) -> Seq<u8>;

/// The plaintext that a key and a nonce find in a ciphertext, if its tag fits.
pub uninterp spec fn aead_opened(key: Seq<u8>, nonce: Seq<u8>, ciphertext: Seq<u8>) -> Option<
    Seq<u8>,
>;

/// The longest plaintext for which the cipher's block counter suffices.
pub const MAX_PLAINTEXT: u64 = 274_877_906_816;

/// `ChaCha20Poly1305::generate_nonce` with the operating system's generator: a fresh nonce. Which
/// one is chance.
#[verifier::external_body]
pub(crate) fn aead_nonce() -> (r: [u8; 12]) {
    ChaCha20Poly1305::generate_nonce(&mut OsRng).into()
}

/// `ChaCha20Poly1305::encrypt`: the plaintext sealed with a tag of sixteen bytes, which the same
/// key and nonce open again. It fails, or panics, only on plaintexts past the block counter.
#[verifier::external_body]
pub(crate) fn aead_encrypt(key: &[u8], nonce: &[u8], plaintext: &[u8]) -> (r: Result<
    Vec<u8>,
    chacha20poly1305::Error,
>)
    requires
        key@.len() == 32,
        nonce@.len() == 12,
        plaintext@.len() <= MAX_PLAINTEXT,
        plaintext@.len() + 16 <= isize::MAX,
    ensures
        r is Ok,
        r->Ok_0@ == aead_sealed(key@, nonce@, plaintext@),
        r->Ok_0@.len() == plaintext@.len() + 16,
        aead_opened(key@, nonce@, r->Ok_0@) == Some(plaintext@),
{
    ChaCha20Poly1305::new(chacha20poly1305::Key::from_slice(key)).encrypt(
        chacha20poly1305::Nonce::from_slice(nonce),
        plaintext,
    )
}

/// `ChaCha20Poly1305::decrypt`: the plaintext where the tag fits key, nonce and ciphertext, else an
/// error.
#[verifier::external_body]
pub(crate) fn aead_decrypt(key: &[u8], nonce: &[u8], ciphertext: &[u8]) -> (r: Result<
    Vec<u8>,
    chacha20poly1305::Error,
>)
    requires
        key@.len() == 32,
        nonce@.len() == 12,
        ciphertext@.len() <= MAX_PLAINTEXT + 16,
    ensures
        match r {
            Ok(v) => aead_opened(key@, nonce@, ciphertext@) == Some(v@),
            Err(_) => aead_opened(key@, nonce@, ciphertext@) is None,
        },
{
    ChaCha20Poly1305::new(chacha20poly1305::Key::from_slice(key)).decrypt(
        chacha20poly1305::Nonce::from_slice(nonce),
        ciphertext,
    )
}

/// Bytes that were decoded, if they are `n`; else what to say when there are none, or another number.
pub open spec fn exactly(bytes: Option<Seq<u8>>, n: nat, bad: Seq<char>, wrong: Seq<char>) -> Result<
    Seq<u8>,
    Seq<char>,
> {
    match bytes {
        None => Err(bad),
        Some(b) => if b.len() == n {
            Ok(b)
        } else {
            Err(wrong)
        },
    }
}

/// The view of bytes that may not be there.
pub open spec fn bytes_of(bytes: Option<Vec<u8>>) -> Option<Seq<u8>> {
    match bytes {
        Some(b) => Some(b@),
        None => None,
    }
}

/// The bytes that a padded base64 text stands for, if it is one.
pub fn decoded(text: &str) -> (r: Option<Vec<u8>>)
    ensures
        bytes_of(r) == b64_bytes(text@),
{
    match b64_decode(text) {
        Ok(v) => Some(v),
        Err(_) => None,
    }
}

/// Takes decoded bytes if they are 32.
pub fn exactly_32(bytes: Option<Vec<u8>>, bad: &str, wrong: &str) -> (r: Result<[u8; 32], String>)
    ensures
        match r {
            Ok(a) => exactly(bytes_of(bytes), 32, bad@, wrong@) == Ok::<Seq<u8>, Seq<char>>(a@),
            Err(e) => exactly(bytes_of(bytes), 32, bad@, wrong@) == Err::<Seq<u8>, Seq<char>>(e@),
        },
{
    match bytes {
        None => Err(bad.to_owned()),
        Some(b) => {
            if b.len() == 32 {
                Ok(array_32(&b))
            } else {
                Err(wrong.to_owned())
            }
        },
    }
}

/// Takes decoded bytes if they are 64.
pub fn exactly_64(bytes: Option<Vec<u8>>, bad: &str, wrong: &str) -> (r: Result<[u8; 64], String>)
    ensures
        match r {
            Ok(a) => exactly(bytes_of(bytes), 64, bad@, wrong@) == Ok::<Seq<u8>, Seq<char>>(a@),
            Err(e) => exactly(bytes_of(bytes), 64, bad@, wrong@) == Err::<Seq<u8>, Seq<char>>(e@),
        },
{
    match bytes {
        None => Err(bad.to_owned()),
        Some(b) => {
            if b.len() == 64 {
                Ok(array_64(&b))
            } else {
                Err(wrong.to_owned())
            }
        },
    }
}

/// Thirty-two bytes as an array.
fn array_32(v: &Vec<u8>) -> (r: [u8; 32])
    requires
        v@.len() == 32,
    ensures
        r@ == v@,
{
    let mut a: [u8; 32] = [0u8; 32];
    for i in 0..32
        invariant
            v@.len() == 32,
            forall|j: int| 0 <= j < i ==> a@[j] == v@[j],
    {
        a[i] = v[i];
    }
    assert(a@ =~= v@);
    a
}

/// Sixty-four bytes as an array.
fn array_64(v: &Vec<u8>) -> (r: [u8; 64])
    requires
        v@.len() == 64,
    ensures
        r@ == v@,
{
    let mut a: [u8; 64] = [0u8; 64];
    for i in 0..64
        invariant
            v@.len() == 64,
            forall|j: int| 0 <= j < i ==> a@[j] == v@[j],
    {
        a[i] = v[i];
    }
    assert(a@ =~= v@);
    a
}

/// Bytes that were decoded are taken exactly if they are as many as asked for; else it is told whether
/// there are none or another number.
pub proof fn law_bytes_are_taken_by_their_number(
    bytes: Option<Seq<u8>>,
    n: nat,
    bad: Seq<char>,
    wrong: Seq<char>,
)
    ensures
        bytes is None ==> exactly(bytes, n, bad, wrong) == Err::<Seq<u8>, Seq<char>>(bad),
        bytes matches Some(b) ==> b.len() == n ==> exactly(bytes, n, bad, wrong) == Ok::<
            Seq<u8>,
            Seq<char>,
        >(b),
        bytes matches Some(b) ==> b.len() != n ==> exactly(bytes, n, bad, wrong) == Err::<
            Seq<u8>,
            Seq<char>,
        >(wrong),
{
}

} // verus!
