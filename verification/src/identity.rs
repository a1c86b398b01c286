//! The local user's long-term identity.

use crate::primitives;
use vstd::prelude::*;

verus! {

/// Serialisable form of an identity keypair as it is kept on disk.
pub struct StoredIdentity {
    pub username: String,
    /// Ed25519 signing key bytes.
    pub signing_key_b64: String,
    /// Ed25519 verifying (public) key bytes.
    pub verifying_key_b64: String,
}

/// What an identity holds: the name and the seed of the keypair.
#[verifier::ext_equal]
pub struct IdentityView {
    pub username: Seq<char>,
    pub seed: Seq<u8>,
}

/// Holds the local user's long-term Ed25519 keypair.
pub struct Identity {
    username: String,
    signing_key: ed25519_dalek::SigningKey,
    verifying_key: [u8; 32],
}

/// The identity that a stored signing key gives, or why it gives none.
pub open spec fn loaded(username: Seq<char>, signing_key_b64: Seq<char>) -> Result<
    IdentityView,
    Seq<char>,
> {
    match primitives::exactly(
        primitives::b64_bytes(signing_key_b64),
        32,
        "Bad signing key encoding"@,
        "Signing key wrong length"@,
    ) {
        Ok(seed) => Ok(IdentityView { username, seed }),
        Err(e) => Err(e),
    }
}

/// The public key that a base64 text stands for, or why it stands for none.
pub open spec fn parsed_key(b64: Seq<char>) -> Result<Seq<u8>, Seq<char>> {
    match primitives::exactly(
        primitives::b64_bytes(b64),
        32,
        "Bad base64 for verifying key"@,
        "Verifying key wrong length"@,
    ) {
        Ok(key) => if primitives::ed25519_is_key(key) {
            Ok(key)
        } else {
            Err("Invalid Ed25519 verifying key"@)
        },
        Err(e) => Err(e),
    }
}

/// The view of an identity or of the reason why there is none.
pub open spec fn identity_outcome(r: Result<Identity, String>) -> Result<IdentityView, Seq<char>> {
    match r {
        Ok(id) => Ok(id@),
        Err(e) => Err(e@),
    }
}

impl View for Identity {
    type V = IdentityView;

    closed spec fn view(&self) -> IdentityView {
        IdentityView {
            username: self.username@,
            seed: primitives::ed25519_held(self.signing_key),
        }
    }
}

impl Identity {
    #[verifier::type_invariant]
    spec fn inv(&self) -> bool {
        &&& primitives::ed25519_held(self.signing_key).len() == 32
        &&& self.verifying_key@ == primitives::ed25519_public(
            primitives::ed25519_held(self.signing_key),
        )
        &&& primitives::ed25519_is_key(self.verifying_key@)
    }

    /// The identity of `username` with the keypair that grows from `seed`.
    pub fn from_seed(username: &str, seed: [u8; 32]) -> (r: Self)
        ensures
            r@ == (IdentityView { username: username@, seed: seed@ }),
    {
        Identity::with_key(username, primitives::ed25519_keypair(&seed))
    }

    /// The identity of `username` with a keypair that the caller gives up.
    fn with_key(username: &str, key: ed25519_dalek::SigningKey) -> (r: Self)
        requires
            primitives::ed25519_held(key).len() == 32,
        ensures
            r@ == (IdentityView { username: username@, seed: primitives::ed25519_held(key) }),
    {
        let verifying_key: [u8; 32] = primitives::ed25519_public_key(&key);
        Identity { username: username.to_owned(), signing_key: key, verifying_key }
    }

    /// A fresh identity for `username`, and the form in which it is kept.
    pub fn generate(username: &str) -> (r: (Self, StoredIdentity))
        ensures
            r.0@.username == username@,
            r.0@.seed.len() == 32,
            r.1.username@ == username@,
            r.1.signing_key_b64@ == primitives::b64_text(r.0@.seed),
            r.1.verifying_key_b64@ == primitives::b64_text(
                primitives::ed25519_public(r.0@.seed),
            ),
            loaded(username@, r.1.signing_key_b64@) == Ok::<IdentityView, Seq<char>>(r.0@),
    {
        let id: Identity = Identity::with_key(username, primitives::ed25519_generate());
        let kept: StoredIdentity = id.stored();
        (id, kept)
    }

    /// The form in which this identity is kept. Loading it gives the same identity.
    pub fn stored(&self) -> (r: StoredIdentity)
        ensures
            r.username@ == self@.username,
            r.signing_key_b64@ == primitives::b64_text(self@.seed),
            r.verifying_key_b64@ == primitives::b64_text(primitives::ed25519_public(self@.seed)),
            loaded(self@.username, r.signing_key_b64@) == Ok::<IdentityView, Seq<char>>(self@),
    {
        proof {
            use_type_invariant(self);
        }
        let seed: [u8; 32] = primitives::ed25519_seed(&self.signing_key);
        StoredIdentity {
            username: self.username.clone(),
            signing_key_b64: primitives::b64_encode(seed.as_slice()),
            verifying_key_b64: primitives::b64_encode(self.verifying_key.as_slice()),
        }
    }

    /// The identity that was kept for `username`.
    pub fn load(username: &str, stored: &StoredIdentity) -> (r: Result<Self, String>)
        ensures
            identity_outcome(r) == loaded(username@, stored.signing_key_b64@),
    {
        match primitives::exactly_32(
            primitives::decoded(stored.signing_key_b64.as_str()),
            "Bad signing key encoding",
            "Signing key wrong length",
        ) {
            Ok(seed) => Ok(Identity::from_seed(username, seed)),
            Err(e) => Err(e),
        }
    }

    /// The identity that was kept, or a fresh one with the form in which to keep it.
    pub fn load_or_create(username: &str, stored: Option<&StoredIdentity>) -> (r: Result<
        (Self, Option<StoredIdentity>),
        String,
    >)
        ensures
            match stored {
                Some(s) => match loaded(username@, s.signing_key_b64@) {
                    Ok(id) => r is Ok && r->Ok_0.0@ == id && r->Ok_0.1 is None,
                    Err(e) => r is Err && r->Err_0@ == e,
                },
                None => {
                    &&& r is Ok
                    &&& r->Ok_0.0@.username == username@
                    &&& r->Ok_0.0@.seed.len() == 32
                    &&& r->Ok_0.1 is Some
                    &&& r->Ok_0.1->Some_0.username@ == username@
                    &&& r->Ok_0.1->Some_0.signing_key_b64@ == primitives::b64_text(r->Ok_0.0@.seed)
                    &&& r->Ok_0.1->Some_0.verifying_key_b64@ == primitives::b64_text(
                        primitives::ed25519_public(r->Ok_0.0@.seed),
                    )
                    &&& loaded(username@, r->Ok_0.1->Some_0.signing_key_b64@) == Ok::<
                        IdentityView,
                        Seq<char>,
                    >(r->Ok_0.0@)
                },
            },
    {
        match stored {
            Some(s) => match Identity::load(username, s) {
                Ok(id) => Ok((id, None)),
                Err(e) => Err(e),
            },
            None => {
                let (id, kept): (Identity, StoredIdentity) = Identity::generate(username);
                Ok((id, Some(kept)))
            },
        }
    }

    /// The user's name.
    pub fn username(&self) -> (r: &str)
        ensures
            r@ == self@.username,
    {
        self.username.as_str()
    }

    /// The public key.
    pub fn verifying_key(&self) -> (r: [u8; 32])
        ensures
            r@ == primitives::ed25519_public(self@.seed),
            primitives::ed25519_is_key(r@),
    {
        proof {
            use_type_invariant(self);
        }
        self.verifying_key
    }

    /// The public key as a base64 string for wire transmission.
    pub fn public_key_b64(&self) -> (r: String)
        ensures
            r@ == primitives::b64_text(primitives::ed25519_public(self@.seed)),
            parsed_key(r@) == Ok::<Seq<u8>, Seq<char>>(primitives::ed25519_public(self@.seed)),
            r@.len() == 44,
            forall|i: int| 0 <= i < r@.len() ==> primitives::is_b64_char(#[trigger] r@[i]),
    {
        proof {
            use_type_invariant(self);
        }
        primitives::b64_encode(self.verifying_key.as_slice())
    }

    /// Signs a message. Returns the signature in base64.
    pub fn sign_b64(&self, msg: &[u8]) -> (r: String)
        ensures
            r@ == primitives::b64_text(primitives::ed25519_signature(self@.seed, msg@)),
            primitives::b64_bytes(r@) == Some(primitives::ed25519_signature(self@.seed, msg@)),
            primitives::ed25519_signature(self@.seed, msg@).len() == 64,
            primitives::ed25519_verifies(
                primitives::ed25519_public(self@.seed),
                msg@,
                primitives::ed25519_signature(self@.seed, msg@),
            ),
            forall|i: int| 0 <= i < r@.len() ==> primitives::is_b64_char(#[trigger] r@[i]),
    {
        let signature: [u8; 64] = primitives::ed25519_sign(&self.signing_key, msg);
        primitives::b64_encode(signature.as_slice())
    }
}

/// Parses an Ed25519 verifying key from base64.
pub fn parse_verifying_key(b64: &str) -> (r: Result<[u8; 32], String>)
    ensures
        match r {
            Ok(key) => parsed_key(b64@) == Ok::<Seq<u8>, Seq<char>>(key@),
            Err(e) => parsed_key(b64@) == Err::<Seq<u8>, Seq<char>>(e@),
        },
{
    let key: [u8; 32] = match primitives::exactly_32(
        primitives::decoded(b64),
        "Bad base64 for verifying key",
        "Verifying key wrong length",
    ) {
        Ok(key) => key,
        Err(e) => {
            return Err(e);
        },
    };
    match primitives::ed25519_check_key(&key) {
        Ok(_) => Ok(key),
        Err(_) => Err("Invalid Ed25519 verifying key".to_owned()),
    }
}

/// A stored signing key of 32 bytes gives the identity of the user with these bytes as seed, and any
/// other gives none.
pub proof fn law_stored_keys_are_loaded(username: Seq<char>, signing_key_b64: Seq<char>)
    ensures
        match primitives::b64_bytes(signing_key_b64) {
            Some(seed) => loaded(username, signing_key_b64) == if seed.len() == 32 {
                Ok::<IdentityView, Seq<char>>(IdentityView { username, seed })
            } else {
                Err("Signing key wrong length"@)
            },
            None => loaded(username, signing_key_b64) == Err::<IdentityView, Seq<char>>(
                "Bad signing key encoding"@,
            ),
        },
{
}

/// A text is a public key exactly if it is base64 of 32 bytes that are one.
pub proof fn law_public_keys_are_parsed(b64: Seq<char>)
    ensures
        match primitives::b64_bytes(b64) {
            Some(key) => parsed_key(b64) == if key.len() != 32 {
                Err::<Seq<u8>, Seq<char>>("Verifying key wrong length"@)
            } else if primitives::ed25519_is_key(key) {
                Ok(key)
            } else {
                Err("Invalid Ed25519 verifying key"@)
            },
            None => parsed_key(b64) == Err::<Seq<u8>, Seq<char>>("Bad base64 for verifying key"@),
        },
{
}

} // verus!
