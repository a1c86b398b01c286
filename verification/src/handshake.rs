//! The key exchange: each side signs a fresh X25519 key and derives the session from both.

use crate::identity::{Identity, IdentityView};
use crate::primitives;
use crate::session;
use crate::session::{SessionKeys, SessionView};
use vstd::prelude::*;
use vstd::utf8::*;

verus! {

/// The purpose for which a shared secret gives the two chain keys.
pub const HKDF_INFO_SESSION: &'static str = "timetracker-v1-session";

/// What a HELLO signs: the word and the ephemeral public key.
pub open spec fn hello_message(public: Seq<u8>) -> Seq<u8> {
    encode_utf8("HELLO"@) + public
}

/// The ephemeral public key that a HELLO carries.
pub open spec fn hello_key_text(secret: Seq<u8>) -> Seq<char> {
    primitives::b64_text(primitives::x25519_public(secret))
}

/// The signature that a HELLO carries.
pub open spec fn hello_signature_text(id: IdentityView, secret: Seq<u8>) -> Seq<char> {
    primitives::b64_text(
        primitives::ed25519_signature(id.seed, hello_message(primitives::x25519_public(secret))),
    )
}

/// The HELLO of a user: HELLO <username> <eph_pub_b64> <sig_b64>.
pub open spec fn hello_text(id: IdentityView, secret: Seq<u8>) -> Seq<char> {
    "HELLO "@ + id.username + " "@ + hello_key_text(secret) + " "@ + hello_signature_text(
        id,
        secret,
    )
}

/// The peer's identity key, or why it is none.
pub open spec fn peer_key(pubkey_b64: Seq<char>) -> Result<Seq<u8>, Seq<char>> {
    match primitives::exactly(
        primitives::b64_bytes(pubkey_b64),
        32,
        "Bad peer pubkey encoding"@,
        "Peer pubkey wrong length"@,
    ) {
        Ok(key) => if primitives::ed25519_is_key(key) {
            Ok(key)
        } else {
            Err("Invalid peer verifying key"@)
        },
        Err(e) => Err(e),
    }
}

/// The peer's ephemeral key, or why it is none.
pub open spec fn peer_ephemeral(eph_b64: Seq<char>) -> Result<Seq<u8>, Seq<char>> {
    primitives::exactly(
        primitives::b64_bytes(eph_b64),
        32,
        "Bad peer eph pub encoding"@,
        "Peer eph pub wrong length"@,
    )
}

/// Why a signature over the ephemeral key is refused; `None` if it is accepted.
pub open spec fn signature_fault(key: Seq<u8>, eph: Seq<u8>, sig_b64: Seq<char>) -> Option<
    Seq<char>,
> {
    match primitives::exactly(
        primitives::b64_bytes(sig_b64),
        64,
        "Bad signature encoding"@,
        "Signature wrong length"@,
    ) {
        Ok(sig) => if primitives::ed25519_verifies(key, hello_message(eph), sig) {
            None
        } else {
            Some("Signature verification FAILED — handshake rejected"@)
        },
        Err(e) => Some(e),
    }
}

/// The peer's ephemeral key where its HELLO holds, or why it does not.
pub open spec fn checked_hello(
    pubkey_b64: Seq<char>,
    eph_b64: Seq<char>,
    sig_b64: Seq<char>,
) -> Result<Seq<u8>, Seq<char>> {
    match peer_key(pubkey_b64) {
        Err(e) => Err(e),
        Ok(key) => match peer_ephemeral(eph_b64) {
            Err(e) => Err(e),
            Ok(eph) => match signature_fault(key, eph, sig_b64) {
                Some(e) => Err(e),
                None => Ok(eph),
            },
        },
    }
}

/// Whether the HELLO of a user holds under its own identity key, and is made of two words.
pub open spec fn hello_holds(id: IdentityView, secret: Seq<u8>) -> bool {
    &&& checked_hello(
        primitives::b64_text(primitives::ed25519_public(id.seed)),
        hello_key_text(secret),
        hello_signature_text(id, secret),
    ) == Ok::<Seq<u8>, Seq<char>>(primitives::x25519_public(secret))
    &&& !hello_key_text(secret).contains(' ')
    &&& !hello_signature_text(id, secret).contains(' ')
    &&& secret.len() == 32
    &&& primitives::b64_text(primitives::ed25519_public(id.seed)).len() == 44
}

/// Whether two secrets agree on what they share.
pub open spec fn share(a: Seq<u8>, b: Seq<u8>) -> bool {
    primitives::x25519_shared(a, primitives::x25519_public(b)) == primitives::x25519_shared(
        b,
        primitives::x25519_public(a),
    )
}

/// The session that a shared secret gives: the initiator sends on the first half of what is
/// derived from it and receives on the second, the other side the other way round.
pub open spec fn session_from(peer: Seq<char>, shared: Seq<u8>, initiator: bool) -> SessionView {
    let okm = primitives::hkdf_sha256(shared, encode_utf8(HKDF_INFO_SESSION@), 64);
    let first = okm.subrange(0, 32);
    let second = okm.subrange(32, 64);
    if initiator {
        SessionView { peer, send: first, recv: second }
    } else {
        SessionView { peer, send: second, recv: first }
    }
}

/// The session that a secret and a peer's HELLO give, or why they give none.
pub open spec fn derived(
    secret: Seq<u8>,
    peer: Seq<char>,
    pubkey_b64: Seq<char>,
    eph_b64: Seq<char>,
    sig_b64: Seq<char>,
    initiator: bool,
) -> Result<SessionView, Seq<char>> {
    match checked_hello(pubkey_b64, eph_b64, sig_b64) {
        Err(e) => Err(e),
        Ok(eph) => Ok(session_from(peer, primitives::x25519_shared(secret, eph), initiator)),
    }
}

/// The session that the peer `other` of an exchange derives from this side's ephemeral key.
pub open spec fn session_at_peer(
    name: Seq<char>,
    other: Seq<u8>,
    secret: Seq<u8>,
    initiator: bool,
) -> SessionView {
    session_from(
        name,
        primitives::x25519_shared(other, primitives::x25519_public(secret)),
        !initiator,
    )
}

/// The view of a session or of the reason why there is none.
pub open spec fn session_outcome(r: Result<SessionKeys, String>) -> Result<SessionView, Seq<char>> {
    match r {
        Ok(keys) => Ok(keys@),
        Err(e) => Err(e@),
    }
}

/// One side of an in-progress X25519 handshake. Its view is the secret, whose memory is overwritten
/// when the handshake is dropped.
pub struct Handshake {
    ephemeral_secret: x25519_dalek::StaticSecret,
    ephemeral_public: [u8; 32],
}

impl View for Handshake {
    type V = Seq<u8>;

    closed spec fn view(&self) -> Seq<u8> {
        primitives::x25519_held(self.ephemeral_secret)
    }
}

impl Handshake {
    #[verifier::type_invariant]
    spec fn inv(&self) -> bool {
        &&& primitives::x25519_held(self.ephemeral_secret).len() == 32
        &&& self.ephemeral_public@ == primitives::x25519_public(
            primitives::x25519_held(self.ephemeral_secret),
        )
    }

    /// A handshake with a fresh secret.
    pub fn new() -> (r: Self)
        ensures
            r@.len() == 32,
    {
        Handshake::start(primitives::x25519_generate())
    }

    /// The handshake with this secret.
    pub fn from_secret(secret: [u8; 32]) -> (r: Self)
        ensures
            r@ == secret@,
    {
        Handshake::start(primitives::x25519_secret(secret))
    }

    /// The handshake with a secret that the caller gives up.
    fn start(secret: x25519_dalek::StaticSecret) -> (r: Self)
        requires
            primitives::x25519_held(secret).len() == 32,
        ensures
            r@ == primitives::x25519_held(secret),
    {
        let public: [u8; 32] = primitives::x25519_public_key(&secret);
        Handshake { ephemeral_secret: secret, ephemeral_public: public }
    }

    /// The ephemeral public key.
    pub fn ephemeral_public(&self) -> (r: [u8; 32])
        ensures
            r@ == primitives::x25519_public(self@),
    {
        proof {
            use_type_invariant(self);
        }
        self.ephemeral_public
    }

    /// Builds the HELLO wire payload. The signature covers "HELLO" || eph_pub_bytes, so that the
    /// recipient can verify that the ephemeral key is authentically from this identity: whoever
    /// holds the identity's public key accepts it.
    pub fn hello_line(&self, identity: &Identity) -> (r: String)
        ensures
            r@ == hello_text(identity@, self@),
            !hello_key_text(self@).contains(' '),
            !hello_signature_text(identity@, self@).contains(' '),
            self@.len() == 32,
            forall|pubkey_b64: Seq<char>|
                peer_key(pubkey_b64) == Ok::<Seq<u8>, Seq<char>>(
                    primitives::ed25519_public(identity@.seed),
                ) ==> #[trigger] checked_hello(
                    pubkey_b64,
                    hello_key_text(self@),
                    hello_signature_text(identity@, self@),
                ) == Ok::<Seq<u8>, Seq<char>>(primitives::x25519_public(self@)),
    {
        proof {
            use_type_invariant(self);
        }
        let eph_b64: String = primitives::b64_encode(self.ephemeral_public.as_slice());
        let to_sign: Vec<u8> = hello_bytes(&self.ephemeral_public);
        let sig_b64: String = identity.sign_b64(to_sign.as_slice());
        let mut line: String = "HELLO ".to_owned();
        line.append(identity.username());
        line.append(" ");
        line.append(eph_b64.as_str());
        line.append(" ");
        line.append(sig_b64.as_str());
        line
    }

    /// Consumes the handshake, verifies the peer's signature, and derives the session. The side
    /// that holds the secret of the peer's ephemeral key derives from this side's ephemeral key, in
    /// the other role, a session that mirrors this one.
    pub fn derive_session(
        self,
        peer_username: &str,
        peer_pubkey_b64: &str,
        peer_eph_pub_b64: &str,
        peer_sig_b64: &str,
        i_am_initiator: bool,
    ) -> (r: Result<SessionKeys, String>)
        ensures
            session_outcome(r) == derived(
                self@,
                peer_username@,
                peer_pubkey_b64@,
                peer_eph_pub_b64@,
                peer_sig_b64@,
                i_am_initiator,
            ),
            r matches Ok(keys) ==> forall|other: Seq<u8>, name: Seq<char>|
                other.len() == 32 && peer_ephemeral(peer_eph_pub_b64@) == Ok::<Seq<u8>, Seq<char>>(
                    primitives::x25519_public(other),
                ) ==> session::mirrored(
                    keys@,
                    #[trigger] session_at_peer(name, other, self@, i_am_initiator),
                ),
            r is Ok ==> forall|other: Seq<u8>|
                other.len() == 32 && peer_ephemeral(peer_eph_pub_b64@) == Ok::<Seq<u8>, Seq<char>>(
                    primitives::x25519_public(other),
                ) ==> #[trigger] share(self@, other),
            r matches Ok(keys) ==> keys@.send.len() == 32 && keys@.recv.len() == 32,
    {
        let eph: [u8; 32] = match check_hello(peer_pubkey_b64, peer_eph_pub_b64, peer_sig_b64) {
            Ok(eph) => eph,
            Err(e) => {
                return Err(e);
            },
        };
        let shared: x25519_dalek::SharedSecret = primitives::x25519_agree(
            &self.ephemeral_secret,
            &eph,
        );
        Ok(start_session(peer_username, primitives::x25519_bytes(&shared), i_am_initiator))
    }
}

/// What a HELLO with this ephemeral key signs.
fn hello_bytes(public: &[u8; 32]) -> (r: Vec<u8>)
    ensures
        r@ == hello_message(public@),
{
    let mut msg: Vec<u8> = Vec::new();
    msg.extend_from_slice("HELLO".as_bytes());
    msg.extend_from_slice(public.as_slice());
    assert(msg@ =~= encode_utf8("HELLO"@) + public@);
    msg
}

/// Checks a peer's HELLO against its identity key and returns the ephemeral key it vouches for.
pub fn check_hello(pubkey_b64: &str, eph_b64: &str, sig_b64: &str) -> (r: Result<
    [u8; 32],
    String,
>)
    ensures
        match r {
            Ok(eph) => checked_hello(pubkey_b64@, eph_b64@, sig_b64@) == Ok::<Seq<u8>, Seq<char>>(
                eph@,
            ),
            Err(e) => checked_hello(pubkey_b64@, eph_b64@, sig_b64@) == Err::<Seq<u8>, Seq<char>>(
                e@,
            ),
        },
{
    // The peer's identity key.
    let key: [u8; 32] = match primitives::exactly_32(
        primitives::decoded(pubkey_b64),
        "Bad peer pubkey encoding",
        "Peer pubkey wrong length",
    ) {
        Ok(key) => key,
        Err(e) => {
            return Err(e);
        },
    };
    if primitives::ed25519_check_key(&key).is_err() {
        return Err("Invalid peer verifying key".to_owned());
    }
    // The peer's ephemeral key.
    let eph: [u8; 32] = match primitives::exactly_32(
        primitives::decoded(eph_b64),
        "Bad peer eph pub encoding",
        "Peer eph pub wrong length",
    ) {
        Ok(eph) => eph,
        Err(e) => {
            return Err(e);
        },
    };
    // The signature over both.
    let signed: Vec<u8> = hello_bytes(&eph);
    let sig: [u8; 64] = match primitives::exactly_64(
        primitives::decoded(sig_b64),
        "Bad signature encoding",
        "Signature wrong length",
    ) {
        Ok(sig) => sig,
        Err(e) => {
            return Err(e);
        },
    };
    if primitives::ed25519_verify(&key, signed.as_slice(), &sig).is_err() {
        return Err("Signature verification FAILED — handshake rejected".to_owned());
    }
    Ok(eph)
}

/// Derives the two chain keys from a shared secret and starts the session on them.
pub fn start_session(peer_username: &str, shared: &[u8; 32], i_am_initiator: bool) -> (r:
    SessionKeys)
    ensures
        r@ == session_from(peer_username@, shared@, i_am_initiator),
        r@.send.len() == 32,
        r@.recv.len() == 32,
{
    let mut first: Vec<u8> = session::expand(shared.as_slice(), HKDF_INFO_SESSION, 64);
    let ghost okm = first@;
    let second: Vec<u8> = first.split_off(32);
    assert(first@ == okm.subrange(0, 32));
    assert(second@ == okm.subrange(32, 64));
    if i_am_initiator {
        SessionKeys::new(peer_username.to_owned(), first, second)
    } else {
        SessionKeys::new(peer_username.to_owned(), second, first)
    }
}

/// The two sides of an exchange that reach the same shared secret send and receive on each other's
/// chains.
pub proof fn law_roles_mirror(
    peer_of_initiator: Seq<char>,
    peer_of_responder: Seq<char>,
    shared: Seq<u8>,
)
    ensures
        session::mirrored(
            session_from(peer_of_initiator, shared, true),
            session_from(peer_of_responder, shared, false),
        ),
{
}

/// No session comes of a HELLO that its identity key does not vouch for.
pub proof fn law_unsigned_hello_is_refused(
    secret: Seq<u8>,
    peer: Seq<char>,
    pubkey_b64: Seq<char>,
    eph_b64: Seq<char>,
    sig_b64: Seq<char>,
    initiator: bool,
)
    requires
        peer_key(pubkey_b64) is Ok ==> peer_ephemeral(eph_b64) is Ok ==> signature_fault(
            peer_key(pubkey_b64)->Ok_0,
            peer_ephemeral(eph_b64)->Ok_0,
            sig_b64,
        ) is Some,
    ensures
        derived(secret, peer, pubkey_b64, eph_b64, sig_b64, initiator) is Err,
{
}

/// A HELLO is accepted exactly if the identity key is one, the ephemeral key has its length, and the
/// signature is one of the word HELLO and the ephemeral key under the identity key; what comes of it is
/// the ephemeral key.
pub proof fn law_signed_hellos_are_accepted(
    pubkey_b64: Seq<char>,
    eph_b64: Seq<char>,
    sig_b64: Seq<char>,
    eph: Seq<u8>,
)
    ensures
        checked_hello(pubkey_b64, eph_b64, sig_b64) == Ok::<Seq<u8>, Seq<char>>(eph) <==> {
            &&& primitives::b64_bytes(eph_b64) == Some(eph)
            &&& eph.len() == 32
            &&& primitives::b64_bytes(pubkey_b64) matches Some(key)
            &&& key.len() == 32
            &&& primitives::ed25519_is_key(key)
            &&& primitives::b64_bytes(sig_b64) matches Some(sig)
            &&& sig.len() == 64
            &&& primitives::ed25519_verifies(key, encode_utf8("HELLO"@) + eph, sig)
        },
{
}

/// A HELLO that is refused is refused with the first reason: the identity key, then the ephemeral key,
/// then the signature, each first for its encoding and then for its length.
pub proof fn law_refused_hellos_are_named(
    pubkey_b64: Seq<char>,
    eph_b64: Seq<char>,
    sig_b64: Seq<char>,
)
    ensures
        ({
            let said = checked_hello(pubkey_b64, eph_b64, sig_b64);
            match primitives::b64_bytes(pubkey_b64) {
                None => said == Err::<Seq<u8>, Seq<char>>("Bad peer pubkey encoding"@),
                Some(key) => if key.len() != 32 {
                    said == Err::<Seq<u8>, Seq<char>>("Peer pubkey wrong length"@)
                } else if !primitives::ed25519_is_key(key) {
                    said == Err::<Seq<u8>, Seq<char>>("Invalid peer verifying key"@)
                } else {
                    match primitives::b64_bytes(eph_b64) {
                        None => said == Err::<Seq<u8>, Seq<char>>("Bad peer eph pub encoding"@),
                        Some(eph) => if eph.len() != 32 {
                            said == Err::<Seq<u8>, Seq<char>>("Peer eph pub wrong length"@)
                        } else {
                            match primitives::b64_bytes(sig_b64) {
                                None => said == Err::<Seq<u8>, Seq<char>>(
                                    "Bad signature encoding"@,
                                ),
                                Some(sig) => if sig.len() != 64 {
                                    said == Err::<Seq<u8>, Seq<char>>("Signature wrong length"@)
                                } else {
                                    said is Err ==> said == Err::<Seq<u8>, Seq<char>>(
                                        "Signature verification FAILED — handshake rejected"@,
                                    )
                                },
                            }
                        },
                    }
                },
            }
        }),
{
}

/// The HELLO of a user is the word, the name, the ephemeral public key, and the signature of the user
/// over the word and that key.
pub proof fn law_hello_is_its_four_words(id: IdentityView, secret: Seq<u8>)
    ensures
        hello_text(id, secret) == ({
            let public = primitives::x25519_public(secret);
            let signature = primitives::ed25519_signature(id.seed, encode_utf8("HELLO"@) + public);
            "HELLO "@ + id.username + " "@ + primitives::b64_text(public) + " "@
                + primitives::b64_text(signature)
        }),
{
}

/// The initiator sends on the first 32 bytes that the shared secret gives for a session and receives
/// on the next 32; the other side the other way round. The session is one with the peer.
pub proof fn law_chains_come_of_the_shared_secret(peer: Seq<char>, shared: Seq<u8>)
    ensures
        ({
            let okm = primitives::hkdf_sha256(
                shared,
                encode_utf8("timetracker-v1-session"@),
                64,
            );
            &&& session_from(peer, shared, true) == (SessionView {
                peer,
                send: okm.subrange(0, 32),
                recv: okm.subrange(32, 64),
            })
            &&& session_from(peer, shared, false) == (SessionView {
                peer,
                send: okm.subrange(32, 64),
                recv: okm.subrange(0, 32),
            })
        }),
{
}

/// An accepted HELLO gives the session with the peer on what our secret and the peer's ephemeral key
/// share, and a refused one gives none, for the reason for which it is refused.
pub proof fn law_accepted_hello_gives_the_session(
    secret: Seq<u8>,
    peer: Seq<char>,
    pubkey_b64: Seq<char>,
    eph_b64: Seq<char>,
    sig_b64: Seq<char>,
    initiator: bool,
)
    ensures
        match checked_hello(pubkey_b64, eph_b64, sig_b64) {
            Ok(eph) => derived(secret, peer, pubkey_b64, eph_b64, sig_b64, initiator) == Ok::<
                SessionView,
                Seq<char>,
            >(session_from(peer, primitives::x25519_shared(secret, eph), initiator)),
            Err(e) => derived(secret, peer, pubkey_b64, eph_b64, sig_b64, initiator) == Err::<
                SessionView,
                Seq<char>,
            >(e),
        },
{
}

} // verus!
