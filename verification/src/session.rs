//! An established session: two chains of keys, one for each direction, that move on with every
//! message.

use crate::primitives::{self, MAX_PLAINTEXT};
use crate::text;
use vstd::prelude::*;
use vstd::utf8::*;

verus! {

/// The purpose for which a chain key gives the key of one message.
pub const HKDF_INFO_MSGKEY: &'static str = "timetracker-v1-msgkey";

/// The purpose for which a chain key gives the next chain key.
pub const HKDF_INFO_RATCHET: &'static str = "timetracker-v1-ratchet";

/// The bytes of a nonce at the front of a wire payload.
pub const NONCE_LEN: usize = 12;

/// The key of the message sent at `chain`.
pub open spec fn message_key(chain: Seq<u8>) -> Seq<u8> {
    primitives::hkdf_sha256(chain, encode_utf8(HKDF_INFO_MSGKEY@), 32)
}

/// The chain key after `chain`.
pub open spec fn next_chain(chain: Seq<u8>) -> Seq<u8> {
    primitives::hkdf_sha256(chain, encode_utf8(HKDF_INFO_RATCHET@), 32)
}

/// Whether a message of `n` bytes can be sealed and put on the wire.
pub open spec fn sealable(n: nat) -> bool {
    n <= MAX_PLAINTEXT && primitives::b64_fits(n + 28)
}

/// What goes on the wire for `plaintext`: the nonce and the ciphertext, in base64.
pub open spec fn sealed(chain: Seq<u8>, nonce: Seq<u8>, plaintext: Seq<char>) -> Result<
    Seq<char>,
    Seq<char>,
> {
    let bytes = encode_utf8(plaintext);
    if sealable(bytes.len()) {
        Ok(primitives::b64_text(nonce + primitives::aead_sealed(message_key(chain), nonce, bytes)))
    } else {
        Err("Encrypt error: aead::Error"@)
    }
}

/// Whether a wire payload is base64 of at least a nonce. Only such a payload moves the chain on.
pub open spec fn framed(wire: Seq<char>) -> bool {
    primitives::b64_bytes(wire) is Some && primitives::b64_bytes(wire)->Some_0.len() >= NONCE_LEN
}

/// The nonce and the ciphertext in the bytes of a wire payload, or why there are none.
pub open spec fn unframed(bytes: Option<Seq<u8>>) -> Result<(Seq<u8>, Seq<u8>), Seq<char>> {
    match bytes {
        None => Err("Bad base64 in ciphertext"@),
        Some(b) => if b.len() < NONCE_LEN {
            Err("Ciphertext too short"@)
        } else {
            Ok((b.take(NONCE_LEN as int), b.skip(NONCE_LEN as int)))
        },
    }
}

/// The text of a plaintext that was opened, or why there is none.
pub open spec fn as_text(plaintext: Option<Seq<u8>>) -> Result<Seq<char>, Seq<char>> {
    match plaintext {
        None => Err("Decryption FAILED — message may be tampered"@),
        Some(p) => if valid_utf8(p) {
            Ok(decode_utf8(p))
        } else {
            Err("Decrypted bytes are not valid UTF-8"@)
        },
    }
}

/// What a receiver at `chain` reads in a wire payload.
pub open spec fn opened(chain: Seq<u8>, wire: Seq<char>) -> Result<Seq<char>, Seq<char>> {
    match unframed(primitives::b64_bytes(wire)) {
        Err(e) => Err(e),
        Ok((nonce, ciphertext)) => as_text(
            if ciphertext.len() > MAX_PLAINTEXT + 16 {
                None
            } else {
                primitives::aead_opened(message_key(chain), nonce, ciphertext)
            },
        ),
    }
}

/// Whether a receiver at `chain` reads the plaintext in what is sealed there.
pub open spec fn reads_back(chain: Seq<u8>, nonce: Seq<u8>, plaintext: Seq<char>) -> bool {
    sealed(chain, nonce, plaintext) matches Ok(wire) ==> framed(wire) && opened(chain, wire)
        == Ok::<Seq<char>, Seq<char>>(plaintext)
}

/// Whether what is sealed at `chain` is the base64 text of the nonce and, behind it, the ciphertext
/// of the plaintext: twelve bytes, and sixteen more than the plaintext has.
pub open spec fn carries(chain: Seq<u8>, nonce: Seq<u8>, plaintext: Seq<char>) -> bool {
    sealed(chain, nonce, plaintext) matches Ok(wire) ==> {
        let ciphertext = primitives::aead_sealed(
            message_key(chain),
            nonce,
            encode_utf8(plaintext),
        );
        &&& primitives::b64_bytes(wire) == Some(nonce + ciphertext)
        &&& (nonce + ciphertext).len() == 28 + encode_utf8(plaintext).len()
    }
}

/// What a session holds: the peer's name and the two chain keys.
#[verifier::ext_equal]
pub struct SessionView {
    pub peer: Seq<char>,
    pub send: Seq<u8>,
    pub recv: Seq<u8>,
}

/// The session after a message was sent.
pub open spec fn after_sending(s: SessionView) -> SessionView {
    SessionView { send: next_chain(s.send), ..s }
}

/// The session after a wire payload came in.
pub open spec fn after_receiving(s: SessionView, wire: Seq<char>) -> SessionView {
    if framed(wire) {
        SessionView { recv: next_chain(s.recv), ..s }
    } else {
        s
    }
}

/// Whether each side sends on the chain on which the other receives.
pub open spec fn mirrored(a: SessionView, b: SessionView) -> bool {
    a.send == b.recv && a.recv == b.send
}

/// The session after `n` messages were sent.
pub open spec fn after_sending_all(s: SessionView, n: nat) -> SessionView
    decreases n,
{
    if n == 0 {
        s
    } else {
        after_sending(after_sending_all(s, (n - 1) as nat))
    }
}

/// The session after the wire payloads came in, in this order.
pub open spec fn after_receiving_all(s: SessionView, wires: Seq<Seq<char>>) -> SessionView
    decreases wires.len(),
{
    if wires.len() == 0 {
        s
    } else {
        after_receiving(after_receiving_all(s, wires.drop_last()), wires.last())
    }
}

/// Two sides in step are in step again once a message of one has reached the other.
pub proof fn law_message_keeps_step(a: SessionView, b: SessionView, wire: Seq<char>)
    requires
        mirrored(a, b),
        framed(wire),
    ensures
        mirrored(after_sending(a), after_receiving(b, wire)),
{
}

/// Two sides in step stay in step over any number of messages of one that all reach the other.
pub proof fn law_messages_keep_step(a: SessionView, b: SessionView, wires: Seq<Seq<char>>)
    requires
        mirrored(a, b),
        forall|i: int| 0 <= i < wires.len() ==> framed(#[trigger] wires[i]),
    ensures
        mirrored(after_sending_all(a, wires.len()), after_receiving_all(b, wires)),
    decreases wires.len(),
{
    if wires.len() > 0 {
        let earlier = wires.drop_last();
        assert forall|i: int| 0 <= i < earlier.len() implies framed(#[trigger] earlier[i]) by {
            assert(framed(wires[i]));
        }
        law_messages_keep_step(a, b, earlier);
    }
}

/// A payload that is not framed is refused and leaves the session as it was.
pub proof fn law_unframed_changes_nothing(s: SessionView, wire: Seq<char>)
    requires
        !framed(wire),
    ensures
        opened(s.recv, wire) is Err,
        after_receiving(s, wire) == s,
{
}

/// Holds the symmetric ratchet state for an established secure session.
pub struct SessionKeys {
    pub peer_username: String,
    send_chain_key: Vec<u8>,
    recv_chain_key: Vec<u8>,
}

impl View for SessionKeys {
    type V = SessionView;

    closed spec fn view(&self) -> SessionView {
        SessionView {
            peer: self.peer_username@,
            send: self.send_chain_key@,
            recv: self.recv_chain_key@,
        }
    }
}

impl SessionKeys {
    /// A session with `peer_username` that starts at the two chain keys.
    pub fn new(peer_username: String, send_chain: Vec<u8>, recv_chain: Vec<u8>) -> (r: Self)
        ensures
            r@ == (SessionView { peer: peer_username@, send: send_chain@, recv: recv_chain@ }),
    {
        SessionKeys { peer_username, send_chain_key: send_chain, recv_chain_key: recv_chain }
    }

    /// The peer's name.
    pub fn peer(&self) -> (r: &str)
        ensures
            r@ == self@.peer,
    {
        self.peer_username.as_str()
    }

    /// Ratchets the send chain forward and seals `plaintext` under the key of this message and a
    /// fresh nonce. Returns base64(nonce || ciphertext with tag), ready for the wire.
    pub fn encrypt(&mut self, plaintext: &str) -> (r: Result<String, String>)
        ensures
            final(self)@ == after_sending(old(self)@),
            exists|nonce: Seq<u8>|
                nonce.len() == NONCE_LEN && text::outcome(r) == #[trigger] sealed(
                    old(self)@.send,
                    nonce,
                    plaintext@,
                ) && carries(old(self)@.send, nonce, plaintext@),
            r matches Ok(wire) ==> opened(old(self)@.send, wire@) == Ok::<Seq<char>, Seq<char>>(
                plaintext@,
            ) && framed(wire@),
    {
        let nonce: [u8; 12] = primitives::aead_nonce();
        self.encrypt_with_nonce(plaintext, &nonce)
    }

    /// Ratchets the send chain forward and seals `plaintext` under the key of this message and
    /// `nonce`. A receiver at the chain key from before reads the plaintext in what comes out.
    pub fn encrypt_with_nonce(&mut self, plaintext: &str, nonce: &[u8; 12]) -> (r: Result<
        String,
        String,
    >)
        ensures
            final(self)@ == after_sending(old(self)@),
            text::outcome(r) == sealed(old(self)@.send, nonce@, plaintext@),
            reads_back(old(self)@.send, nonce@, plaintext@),
            carries(old(self)@.send, nonce@, plaintext@),
    {
        let (msg_key, next): (Vec<u8>, Vec<u8>) = ratchet_step(self.send_chain_key.as_slice());
        self.send_chain_key = next;
        let bytes: &[u8] = plaintext.as_bytes();
        let len: usize = bytes.len();
        if len as u64 > MAX_PLAINTEXT || len > (isize::MAX as usize) / 4 * 3 - 28 {
            return Err("Encrypt error: aead::Error".to_owned());
        }
        match primitives::aead_encrypt(msg_key.as_slice(), nonce.as_slice(), bytes) {
            Ok(ciphertext) => {
                let mut wire: Vec<u8> = Vec::new();
                wire.extend_from_slice(nonce.as_slice());
                wire.extend_from_slice(ciphertext.as_slice());
                proof {
                    assert(wire@ =~= nonce@ + ciphertext@);
                    assert(wire@.take(12) =~= nonce@);
                    assert(wire@.skip(12) =~= ciphertext@);
                    encode_utf8_valid_utf8(plaintext@);
                    encode_utf8_decode_utf8(plaintext@);
                }
                Ok(primitives::b64_encode(wire.as_slice()))
            },
            Err(_) => Err("Encrypt error: aead::Error".to_owned()),
        }
    }

    /// Ratchets the receive chain forward and opens a wire payload. A payload that is not framed
    /// leaves the chain where it is; one that does not open has moved it on.
    pub fn decrypt(&mut self, wire_b64: &str) -> (r: Result<String, String>)
        ensures
            text::outcome(r) == opened(old(self)@.recv, wire_b64@),
            final(self)@ == after_receiving(old(self)@, wire_b64@),
    {
        let (nonce, ciphertext): (Vec<u8>, Vec<u8>) = match unframe(
            primitives::decoded(wire_b64),
        ) {
            Ok(parts) => parts,
            Err(e) => {
                return Err(e);
            },
        };
        let (msg_key, next): (Vec<u8>, Vec<u8>) = ratchet_step(self.recv_chain_key.as_slice());
        self.recv_chain_key = next;
        let plaintext: Option<Vec<u8>> = if ciphertext.len() as u64 > MAX_PLAINTEXT + 16 {
            None
        } else {
            match primitives::aead_decrypt(
                msg_key.as_slice(),
                nonce.as_slice(),
                ciphertext.as_slice(),
            ) {
                Ok(plaintext) => Some(plaintext),
                Err(_) => None,
            }
        };
        read_text(plaintext)
    }
}

/// Takes the bytes of a wire payload apart.
pub fn unframe(bytes: Option<Vec<u8>>) -> (r: Result<(Vec<u8>, Vec<u8>), String>)
    ensures
        match r {
            Ok((nonce, ciphertext)) => unframed(primitives::bytes_of(bytes)) == Ok::<
                (Seq<u8>, Seq<u8>),
                Seq<char>,
            >((nonce@, ciphertext@)),
            Err(e) => unframed(primitives::bytes_of(bytes)) == Err::<(Seq<u8>, Seq<u8>), Seq<char>>(
                e@,
            ),
        },
{
    match bytes {
        None => Err("Bad base64 in ciphertext".to_owned()),
        Some(b) => {
            if b.len() < NONCE_LEN {
                Err("Ciphertext too short".to_owned())
            } else {
                let mut nonce: Vec<u8> = b;
                let ghost all = nonce@;
                let ciphertext: Vec<u8> = nonce.split_off(NONCE_LEN);
                assert(nonce@ =~= all.take(12));
                assert(ciphertext@ =~= all.skip(12));
                Ok((nonce, ciphertext))
            }
        },
    }
}

/// Reads a plaintext that was opened as text.
pub fn read_text(plaintext: Option<Vec<u8>>) -> (r: Result<String, String>)
    ensures
        text::outcome(r) == as_text(primitives::bytes_of(plaintext)),
{
    match plaintext {
        None => Err("Decryption FAILED — message may be tampered".to_owned()),
        Some(bytes) => match String::from_utf8(bytes) {
            Ok(text) => {
                proof {
                    encode_utf8_decode_utf8(text@);
                }
                Ok(text)
            },
            Err(_) => Err("Decrypted bytes are not valid UTF-8".to_owned()),
        },
    }
}

/// Derives one message key and the next chain key from the current chain key, for two purposes
/// that keep them apart.
pub fn ratchet_step(chain_key: &[u8]) -> (r: (Vec<u8>, Vec<u8>))
    ensures
        r.0@ == message_key(chain_key@),
        r.1@ == next_chain(chain_key@),
        r.0@.len() == 32,
        r.1@.len() == 32,
{
    let msg_key: Vec<u8> = expand(chain_key, HKDF_INFO_MSGKEY, 32);
    let next: Vec<u8> = expand(chain_key, HKDF_INFO_RATCHET, 32);
    (msg_key, next)
}

/// Derives `len` bytes from key material for a purpose, where one block suffices for them.
pub(crate) fn expand(material: &[u8], info: &str, len: usize) -> (r: Vec<u8>)
    requires
        len <= 8160,
    ensures
        r@ == primitives::hkdf_sha256(material@, encode_utf8(info@), len as nat),
        r@.len() == len,
{
    match primitives::hkdf_expand(material, info.as_bytes(), len) {
        Ok(v) => v,
        Err(_) => Vec::new(),
    }
}

/// Every message that the cipher takes and whose wire text fits in memory is sealed, in particular
/// each of up to a thousand million bytes; a longer one is refused. What goes on the wire is the nonce
/// and what the cipher makes of the message under the key that the chain gives for messages.
pub proof fn law_messages_of_all_sizes_are_sealed(
    chain: Seq<u8>,
    nonce: Seq<u8>,
    plaintext: Seq<char>,
)
    ensures
        ({
            let bytes = encode_utf8(plaintext);
            let n = bytes.len();
            let key = primitives::hkdf_sha256(chain, encode_utf8("timetracker-v1-msgkey"@), 32);
            &&& n <= 1_000_000_000 ==> sealed(chain, nonce, plaintext) is Ok
            &&& n <= 274_877_906_816 && 4 * ((n + 30) / 3) <= isize::MAX ==> sealed(
                chain,
                nonce,
                plaintext,
            ) == Ok::<Seq<char>, Seq<char>>(
                primitives::b64_text(nonce + primitives::aead_sealed(key, nonce, bytes)),
            )
            &&& n > 274_877_906_816 || 4 * ((n + 30) / 3) > isize::MAX ==> sealed(
                chain,
                nonce,
                plaintext,
            ) == Err::<Seq<char>, Seq<char>>("Encrypt error: aead::Error"@)
        }),
{
}

/// A wire payload is read as a text exactly if it is base64 of a nonce and of what the cipher opens,
/// under the key that the chain gives for messages, to the bytes of that text.
pub proof fn law_only_what_opens_is_read(chain: Seq<u8>, wire: Seq<char>, plaintext: Seq<char>)
    ensures
        opened(chain, wire) == Ok::<Seq<char>, Seq<char>>(plaintext) <==> {
            let key = primitives::hkdf_sha256(chain, encode_utf8("timetracker-v1-msgkey"@), 32);
            primitives::b64_bytes(wire) matches Some(b) && b.len() >= 12 && b.len()
                <= 274_877_906_844 && primitives::aead_opened(key, b.take(12), b.skip(12)) == Some(
                encode_utf8(plaintext),
            )
        },
{
    encode_utf8_valid_utf8(plaintext);
    encode_utf8_decode_utf8(plaintext);
    if let Some(b) = primitives::b64_bytes(wire) {
        if b.len() >= 12 {
            if let Some(p) = primitives::aead_opened(message_key(chain), b.take(12), b.skip(12)) {
                if valid_utf8(p) {
                    decode_utf8_encode_utf8(p);
                }
            }
        }
    }
}

/// A payload that cannot be read is refused with the reason: it is no base64, it is too short for a
/// nonce, it does not open, or it opens to what is no text.
pub proof fn law_unreadable_payloads_are_named(chain: Seq<u8>, wire: Seq<char>)
    ensures
        primitives::b64_bytes(wire) is None ==> opened(chain, wire) == Err::<Seq<char>, Seq<char>>(
            "Bad base64 in ciphertext"@,
        ),
        primitives::b64_bytes(wire) matches Some(b) ==> b.len() < 12 ==> opened(chain, wire) == Err::<
            Seq<char>,
            Seq<char>,
        >("Ciphertext too short"@),
        primitives::b64_bytes(wire) matches Some(b) ==> b.len() >= 12 ==> {
            let key = primitives::hkdf_sha256(chain, encode_utf8("timetracker-v1-msgkey"@), 32);
            let plain = primitives::aead_opened(key, b.take(12), b.skip(12));
            &&& plain is None ==> opened(chain, wire) == Err::<Seq<char>, Seq<char>>(
                "Decryption FAILED — message may be tampered"@,
            )
            &&& b.len() <= 274_877_906_844 && plain is Some && !valid_utf8(plain->Some_0)
                ==> opened(chain, wire) == Err::<Seq<char>, Seq<char>>(
                "Decrypted bytes are not valid UTF-8"@,
            )
        },
{
}

/// Sending moves the sending chain alone, receiving the receiving chain alone, each to the key that
/// the chain gives for going on, and the peer stays. Only a payload of at least a nonce is received.
pub proof fn law_chains_move_alone(s: SessionView, wire: Seq<char>)
    ensures
        after_sending(s) == (SessionView {
            peer: s.peer,
            send: primitives::hkdf_sha256(s.send, encode_utf8("timetracker-v1-ratchet"@), 32),
            recv: s.recv,
        }),
        after_receiving(s, wire) == (SessionView {
            peer: s.peer,
            send: s.send,
            recv: if primitives::b64_bytes(wire) is Some && primitives::b64_bytes(
                wire,
            )->Some_0.len() >= 12 {
                primitives::hkdf_sha256(s.recv, encode_utf8("timetracker-v1-ratchet"@), 32)
            } else {
                s.recv
            },
        }),
{
}

} // verus!
