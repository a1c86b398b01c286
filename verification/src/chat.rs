//! The state of the chat: the connection, the log, the identity, the peers' keys and the session,
//! and what each line from the relay does to them.
//!
//! The chat reads and writes no socket. Lines that go to the relay are put in an outbox, from which
//! the caller takes them.

use crate::handshake::{self, Handshake};
use crate::identity::{Identity, IdentityView};
use crate::known_users::{self, KnownUsers};
use crate::primitives;
use crate::session::{self, SessionKeys, SessionView};
use crate::text;
use vstd::prelude::*;

verus! {

/// The lines that the log keeps.
pub const LOG_LINES: usize = 200;

/// The colours of the screen.
#[derive(Clone, Copy, PartialEq, Eq, Structural, Debug)]
pub enum Color {
    White,
    Gray,
    DarkGray,
    Red,
    Green,
    Yellow,
    Blue,
    Cyan,
    Magenta,
}

/// How far the client has come with the relay.
pub enum ChatConnectionState {
    Disconnected,
    Connected,
    /// Holds our username.
    Registered(String),
}

/// State of the secure session with the current peer.
pub enum SecureSessionState {
    /// No secure session.
    NoSession,
    /// We sent our HELLO and wait for the peer's.
    AwaitingHello {
        handshake: Handshake,
        peer_username: String,
        /// The peer's Ed25519 public key in base64; empty while it is not known.
        peer_pubkey_b64: String,
    },
    /// Both HELLOs are exchanged and the session keys derived.
    Established(SessionKeys),
}

/// What a connection state says.
pub enum ConnectionView {
    Disconnected,
    Connected,
    Registered(Seq<char>),
}

/// What a session state says.
#[verifier::ext_equal]
pub enum SecureView {
    NoSession,
    AwaitingHello { secret: Seq<u8>, peer: Seq<char>, key: Seq<char> },
    Established(SessionView),
}

/// What the chat holds.
#[verifier::ext_equal]
pub struct ChatView {
    pub connection: ConnectionView,
    /// The log, oldest line first.
    pub messages: Seq<(Seq<char>, Color)>,
    pub input: Seq<char>,
    /// Whether there is a link to the relay.
    pub linked: bool,
    /// The lines for the relay that wait to be taken, oldest first.
    pub outbox: Seq<Seq<char>>,
    pub identity: Option<IdentityView>,
    pub known: Map<Seq<char>, Seq<char>>,
    /// Whether the peers' keys have changed since they were last kept.
    pub unsaved: bool,
    pub session: SecureView,
}

impl View for ChatConnectionState {
    type V = ConnectionView;

    open spec fn view(&self) -> ConnectionView {
        match self {
            ChatConnectionState::Disconnected => ConnectionView::Disconnected,
            ChatConnectionState::Connected => ConnectionView::Connected,
            ChatConnectionState::Registered(name) => ConnectionView::Registered(name@),
        }
    }
}

impl View for SecureSessionState {
    type V = SecureView;

    open spec fn view(&self) -> SecureView {
        match self {
            SecureSessionState::NoSession => SecureView::NoSession,
            SecureSessionState::AwaitingHello {
                handshake,
                peer_username,
                peer_pubkey_b64,
            } => SecureView::AwaitingHello {
                secret: handshake@,
                peer: peer_username@,
                key: peer_pubkey_b64@,
            },
            SecureSessionState::Established(keys) => SecureView::Established(keys@),
        }
    }
}

/// The view of a log.
pub open spec fn log_view(messages: Seq<(String, Color)>) -> Seq<(Seq<char>, Color)> {
    Seq::new(messages.len(), |i: int| (messages[i].0@, messages[i].1))
}

/// The view of an identity that may not be loaded yet.
pub open spec fn identity_view(id: Option<Identity>) -> Option<IdentityView> {
    match id {
        Some(id) => Some(id@),
        None => None,
    }
}

/// The last lines of a log, as many as it keeps.
pub open spec fn latest(messages: Seq<(Seq<char>, Color)>) -> Seq<(Seq<char>, Color)> {
    if messages.len() > LOG_LINES {
        messages.skip(messages.len() - LOG_LINES)
    } else {
        messages
    }
}

/// The chat with one more line in the log.
pub open spec fn said(s: ChatView, line: Seq<char>, color: Color) -> ChatView {
    ChatView { messages: latest(s.messages.push((line, color))), ..s }
}

/// The chat with one more line for the relay, if there is a link to it.
pub open spec fn sent(s: ChatView, line: Seq<char>) -> ChatView {
    if s.linked {
        ChatView { outbox: s.outbox.push(line), ..s }
    } else {
        s
    }
}

/// The name under which our own messages are shown.
pub open spec fn my_name(s: ChatView) -> Seq<char> {
    match s.connection {
        ConnectionView::Registered(name) => name,
        _ => "me"@,
    }
}

/// The peer of the established session.
pub open spec fn peer_of(s: ChatView) -> Option<Seq<char>> {
    match s.session {
        SecureView::Established(keys) => Some(keys.peer),
        _ => None,
    }
}

/// The line that tells `peer` our public key.
pub open spec fn pubkey_line(peer: Seq<char>, id: IdentityView) -> Seq<char> {
    "MSG "@ + peer + " PUBKEY "@ + primitives::b64_text(primitives::ed25519_public(id.seed))
}

/// The line that carries an ephemeral key and its signature to `peer`.
pub open spec fn hello_wire(peer: Seq<char>, key: Seq<char>, signature: Seq<char>) -> Seq<char> {
    "MSG "@ + peer + " HELLO "@ + key + (" "@ + signature)
}

/// The chat after our HELLO went out to `peer`: the third and fourth word of the HELLO are sent.
pub open spec fn greeted(s: ChatView, peer: Seq<char>, hello: Seq<char>) -> ChatView {
    let words = text::split(hello, 4);
    if words.len() == 4 {
        sent(s, hello_wire(peer, words[2], words[3]))
    } else {
        s
    }
}

/// The chat after our public key and HELLO went out to `peer`, if we have an identity.
pub open spec fn introduced(s: ChatView, peer: Seq<char>, secret: Seq<u8>) -> ChatView {
    match s.identity {
        None => s,
        Some(id) => greeted(
            sent(s, pubkey_line(peer, id)),
            peer,
            handshake::hello_text(id, secret),
        ),
    }
}

/// Whether the peer whose HELLO we wait for is `sender` and its key is still unknown.
pub open spec fn lacks_key(session: SecureView, sender: Seq<char>) -> bool {
    session matches SecureView::AwaitingHello { secret, peer, key } && peer == sender && key.len()
        == 0
}

/// The chat after `sender` told us its public key.
pub open spec fn after_pubkey(s: ChatView, sender: Seq<char>, key: Seq<char>) -> ChatView {
    let checked = ChatView {
        known: known_users::updated(s.known, sender, key),
        unsaved: s.unsaved || !s.known.dom().contains(sender),
        ..s
    };
    match known_users::checked(s.known, sender, key) {
        Err(warning) => ChatView { session: SecureView::NoSession, ..said(checked, warning, Color::Red) },
        Ok(new) => {
            let told = if new {
                said(
                    checked,
                    "First contact with "@ + sender + " - key trusted and stored (TOFU)."@,
                    Color::Yellow,
                )
            } else {
                said(
                    checked,
                    sender + " identity key verified (matches stored)."@,
                    Color::Green,
                )
            };
            if lacks_key(s.session, sender) {
                said(
                    ChatView {
                        session: SecureView::AwaitingHello {
                            secret: s.session->secret,
                            peer: sender,
                            key,
                        },
                        ..told
                    },
                    "[handshake] Received "@ + sender
                        + "'s public key. Awaiting their HELLO..."@,
                    Color::DarkGray,
                )
            } else {
                told
            }
        },
    }
}

/// The chat after a session was derived, or could not be.
pub open spec fn concluded(
    s: ChatView,
    sender: Seq<char>,
    derived: Result<SessionView, Seq<char>>,
) -> ChatView {
    match derived {
        Ok(keys) => ChatView {
            session: SecureView::Established(keys),
            ..said(
                s,
                "Secure session established with "@ + sender
                    + " (ChaCha20-Poly1305 + ratchet)"@,
                Color::Green,
            )
        },
        Err(e) => ChatView {
            session: SecureView::NoSession,
            ..said(s, "[handshake error] "@ + e, Color::Red)
        },
    }
}

/// The ephemeral key in the payload of a HELLO.
pub open spec fn payload_key(payload: Seq<char>) -> Seq<char> {
    text::split(payload, 2)[0]
}

/// The signature in the payload of a HELLO.
pub open spec fn payload_signature(payload: Seq<char>) -> Seq<char> {
    let words = text::split(payload, 2);
    if words.len() > 1 {
        words[1]
    } else {
        ""@
    }
}

/// Whether we are the one who asked `sender` for a session and now have its answer.
pub open spec fn initiated(session: SecureView, sender: Seq<char>) -> bool {
    session matches SecureView::AwaitingHello { secret, peer, key } && peer == sender
}

/// The chat after `sender` said HELLO; `fresh` is the secret with which we answer if we did not ask.
/// A HELLO is answered only if it holds.
pub open spec fn after_hello(
    s: ChatView,
    sender: Seq<char>,
    payload: Seq<char>,
    fresh: Seq<u8>,
) -> ChatView {
    let eph = payload_key(payload);
    let sig = payload_signature(payload);
    let idle = ChatView { session: SecureView::NoSession, ..s };
    if lacks_key(s.session, sender) {
        said(
            s,
            "[handshake] Received HELLO from "@ + sender
                + " before their PUBKEY - re-run SECURE."@,
            Color::Red,
        )
    } else if initiated(s.session, sender) {
        concluded(
            idle,
            sender,
            handshake::derived(s.session->secret, sender, s.session->key, eph, sig, true),
        )
    } else if !s.known.dom().contains(sender) {
        said(
            idle,
            "[error] Got HELLO from "@ + sender
                + " but no public key stored. They should re-run SECURE."@,
            Color::Red,
        )
    } else {
        let derived = handshake::derived(fresh, sender, s.known[sender], eph, sig, false);
        concluded(
            if derived is Ok {
                introduced(idle, sender, fresh)
            } else {
                idle
            },
            sender,
            derived,
        )
    }
}

/// The secret from which the session with `sender` is derived on its HELLO.
pub open spec fn own_secret(s: ChatView, sender: Seq<char>, fresh: Seq<u8>) -> Seq<u8> {
    if initiated(s.session, sender) {
        s.session->secret
    } else {
        fresh
    }
}

/// Whether a session that was derived on a HELLO is mirrored by the one that the holder of the
/// payload's ephemeral secret derives from our ephemeral key in the other role.
pub open spec fn both_ends_agree(
    s: ChatView,
    t: ChatView,
    sender: Seq<char>,
    payload: Seq<char>,
    fresh: Seq<u8>,
) -> bool {
    t.session matches SecureView::Established(keys) ==> {
        let eph = handshake::peer_ephemeral(payload_key(payload));
        let own = own_secret(s, sender, fresh);
        &&& forall|other: Seq<u8>, name: Seq<char>|
            other.len() == 32 && eph == Ok::<Seq<u8>, Seq<char>>(primitives::x25519_public(other))
                ==> session::mirrored(
                keys,
                #[trigger] handshake::session_at_peer(
                    name,
                    other,
                    own,
                    initiated(s.session, sender),
                ),
            )
        &&& forall|other: Seq<u8>|
            other.len() == 32 && eph == Ok::<Seq<u8>, Seq<char>>(primitives::x25519_public(other))
                ==> #[trigger] handshake::share(own, other)
    }
}

/// Whether the HELLO with which we answer one, if we do, holds.
pub open spec fn answer_holds(
    s: ChatView,
    sender: Seq<char>,
    payload: Seq<char>,
    fresh: Seq<u8>,
) -> bool {
    !initiated(s.session, sender) && s.known.dom().contains(sender) && handshake::checked_hello(
        s.known[sender],
        payload_key(payload),
        payload_signature(payload),
    ) is Ok ==> (s.identity matches Some(id) ==> handshake::hello_holds(id, fresh))
}

/// The chat after what a message of `sender` says was read, or could not be.
pub open spec fn heard(
    s: ChatView,
    sender: Seq<char>,
    opened: Result<Seq<char>, Seq<char>>,
) -> ChatView {
    match opened {
        Ok(plaintext) => said(s, sender + ": "@ + plaintext, Color::Green),
        Err(e) => said(s, "[decrypt error] "@ + e, Color::Red),
    }
}

/// The chat after an encrypted message came in.
pub open spec fn after_enc(s: ChatView, sender: Seq<char>, wire: Seq<char>) -> ChatView {
    match s.session {
        SecureView::Established(keys) => {
            let moved = ChatView {
                session: SecureView::Established(session::after_receiving(keys, wire)),
                ..s
            };
            heard(moved, sender, session::opened(keys.recv, wire))
        },
        _ => said(
            s,
            "[error] Got encrypted message from "@ + sender
                + " but no secure session active - run SECURE "@ + (sender + " first"@),
            Color::Red,
        ),
    }
}

/// The `i`th word of a list of words; nothing where there are fewer.
pub open spec fn word(words: Seq<Seq<char>>, i: int) -> Seq<char> {
    if i < words.len() {
        words[i]
    } else {
        ""@
    }
}

/// The chat after the relay passed on what a peer sent: `FROM <sender> <kind> <payload>`.
pub open spec fn after_message(
    s: ChatView,
    sender: Seq<char>,
    kind: Seq<char>,
    payload: Seq<char>,
    fresh: Seq<u8>,
) -> ChatView {
    if kind == "PUBKEY"@ {
        after_pubkey(s, sender, payload)
    } else if kind == "HELLO"@ {
        after_hello(s, sender, payload, fresh)
    } else if kind == "ENC"@ {
        after_enc(s, sender, payload)
    } else {
        said(
            s,
            "[plain/"@ + kind + "] "@ + (sender + ": "@ + kind + (" "@ + payload)),
            Color::Yellow,
        )
    }
}

/// The chat after a line came in from the relay.
pub open spec fn after_line(s: ChatView, line: Seq<char>, fresh: Seq<u8>) -> ChatView {
    if let Some(rest) = text::stripped(line, "INFO "@) {
        let told = match text::stripped(rest, "Registered as "@) {
            Some(name) => ChatView {
                connection: ConnectionView::Registered(text::trimmed(name)),
                ..s
            },
            None => s,
        };
        said(told, "[server] "@ + rest, Color::DarkGray)
    } else if let Some(rest) = text::stripped(line, "ERROR "@) {
        said(s, "[error] "@ + rest, Color::Red)
    } else if let Some(rest) = text::stripped(line, "USERLIST "@) {
        said(s, "[online] "@ + rest, Color::Cyan)
    } else if let Some(rest) = text::stripped(line, "FROM "@) {
        let words = text::split(rest, 3);
        after_message(s, word(words, 0), word(words, 1), word(words, 2), fresh)
    } else {
        said(s, line, Color::White)
    }
}

/// The sender and the payload of a line that passes on a HELLO.
pub open spec fn hello_in(line: Seq<char>) -> Option<(Seq<char>, Seq<char>)> {
    let words = text::split(line.skip("FROM "@.len() as int), 3);
    if text::stripped(line, "INFO "@) is None && text::stripped(line, "ERROR "@) is None
        && text::stripped(line, "USERLIST "@) is None && text::stripped(line, "FROM "@) is Some
        && word(words, 1) == "HELLO"@ {
        Some((word(words, 0), word(words, 2)))
    } else {
        None
    }
}

/// Whether what a line does to the session holds: a session derived on a HELLO is mirrored at the
/// peer's end, and the peer can take our answer.
pub open spec fn exchange_holds(s: ChatView, t: ChatView, line: Seq<char>, fresh: Seq<u8>) -> bool {
    hello_in(line) matches Some((sender, payload)) ==> both_ends_agree(
        s,
        t,
        sender,
        payload,
        fresh,
    ) && answer_holds(s, sender, payload, fresh)
}

/// The chat after a text was sealed for `peer`, or could not be: it is sent, and shown as `shown`.
pub open spec fn posted(
    s: ChatView,
    peer: Seq<char>,
    shown: Seq<char>,
    sealed: Result<Seq<char>, Seq<char>>,
) -> ChatView {
    match sealed {
        Ok(wire) => said(sent(s, "MSG "@ + peer + " ENC "@ + wire), shown, Color::Cyan),
        Err(e) => said(s, "[encrypt error] "@ + e, Color::Red),
    }
}

/// The chat after a text was encrypted for `peer`, sent, and shown as `shown`.
pub open spec fn after_sending_text(
    s: ChatView,
    peer: Seq<char>,
    plaintext: Seq<char>,
    shown: Seq<char>,
    nonce: Seq<u8>,
) -> ChatView {
    match s.session {
        SecureView::Established(keys) => {
            let moved = ChatView {
                session: SecureView::Established(session::after_sending(keys)),
                ..s
            };
            posted(moved, peer, shown, session::sealed(keys.send, nonce, plaintext))
        },
        _ => s,
    }
}

/// Whether the peer of the session reads `plaintext` in what is sent for it.
pub open spec fn can_be_read(s: ChatView, nonce: Seq<u8>, plaintext: Seq<char>) -> bool {
    s.session matches SecureView::Established(keys) ==> session::reads_back(
        keys.send,
        nonce,
        plaintext,
    )
}

/// The chat with a link to the relay.
pub open spec fn linked_up(s: ChatView) -> ChatView {
    ChatView { linked: true, connection: ConnectionView::Connected, ..s }
}

/// The chat without a link to the relay and without a session.
pub open spec fn cut_off(s: ChatView) -> ChatView {
    ChatView {
        linked: false,
        connection: ConnectionView::Disconnected,
        session: SecureView::NoSession,
        ..s
    }
}

/// Whether `bytes` is the nonce given, where one is given.
pub open spec fn given_nonce(nonce: Option<[u8; 12]>, bytes: Seq<u8>) -> bool {
    &&& bytes.len() == session::NONCE_LEN
    &&& match nonce {
        Some(n) => bytes == n@,
        None => true,
    }
}

/// Whether `secret` is the one given, where one is given.
pub open spec fn given_secret(fresh: Option<Handshake>, secret: Seq<u8>) -> bool {
    match fresh {
        Some(h) => secret == h@,
        None => true,
    }
}

/// A chat that is not connected, with these keys of peers.
pub open spec fn at_start(known: Map<Seq<char>, Seq<char>>) -> ChatView {
    ChatView {
        connection: ConnectionView::Disconnected,
        messages: Seq::empty(),
        input: Seq::empty(),
        linked: false,
        outbox: Seq::empty(),
        identity: None,
        known,
        unsaved: false,
        session: SecureView::NoSession,
    }
}

/// The chat.
pub struct ChatState {
    connection_state: ChatConnectionState,
    messages: Vec<(String, Color)>,
    input: String,
    linked: bool,
    outbox: Vec<String>,
    identity: Option<Identity>,
    known_users: KnownUsers,
    unsaved: bool,
    session: SecureSessionState,
}

impl View for ChatState {
    type V = ChatView;

    closed spec fn view(&self) -> ChatView {
        ChatView {
            connection: self.connection_state@,
            messages: log_view(self.messages@),
            input: self.input@,
            linked: self.linked,
            outbox: text::texts(self.outbox@),
            identity: identity_view(self.identity),
            known: self.known_users@,
            unsaved: self.unsaved,
            session: self.session@,
        }
    }
}

impl ChatState {
    /// A chat that is not connected, with the peers' keys that were kept.
    pub fn new(known_users: KnownUsers) -> (r: Self)
        ensures
            r@ == at_start(known_users@),
    {
        ChatState {
            connection_state: ChatConnectionState::Disconnected,
            messages: Vec::new(),
            input: String::new(),
            linked: false,
            outbox: Vec::new(),
            identity: None,
            known_users,
            unsaved: false,
            session: SecureSessionState::NoSession,
        }
    }

    /// Adds a line to the log, which keeps the last two hundred.
    pub fn push_msg(&mut self, text: &str, color: Color)
        ensures
            final(self)@ == said(old(self)@, text@, color),
    {
        let ghost before = self.messages@;
        self.messages.push((text.to_owned(), color));
        let ghost all = self.messages@;
        assert(log_view(all) == log_view(before).push((text@, color)));
        let n: usize = self.messages.len();
        if n > LOG_LINES {
            let tail: Vec<(String, Color)> = self.messages.split_off(n - LOG_LINES);
            assert(log_view(tail@) == log_view(all).skip(n - LOG_LINES));
            self.messages = tail;
        }
    }

    /// The name under which our own messages are shown.
    pub fn my_username(&self) -> (r: String)
        ensures
            r@ == my_name(self@),
    {
        match &self.connection_state {
            ChatConnectionState::Registered(name) => name.clone(),
            _ => "me".to_owned(),
        }
    }

    /// The peer's name if a secure session is established.
    pub fn active_peer(&self) -> (r: Option<String>)
        ensures
            text::text_of(r) == peer_of(self@),
    {
        match &self.session {
            SecureSessionState::Established(keys) => Some(keys.peer().to_owned()),
            _ => None,
        }
    }

    /// Puts a line for the relay in the outbox. Without a link it is dropped.
    pub fn send_raw(&mut self, line: &str)
        ensures
            final(self)@ == sent(old(self)@, line@),
    {
        if self.linked {
            let ghost before = self.outbox@;
            self.outbox.push(line.to_owned());
            assert(text::texts(self.outbox@) == text::texts(before).push(line@));
        }
    }

    /// Sends our HELLO to `peer`.
    pub fn greet(&mut self, peer: &str, hello: &str)
        ensures
            final(self)@ == greeted(old(self)@, peer@, hello@),
    {
        let words: Vec<String> = text::splitn(hello, 4);
        assert(text::texts(words@).len() == words@.len());
        if words.len() == 4 {
            assert(text::texts(words@)[2] == words@[2]@);
            assert(text::texts(words@)[3] == words@[3]@);
            let head: String = text::join4("MSG ", peer, " HELLO ", words[2].as_str());
            let line: String = text::join2(
                head.as_str(),
                text::join2(" ", words[3].as_str()).as_str(),
            );
            self.send_raw(line.as_str());
        }
    }

    /// Sends our public key and our HELLO to `peer`, if we have an identity.
    fn introduce(&mut self, peer: &str, handshake: &Handshake)
        ensures
            final(self)@ == introduced(old(self)@, peer@, handshake@),
            old(self)@.identity matches Some(id) ==> handshake::hello_holds(id, handshake@),
    {
        let (pubkey, hello): (String, String) = match &self.identity {
            Some(id) => (id.public_key_b64(), handshake.hello_line(id)),
            None => {
                return;
            },
        };
        let line: String = text::join4("MSG ", peer, " PUBKEY ", pubkey.as_str());
        self.send_raw(line.as_str());
        self.greet(peer, hello.as_str());
    }

    /// Checks a peer's public key against the store. If we were waiting for it, it is the one
    /// against which the peer's HELLO will be checked; if it differs from the stored one, any
    /// session ends.
    pub fn handle_incoming_pubkey(&mut self, sender: &str, pubkey_b64: &str)
        ensures
            final(self)@ == after_pubkey(old(self)@, sender@, pubkey_b64@),
    {
        match self.known_users.check_and_update(sender, pubkey_b64) {
            Ok(new) => {
                if new {
                    self.unsaved = true;
                    let line: String = text::join3(
                        "First contact with ",
                        sender,
                        " - key trusted and stored (TOFU).",
                    );
                    self.push_msg(line.as_str(), Color::Yellow);
                } else {
                    let line: String = text::join2(
                        sender,
                        " identity key verified (matches stored).",
                    );
                    self.push_msg(line.as_str(), Color::Green);
                }
            },
            Err(warning) => {
                self.push_msg(warning.as_str(), Color::Red);
                self.session = SecureSessionState::NoSession;
                return;
            },
        }
        let fills: bool = match &self.session {
            SecureSessionState::AwaitingHello { handshake, peer_username, peer_pubkey_b64 } =>
            text::same(peer_username.as_str(), sender) && peer_pubkey_b64.as_str().unicode_len()
                == 0,
            _ => false,
        };
        if fills {
            let mut session: SecureSessionState = SecureSessionState::NoSession;
            std::mem::swap(&mut session, &mut self.session);
            if let SecureSessionState::AwaitingHello {
                handshake,
                peer_username,
                peer_pubkey_b64,
            } = session {
                self.session = SecureSessionState::AwaitingHello {
                    handshake,
                    peer_username,
                    peer_pubkey_b64: pubkey_b64.to_owned(),
                };
            }
            let line: String = text::join3(
                "[handshake] Received ",
                sender,
                "'s public key. Awaiting their HELLO...",
            );
            self.push_msg(line.as_str(), Color::DarkGray);
        }
    }

    /// Takes the outcome of a key exchange.
    pub fn conclude(&mut self, sender: &str, derived: Result<SessionKeys, String>)
        ensures
            final(self)@ == concluded(old(self)@, sender@, handshake::session_outcome(derived)),
    {
        match derived {
            Ok(keys) => {
                let line: String = text::join3(
                    "Secure session established with ",
                    sender,
                    " (ChaCha20-Poly1305 + ratchet)",
                );
                self.push_msg(line.as_str(), Color::Green);
                self.session = SecureSessionState::Established(keys);
            },
            Err(e) => {
                self.push_msg(text::join2("[handshake error] ", e.as_str()).as_str(), Color::Red);
                self.session = SecureSessionState::NoSession;
            },
        }
    }

    /// Takes a peer's HELLO, whose payload is "<eph_pub_b64> <sig_b64>". If we asked for it, the
    /// session is derived; if not, and it holds, we answer with our public key and a HELLO of our
    /// own, under `fresh` or a fresh secret, and derive the session from that.
    pub fn handle_incoming_hello(
        &mut self,
        sender: &str,
        payload: &str,
        fresh: Option<Handshake>,
    )
        ensures
            exists|secret: Seq<u8>|
                given_secret(fresh, secret) && final(self)@ == #[trigger] after_hello(
                    old(self)@,
                    sender@,
                    payload@,
                    secret,
                ) && both_ends_agree(old(self)@, final(self)@, sender@, payload@, secret)
                    && answer_holds(old(self)@, sender@, payload@, secret),
    {
        let ghost any: Seq<u8> = if fresh is Some {
            fresh->Some_0@
        } else {
            Seq::empty()
        };
        let words: Vec<String> = text::splitn(payload, 2);
        assert(text::texts(words@).len() == words@.len());
        assert(text::texts(words@)[0] == words@[0]@);
        let eph: &str = words[0].as_str();
        let sig: &str = if words.len() > 1 {
            assert(text::texts(words@)[1] == words@[1]@);
            words[1].as_str()
        } else {
            ""
        };
        let mut session: SecureSessionState = SecureSessionState::NoSession;
        std::mem::swap(&mut session, &mut self.session);
        if let SecureSessionState::AwaitingHello { handshake, peer_username, peer_pubkey_b64 } =
            session {
            if text::same(peer_username.as_str(), sender) {
                if peer_pubkey_b64.as_str().unicode_len() == 0 {
                    let line: String = text::join3(
                        "[handshake] Received HELLO from ",
                        sender,
                        " before their PUBKEY - re-run SECURE.",
                    );
                    self.push_msg(line.as_str(), Color::Red);
                    self.session = SecureSessionState::AwaitingHello {
                        handshake,
                        peer_username,
                        peer_pubkey_b64,
                    };
                    assert(self@ == after_hello(old(self)@, sender@, payload@, any));
                    return;
                }
                let derived: Result<SessionKeys, String> = handshake.derive_session(
                    sender,
                    peer_pubkey_b64.as_str(),
                    eph,
                    sig,
                    true,
                );
                self.conclude(sender, derived);
                assert(self@ == after_hello(old(self)@, sender@, payload@, any));
                return;
            }
        }
        let peer_pubkey_b64: String = match self.known_users.get(sender) {
            Some(key) => key,
            None => {
                let line: String = text::join3(
                    "[error] Got HELLO from ",
                    sender,
                    " but no public key stored. They should re-run SECURE.",
                );
                self.push_msg(line.as_str(), Color::Red);
                assert(self@ == after_hello(old(self)@, sender@, payload@, any));
                return;
            },
        };
        let handshake: Handshake = match fresh {
            Some(h) => h,
            None => Handshake::new(),
        };
        let ghost secret = handshake@;
        // Nothing is said to a peer whose HELLO does not hold.
        if handshake::check_hello(peer_pubkey_b64.as_str(), eph, sig).is_ok() {
            self.introduce(sender, &handshake);
        }
        let derived: Result<SessionKeys, String> = handshake.derive_session(
            sender,
            peer_pubkey_b64.as_str(),
            eph,
            sig,
            false,
        );
        self.conclude(sender, derived);
        assert(self@ == after_hello(old(self)@, sender@, payload@, secret));
    }

    /// Shows what a message of `sender` says, or why it could not be read.
    pub fn hear(&mut self, sender: &str, opened: Result<String, String>)
        ensures
            final(self)@ == heard(old(self)@, sender@, text::outcome(opened)),
    {
        match opened {
            Ok(plaintext) => {
                let line: String = text::join3(sender, ": ", plaintext.as_str());
                self.push_msg(line.as_str(), Color::Green);
            },
            Err(e) => {
                let line: String = text::join2("[decrypt error] ", e.as_str());
                self.push_msg(line.as_str(), Color::Red);
            },
        }
    }

    /// Decrypts an incoming message on the ratchet.
    pub fn handle_incoming_enc(&mut self, sender: &str, wire_b64: &str)
        ensures
            final(self)@ == after_enc(old(self)@, sender@, wire_b64@),
    {
        let opened: Option<Result<String, String>> = match &mut self.session {
            SecureSessionState::Established(keys) => Some(keys.decrypt(wire_b64)),
            _ => None,
        };
        match opened {
            Some(opened) => self.hear(sender, opened),
            None => {
                let line: String = text::join4(
                    "[error] Got encrypted message from ",
                    sender,
                    " but no secure session active - run SECURE ",
                    text::join2(sender, " first").as_str(),
                );
                self.push_msg(line.as_str(), Color::Red);
            },
        }
    }

    /// Takes what a peer sent through the relay.
    fn process_message(
        &mut self,
        sender: &str,
        kind: &str,
        payload: &str,
        fresh: Option<Handshake>,
    )
        ensures
            exists|secret: Seq<u8>|
                given_secret(fresh, secret) && final(self)@ == #[trigger] after_message(
                    old(self)@,
                    sender@,
                    kind@,
                    payload@,
                    secret,
                ) && (kind@ == "HELLO"@ ==> both_ends_agree(
                    old(self)@,
                    final(self)@,
                    sender@,
                    payload@,
                    secret,
                ) && answer_holds(old(self)@, sender@, payload@, secret)),
    {
        let ghost any: Seq<u8> = if fresh is Some {
            fresh->Some_0@
        } else {
            Seq::empty()
        };
        if text::same(kind, "PUBKEY") {
            self.handle_incoming_pubkey(sender, payload);
        } else if text::same(kind, "HELLO") {
            self.handle_incoming_hello(sender, payload, fresh);
            proof {
                let secret = choose|secret: Seq<u8>|
                    given_secret(fresh, secret) && self@ == #[trigger] after_hello(
                        old(self)@,
                        sender@,
                        payload@,
                        secret,
                    ) && both_ends_agree(old(self)@, self@, sender@, payload@, secret)
                        && answer_holds(old(self)@, sender@, payload@, secret);
                reveal_strlit("PUBKEY");
                reveal_strlit("HELLO");
                assert(self@ == after_message(old(self)@, sender@, kind@, payload@, secret));
            }
            return;
        } else if text::same(kind, "ENC") {
            self.handle_incoming_enc(sender, payload);
        } else {
            let shown: String = text::join4(
                sender,
                ": ",
                kind,
                text::join2(" ", payload).as_str(),
            );
            let line: String = text::join4("[plain/", kind, "] ", shown.as_str());
            assert(line@ == "[plain/"@ + kind@ + "] "@ + (sender@ + ": "@ + kind@ + (" "@
                + payload@)));
            self.push_msg(line.as_str(), Color::Yellow);
        }
        proof {
            reveal_strlit("PUBKEY");
            reveal_strlit("HELLO");
            assert(self@ == after_message(old(self)@, sender@, kind@, payload@, any));
        }
    }

    /// Takes a line from the relay.
    pub fn process_server_line(&mut self, line: &str)
        ensures
            exists|secret: Seq<u8>|
                final(self)@ == #[trigger] after_line(old(self)@, line@, secret) && exchange_holds(
                    old(self)@,
                    final(self)@,
                    line@,
                    secret,
                ),
    {
        self.process_server_line_with(line, None);
    }

    /// Takes a line from the relay. Where a HELLO is answered, it is answered under `fresh`, or
    /// under a fresh secret if there is none.
    pub fn process_server_line_with(&mut self, line: &str, fresh: Option<Handshake>)
        ensures
            exists|secret: Seq<u8>|
                given_secret(fresh, secret) && final(self)@ == #[trigger] after_line(
                    old(self)@,
                    line@,
                    secret,
                ) && exchange_holds(old(self)@, final(self)@, line@, secret),
    {
        let ghost any: Seq<u8> = if fresh is Some {
            fresh->Some_0@
        } else {
            Seq::empty()
        };
        if let Some(rest) = text::strip_prefix(line, "INFO ") {
            if let Some(name) = text::strip_prefix(rest.as_str(), "Registered as ") {
                self.connection_state = ChatConnectionState::Registered(text::trim(name.as_str()));
            }
            self.push_msg(text::join2("[server] ", rest.as_str()).as_str(), Color::DarkGray);
        } else if let Some(rest) = text::strip_prefix(line, "ERROR ") {
            self.push_msg(text::join2("[error] ", rest.as_str()).as_str(), Color::Red);
        } else if let Some(rest) = text::strip_prefix(line, "USERLIST ") {
            self.push_msg(text::join2("[online] ", rest.as_str()).as_str(), Color::Cyan);
        } else if let Some(rest) = text::strip_prefix(line, "FROM ") {
            let (sender, kind, payload): (String, String, String) = three_words(rest.as_str());
            self.process_message(sender.as_str(), kind.as_str(), payload.as_str(), fresh);
            proof {
                let secret = choose|secret: Seq<u8>|
                    given_secret(fresh, secret) && self@ == #[trigger] after_message(
                        old(self)@,
                        sender@,
                        kind@,
                        payload@,
                        secret,
                    ) && (kind@ == "HELLO"@ ==> both_ends_agree(
                        old(self)@,
                        self@,
                        sender@,
                        payload@,
                        secret,
                    ) && answer_holds(old(self)@, sender@, payload@, secret));
                assert(self@ == after_line(old(self)@, line@, secret));
            }
            return;
        } else {
            self.push_msg(line, Color::White);
        }
        assert(self@ == after_line(old(self)@, line@, any));
    }

    /// Sends a sealed text to `peer` and shows it as `shown`, or shows why it could not be sealed.
    pub fn post(&mut self, peer: &str, shown: &str, sealed: Result<String, String>)
        ensures
            final(self)@ == posted(old(self)@, peer@, shown@, text::outcome(sealed)),
    {
        match sealed {
            Ok(wire) => {
                let line: String = text::join4("MSG ", peer, " ENC ", wire.as_str());
                self.send_raw(line.as_str());
                self.push_msg(shown, Color::Cyan);
            },
            Err(e) => {
                self.push_msg(text::join2("[encrypt error] ", e.as_str()).as_str(), Color::Red);
            },
        }
    }

    /// Encrypts a text on the ratchet of the session, under `nonce` or a fresh nonce, and sends it
    /// to `peer`; in the log it stands as `shown`. Without a session nothing is sent.
    pub(crate) fn send_text(
        &mut self,
        peer: &str,
        plaintext: &str,
        shown: &str,
        nonce: Option<[u8; 12]>,
    )
        ensures
            exists|bytes: Seq<u8>|
                given_nonce(nonce, bytes) && final(self)@ == #[trigger] after_sending_text(
                    old(self)@,
                    peer@,
                    plaintext@,
                    shown@,
                    bytes,
                ) && can_be_read(old(self)@, bytes, plaintext@),
    {
        let bytes: [u8; 12] = match nonce {
            Some(n) => n,
            None => primitives::aead_nonce(),
        };
        let sealed: Option<Result<String, String>> = match &mut self.session {
            SecureSessionState::Established(keys) => Some(
                keys.encrypt_with_nonce(plaintext, &bytes),
            ),
            _ => None,
        };
        match sealed {
            Some(sealed) => self.post(peer, shown, sealed),
            None => {},
        }
        assert(self@ == after_sending_text(old(self)@, peer@, plaintext@, shown@, bytes@));
    }

    /// Notes that there is a link to the relay now.
    pub(crate) fn link_up(&mut self)
        ensures
            final(self)@ == linked_up(old(self)@),
    {
        self.linked = true;
        self.connection_state = ChatConnectionState::Connected;
    }

    /// Gives up the link to the relay and the session.
    pub(crate) fn cut_off(&mut self)
        ensures
            final(self)@ == cut_off(old(self)@),
    {
        self.connection_state = ChatConnectionState::Disconnected;
        self.session = SecureSessionState::NoSession;
        self.linked = false;
    }

    /// Takes on an identity.
    pub(crate) fn set_identity(&mut self, identity: Identity)
        ensures
            final(self)@ == (ChatView { identity: Some(identity@), ..old(self)@ }),
    {
        self.identity = Some(identity);
    }

    /// Sends our public key and our HELLO to `peer` and waits for its HELLO, to be checked against
    /// `key`.
    pub(crate) fn start_handshake(&mut self, peer: &str, key: String, handshake: Handshake)
        ensures
            final(self)@ == (ChatView {
                session: SecureView::AwaitingHello { secret: handshake@, peer: peer@, key: key@ },
                ..introduced(old(self)@, peer@, handshake@)
            }),
            old(self)@.identity matches Some(id) ==> handshake::hello_holds(id, handshake@),
    {
        self.introduce(peer, &handshake);
        self.session = SecureSessionState::AwaitingHello {
            handshake,
            peer_username: peer.to_owned(),
            peer_pubkey_b64: key,
        };
    }

    /// How far the client has come with the relay.
    pub fn connection_state(&self) -> (r: &ChatConnectionState)
        ensures
            r@ == self@.connection,
    {
        &self.connection_state
    }

    /// The state of the secure session.
    pub fn session(&self) -> (r: &SecureSessionState)
        ensures
            r@ == self@.session,
    {
        &self.session
    }

    /// The log, oldest line first.
    pub fn messages(&self) -> (r: &Vec<(String, Color)>)
        ensures
            log_view(r@) == self@.messages,
    {
        &self.messages
    }

    /// The text that is being typed.
    pub fn input(&self) -> (r: &str)
        ensures
            r@ == self@.input,
    {
        self.input.as_str()
    }

    /// Adds a character to the text that is being typed.
    pub fn type_char(&mut self, c: char)
        ensures
            final(self)@ == (ChatView { input: old(self)@.input.push(c), ..old(self)@ }),
    {
        self.input.push(c);
    }

    /// Takes the last character off the text that is being typed.
    pub fn erase_char(&mut self)
        ensures
            final(self)@ == (ChatView {
                input: if old(self)@.input.len() > 0 {
                    old(self)@.input.drop_last()
                } else {
                    old(self)@.input
                },
                ..old(self)@
            }),
    {
        self.input.pop();
    }

    /// Empties the text that is being typed.
    pub fn clear_input(&mut self)
        ensures
            final(self)@ == (ChatView { input: Seq::empty(), ..old(self)@ }),
    {
        self.input = String::new();
    }

    /// Whether there is a link to the relay.
    pub fn linked(&self) -> (r: bool)
        ensures
            r == self@.linked,
    {
        self.linked
    }

    /// Our identity, once it is loaded.
    pub fn identity(&self) -> (r: &Option<Identity>)
        ensures
            identity_view(*r) == self@.identity,
    {
        &self.identity
    }

    /// The peers' keys.
    pub fn known_users(&self) -> (r: &KnownUsers)
        ensures
            r@ == self@.known,
    {
        &self.known_users
    }

    /// Takes the lines for the relay out of the outbox, in the order in which they go out.
    pub fn take_outbox(&mut self) -> (r: Vec<String>)
        ensures
            text::texts(r@) == old(self)@.outbox,
            final(self)@ == (ChatView { outbox: Seq::empty(), ..old(self)@ }),
    {
        let mut lines: Vec<String> = Vec::new();
        assert(text::texts(lines@) == Seq::<Seq<char>>::empty());
        std::mem::swap(&mut lines, &mut self.outbox);
        lines
    }

    /// Whether the peers' keys have to be kept anew; from here on they count as kept.
    pub fn take_unsaved(&mut self) -> (r: bool)
        ensures
            r == old(self)@.unsaved,
            final(self)@ == (ChatView { unsaved: false, ..old(self)@ }),
    {
        let unsaved: bool = self.unsaved;
        self.unsaved = false;
        unsaved
    }
}

/// The first two words of a text and what follows them; nothing in place of those that are missing.
fn three_words(s: &str) -> (r: (String, String, String))
    ensures
        r.0@ == word(text::split(s@, 3), 0),
        r.1@ == word(text::split(s@, 3), 1),
        r.2@ == word(text::split(s@, 3), 2),
{
    let words: Vec<String> = text::splitn(s, 3);
    assert(text::texts(words@).len() == words@.len());
    assert(forall|i: int| 0 <= i < words@.len() ==> #[trigger] text::texts(words@)[i] == words@[i]@);
    (word_at(&words, 0), word_at(&words, 1), word_at(&words, 2))
}

/// The `i`th of a list of words, or nothing.
pub(crate) fn word_at(words: &Vec<String>, i: usize) -> (r: String)
    ensures
        r@ == word(text::texts(words@), i as int),
{
    if i < words.len() {
        words[i].clone()
    } else {
        "".to_owned()
    }
}

/// A line that is said comes last in the log; the lines before it stay in their order, the oldest one
/// goes once there are two hundred, and nothing else changes.
pub proof fn law_log_keeps_the_newest(s: ChatView, line: Seq<char>, color: Color)
    ensures
        ({
            let t = said(s, line, color);
            let n = s.messages.len() as int;
            &&& t == (ChatView { messages: t.messages, ..s })
            &&& t.messages.last() == (line, color)
            &&& n < 200 ==> t.messages == s.messages.push((line, color))
            &&& n >= 200 ==> t.messages == s.messages.skip(n - 199).push((line, color))
        }),
{
    let n = s.messages.len() as int;
    if n >= 200 {
        assert(said(s, line, color).messages =~= s.messages.skip(n - 199).push((line, color)));
    }
}

/// A line for the relay waits behind the others if there is a link, and is dropped if there is none;
/// nothing else changes.
pub proof fn law_lines_go_out_over_the_link(s: ChatView, line: Seq<char>)
    ensures
        s.linked ==> sent(s, line) == (ChatView { outbox: s.outbox.push(line), ..s }),
        !s.linked ==> sent(s, line) == s,
{
}

/// Our messages are shown under the name that the relay has us under, and before that as our own; the
/// peer is that of the session.
pub proof fn law_names_of_both_sides(s: ChatView)
    ensures
        s.connection matches ConnectionView::Registered(name) ==> my_name(s) == name,
        !(s.connection is Registered) ==> my_name(s) == "me"@,
        s.session matches SecureView::Established(keys) ==> peer_of(s) == Some(keys.peer),
        !(s.session is Established) ==> peer_of(s) is None,
{
}

/// A public key goes to a peer as it stands in base64.
pub proof fn law_public_keys_go_out_in_base64(peer: Seq<char>, id: IdentityView)
    ensures
        pubkey_line(peer, id) == "MSG "@ + peer + " PUBKEY "@ + primitives::b64_text(
            primitives::ed25519_public(id.seed),
        ),
{
}

/// A link that is opened makes the client connected and nothing else; one that is given up takes the
/// session with it.
pub proof fn law_links_open_and_close(s: ChatView)
    ensures
        linked_up(s) == (ChatView { linked: true, connection: ConnectionView::Connected, ..s }),
        cut_off(s) == (ChatView {
            linked: false,
            connection: ConnectionView::Disconnected,
            session: SecureView::NoSession,
            ..s
        }),
{
}

/// A chat starts without a link, an identity or a session, with an empty log and nothing typed or to be
/// sent, and with the peers' keys that were kept, which need not be kept anew.
pub proof fn law_chat_starts_with_the_kept_keys(known: Map<Seq<char>, Seq<char>>)
    ensures
        at_start(known).known == known,
        !at_start(known).unsaved,
        !at_start(known).linked,
        at_start(known).connection is Disconnected,
        at_start(known).identity is None,
        at_start(known).session is NoSession,
        at_start(known).messages.len() == 0,
        at_start(known).input.len() == 0,
        at_start(known).outbox.len() == 0,
{
}

} // verus!
