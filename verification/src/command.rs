//! The commands that the user types.
//!
//! A command that needs the network or a file ends in a request. The caller performs it and hands
//! the outcome back to the function named at the request.

use crate::chat::{self, ChatConnectionState, ChatState, ChatView, Color, SecureView};
use crate::handshake::{self, Handshake};
use crate::identity::{self, Identity, IdentityView};
use crate::known_users::KnownUsers;
use crate::primitives;
use crate::text;
use vstd::prelude::*;
use vstd::utf8::*;

verus! {

/// Default relay server - point this at your own VM.
pub const RELAY_HOST: &'static str = "192.168.1.160";

/// The port on which the relay listens.
pub const RELAY_PORT: u16 = 5000;

/// The recipient that stands for every peer at the relay.
pub const EVERYONE: &'static str = "*";

/// What the caller has to do after a command.
pub enum Request {
    Nothing,
    /// Open a connection; the outcome goes to `finish_connect`.
    Connect { host: String, port: u16 },
    /// Load or create the identity of a user; the outcome goes to `identity_loaded`.
    LoadIdentity { username: String },
    /// Open a connection; the outcome goes to `finish_register`.
    ConnectToRegister { username: String, host: String, port: u16 },
    /// Read the peers' keys that were kept; they go to `secure`.
    ReadKnownUsers { peer: String },
}

/// What a request says.
#[verifier::ext_equal]
pub enum RequestView {
    Nothing,
    Connect { host: Seq<char>, port: u16 },
    LoadIdentity { username: Seq<char> },
    ConnectToRegister { username: Seq<char>, host: Seq<char>, port: u16 },
    ReadKnownUsers { peer: Seq<char> },
}

impl View for Request {
    type V = RequestView;

    open spec fn view(&self) -> RequestView {
        match self {
            Request::Nothing => RequestView::Nothing,
            Request::Connect { host, port } => RequestView::Connect { host: host@, port: *port },
            Request::LoadIdentity { username } => RequestView::LoadIdentity {
                username: username@,
            },
            Request::ConnectToRegister { username, host, port } => RequestView::ConnectToRegister {
                username: username@,
                host: host@,
                port: *port,
            },
            Request::ReadKnownUsers { peer } => RequestView::ReadKnownUsers { peer: peer@ },
        }
    }
}

/// The words that are commands.
pub open spec fn is_command(word: Seq<char>) -> bool {
    ||| word == "CONNECT"@
    ||| word == "REGISTER"@
    ||| word == "PUBKEY"@
    ||| word == "SECURE"@
    ||| word == "LIST"@
    ||| word == "MSG"@
    ||| word == "QUIT"@
}

/// The port that a word names; the relay's own where it names none.
pub open spec fn port_named(word: Option<Seq<char>>) -> u16 {
    match word {
        Some(w) => match text::parsed(w, false, 0, 65535) {
            Some(p) => p as u16,
            None => RELAY_PORT,
        },
        None => RELAY_PORT,
    }
}

/// The public key of an identity in base64.
pub open spec fn key_text(id: IdentityView) -> Seq<char> {
    primitives::b64_text(primitives::ed25519_public(id.seed))
}

/// The `i`th word, if there is one.
pub open spec fn argument(words: Seq<Seq<char>>, i: int) -> Option<Seq<char>> {
    if i < words.len() {
        Some(words[i])
    } else {
        None
    }
}

/// The chat after a connection was opened, or could not be.
pub open spec fn after_connecting(s: ChatView, outcome: Result<(), Seq<char>>) -> ChatView {
    match outcome {
        Ok(_) => chat::said(
            chat::linked_up(s),
            "[system] Connected to relay server."@,
            Color::Yellow,
        ),
        Err(e) => chat::said(s, "[system] "@ + e, Color::Red),
    }
}

/// The chat after our name was sent to the relay, and behind it our public key for every peer.
pub open spec fn registered(s: ChatView, username: Seq<char>) -> ChatView {
    let asked = chat::sent(s, "REGISTER "@ + username);
    match s.identity {
        None => asked,
        Some(id) => chat::said(
            chat::said(
                chat::sent(asked, chat::pubkey_line(EVERYONE@, id)),
                "[system] Registered. Run: SECURE <peer> to start an encrypted session."@,
                Color::DarkGray,
            ),
            "[system] Your key fingerprint: "@ + key_text(id).take(24) + "..."@,
            Color::DarkGray,
        ),
    }
}

/// The chat, and what is to be done, after an identity was loaded, or could not be.
pub open spec fn after_loading(
    s: ChatView,
    username: Seq<char>,
    loaded: Result<IdentityView, Seq<char>>,
) -> (ChatView, RequestView) {
    match loaded {
        Err(e) => (
            chat::said(s, "[error] Key load failed: "@ + e, Color::Red),
            RequestView::Nothing,
        ),
        Ok(id) => {
            let known = ChatView {
                identity: Some(id),
                ..chat::said(
                    s,
                    "Identity key loaded. Fingerprint: "@ + key_text(id).take(16) + "..."@,
                    Color::Yellow,
                )
            };
            if s.connection is Disconnected {
                (
                    known,
                    RequestView::ConnectToRegister {
                        username,
                        host: RELAY_HOST@,
                        port: RELAY_PORT,
                    },
                )
            } else {
                (registered(known, username), RequestView::Nothing)
            }
        },
    }
}

/// The chat after the connection for a registration was opened, or could not be.
pub open spec fn after_registering(
    s: ChatView,
    username: Seq<char>,
    outcome: Result<(), Seq<char>>,
) -> ChatView {
    match outcome {
        Ok(_) => registered(chat::linked_up(s), username),
        Err(e) => chat::said(s, "[system] "@ + e, Color::Red),
    }
}

/// The chat after a handshake with `peer` was started; `stored` are the keys that were kept.
pub open spec fn secured(
    s: ChatView,
    peer: Seq<char>,
    stored: Map<Seq<char>, Seq<char>>,
    secret: Seq<u8>,
) -> ChatView {
    let key = if stored.dom().contains(peer) {
        stored[peer]
    } else {
        ""@
    };
    let line = if key.len() == 0 {
        "[handshake] Sent PUBKEY + HELLO to "@ + peer + ". Waiting for their PUBKEY..."@
    } else {
        "[handshake] Sent PUBKEY + HELLO to "@ + peer
            + " (key already known). Awaiting their HELLO..."@
    };
    if s.identity is None {
        chat::said(s, "[error] REGISTER first."@, Color::Red)
    } else {
        chat::said(
            ChatView {
                session: SecureView::AwaitingHello { secret, peer, key },
                ..chat::introduced(s, peer, secret)
            },
            line,
            Color::Yellow,
        )
    }
}

/// The chat, and what is to be done, after a REGISTER command.
pub open spec fn after_register_command(s: ChatView, words: Seq<Seq<char>>) -> (
    ChatView,
    RequestView,
) {
    match argument(words, 1) {
        None => (
            chat::said(s, "[error] Usage: REGISTER <username>"@, Color::Red),
            RequestView::Nothing,
        ),
        Some(username) => (s, RequestView::LoadIdentity { username }),
    }
}

/// The chat after a PUBKEY command.
pub open spec fn after_pubkey_command(s: ChatView, words: Seq<Seq<char>>) -> ChatView {
    match argument(words, 1) {
        None => chat::said(s, "[error] Usage: PUBKEY <username>"@, Color::Red),
        Some(target) => match s.identity {
            None => chat::said(s, "[error] Not registered yet."@, Color::Red),
            Some(id) => chat::said(
                chat::sent(s, chat::pubkey_line(target, id)),
                "[system] Public key sent to "@ + target + "."@,
                Color::DarkGray,
            ),
        },
    }
}

/// The chat, and what is to be done, after a SECURE command.
pub open spec fn after_secure_command(s: ChatView, words: Seq<Seq<char>>) -> (
    ChatView,
    RequestView,
) {
    match argument(words, 1) {
        None => (
            chat::said(s, "[error] Usage: SECURE <username>"@, Color::Red),
            RequestView::Nothing,
        ),
        Some(peer) => if s.identity is None {
            (chat::said(s, "[error] REGISTER first."@, Color::Red), RequestView::Nothing)
        } else {
            (s, RequestView::ReadKnownUsers { peer })
        },
    }
}

/// The chat after a MSG command.
pub open spec fn after_msg_command(s: ChatView, words: Seq<Seq<char>>, nonce: Seq<u8>) -> ChatView {
    if words.len() < 3 {
        chat::said(s, "[error] Usage: MSG <recipient> <message>"@, Color::Red)
    } else if chat::peer_of(s) == Some(words[1]) {
        chat::after_sending_text(
            s,
            words[1],
            words[2],
            chat::my_name(s) + " → "@ + words[1] + (": "@ + words[2]),
            nonce,
        )
    } else {
        chat::said(
            s,
            "[error] No secure session with "@ + words[1] + ". Run: SECURE "@ + words[1],
            Color::Red,
        )
    }
}

/// The chat after a QUIT command.
pub open spec fn after_quit_command(s: ChatView) -> ChatView {
    chat::cut_off(
        chat::said(chat::sent(s, "QUIT"@), "[system] Disconnected."@, Color::Yellow),
    )
}

/// The chat, and what is to be done, after a line was typed whose first word is `cmd` in capitals.
/// What is no command goes to the peer of the session, if there is one; `nonce` is that of the
/// message if one is sent.
pub open spec fn after_word(s: ChatView, cmd: Seq<char>, raw: Seq<char>, nonce: Seq<u8>) -> (
    ChatView,
    RequestView,
) {
    let words = text::split(raw, 3);
    if !is_command(cmd) && chat::peer_of(s) is Some {
        (
            chat::after_sending_text(
                s,
                chat::peer_of(s)->Some_0,
                raw,
                chat::my_name(s) + ": "@ + raw,
                nonce,
            ),
            RequestView::Nothing,
        )
    } else if cmd == "CONNECT"@ {
        (
            s,
            RequestView::Connect {
                host: match argument(words, 1) {
                    Some(host) => host,
                    None => RELAY_HOST@,
                },
                port: port_named(argument(words, 2)),
            },
        )
    } else if cmd == "REGISTER"@ {
        after_register_command(s, words)
    } else if cmd == "PUBKEY"@ {
        (after_pubkey_command(s, words), RequestView::Nothing)
    } else if cmd == "SECURE"@ {
        after_secure_command(s, words)
    } else if cmd == "LIST"@ {
        (
            chat::said(chat::sent(s, "LIST"@), "[you] LIST"@, Color::DarkGray),
            RequestView::Nothing,
        )
    } else if cmd == "MSG"@ {
        (after_msg_command(s, words, nonce), RequestView::Nothing)
    } else if cmd == "QUIT"@ {
        (after_quit_command(s), RequestView::Nothing)
    } else {
        (
            chat::said(
                chat::said(s, "[error] Unknown command: "@ + raw, Color::Red),
                "[help] REGISTER <name>  SECURE <peer>  MSG <peer> <text>  LIST  QUIT"@,
                Color::DarkGray,
            ),
            RequestView::Nothing,
        )
    }
}

/// The first word of a line in capitals.
pub open spec fn first_word(raw: Seq<char>) -> Seq<char> {
    text::uppercase(text::split(raw, 3)[0])
}

/// The chat, and what is to be done, after a line was typed.
pub open spec fn after_command(s: ChatView, raw: Seq<char>, nonce: Seq<u8>) -> (
    ChatView,
    RequestView,
) {
    after_word(s, first_word(raw), raw, nonce)
}

/// The text that goes to the peer of the session when a line is typed whose first word is `cmd` in
/// capitals.
pub open spec fn text_for_peer(s: ChatView, cmd: Seq<char>, raw: Seq<char>) -> Option<Seq<char>> {
    let words = text::split(raw, 3);
    if chat::peer_of(s) is None {
        None
    } else if !is_command(cmd) {
        Some(raw)
    } else if cmd == "MSG"@ && words.len() == 3 && chat::peer_of(s) == Some(words[1]) {
        Some(words[2])
    } else {
        None
    }
}

/// Whether the peer reads the text that goes to it when a line is typed whose first word is `cmd` in
/// capitals.
pub open spec fn word_can_be_read(s: ChatView, cmd: Seq<char>, raw: Seq<char>, nonce: Seq<u8>) -> bool {
    text_for_peer(s, cmd, raw) matches Some(plaintext) ==> chat::can_be_read(s, nonce, plaintext)
}

/// Whether the peer reads the text that goes to it when a line is typed.
pub open spec fn peer_can_read(s: ChatView, raw: Seq<char>, nonce: Seq<u8>) -> bool {
    word_can_be_read(s, first_word(raw), raw, nonce)
}

/// The view of the outcome of a connection.
pub open spec fn connect_outcome(r: Result<(), String>) -> Result<(), Seq<char>> {
    match r {
        Ok(_) => Ok(()),
        Err(e) => Err(e@),
    }
}

/// MSG is none of the other commands.
pub proof fn lemma_msg_differs()
    ensures
        forall|word: Seq<char>|
            #![trigger is_command(word)]
            word == "CONNECT"@ || word == "REGISTER"@ || word == "PUBKEY"@ || word == "SECURE"@
                || word == "LIST"@ || word == "QUIT"@ ==> word != "MSG"@,
{
    reveal_strlit("CONNECT");
    reveal_strlit("REGISTER");
    reveal_strlit("PUBKEY");
    reveal_strlit("SECURE");
    reveal_strlit("LIST");
    reveal_strlit("QUIT");
    reveal_strlit("MSG");
    assert("CONNECT"@.len() == 7 && "REGISTER"@.len() == 8 && "PUBKEY"@.len() == 6
        && "SECURE"@.len() == 6 && "LIST"@.len() == 4 && "QUIT"@.len() == 4 && "MSG"@.len() == 3);
}

/// Whether `word` is a command.
fn command_word(word: &str) -> (r: bool)
    ensures
        r == is_command(word@),
{
    text::same(word, "CONNECT") || text::same(word, "REGISTER") || text::same(word, "PUBKEY")
        || text::same(word, "SECURE") || text::same(word, "LIST") || text::same(word, "MSG")
        || text::same(word, "QUIT")
}

/// The first `n` characters of a public key in base64.
fn fingerprint(key: &str, n: usize) -> (r: String)
    requires
        n <= key@.len(),
        forall|i: int| 0 <= i < key@.len() ==> primitives::is_b64_char(#[trigger] key@[i]),
    ensures
        r@ == key@.take(n as int),
{
    proof {
        assert(is_ascii_chars(key@));
        text::lemma_ascii_head(key@, n as nat);
        assert(key@.take(key@.len() as int) == key@);
    }
    text::head(key, n)
}

/// Reads a port.
fn port_of(word: &str) -> (r: u16)
    ensures
        r == port_named(Some(word@)),
{
    match text::parse_number(word, false, 0, 65535) {
        Some(p) => p as u16,
        None => RELAY_PORT,
    }
}

impl ChatState {
    /// Takes the outcome of a `Connect` request.
    pub fn finish_connect(&mut self, outcome: Result<(), String>)
        ensures
            final(self)@ == after_connecting(old(self)@, connect_outcome(outcome)),
    {
        match outcome {
            Ok(_) => {
                self.link_up();
                self.push_msg("[system] Connected to relay server.", Color::Yellow);
            },
            Err(e) => {
                self.push_msg(text::join2("[system] ", e.as_str()).as_str(), Color::Red);
            },
        }
    }

    /// Sends our name to the relay and our public key to every peer, and shows the fingerprint of
    /// that key.
    fn register(&mut self, username: &str)
        ensures
            final(self)@ == registered(old(self)@, username@),
    {
        self.send_raw(text::join2("REGISTER ", username).as_str());
        let pubkey: String = match self.identity() {
            Some(id) => id.public_key_b64(),
            None => {
                return;
            },
        };
        let announced: String = text::join4("MSG ", EVERYONE, " PUBKEY ", pubkey.as_str());
        self.send_raw(announced.as_str());
        self.push_msg(
            "[system] Registered. Run: SECURE <peer> to start an encrypted session.",
            Color::DarkGray,
        );
        let line: String = text::join3(
            "[system] Your key fingerprint: ",
            fingerprint(pubkey.as_str(), 24).as_str(),
            "...",
        );
        self.push_msg(line.as_str(), Color::DarkGray);
    }

    /// Takes the outcome of a `LoadIdentity` request.
    pub fn identity_loaded(&mut self, username: &str, loaded: Result<Identity, String>) -> (r:
        Request)
        ensures
            (final(self)@, r@) == after_loading(old(self)@, username@, identity::identity_outcome(loaded)),
    {
        match loaded {
            Err(e) => {
                let line: String = text::join2("[error] Key load failed: ", e.as_str());
                self.push_msg(line.as_str(), Color::Red);
                Request::Nothing
            },
            Ok(identity) => {
                let pubkey: String = identity.public_key_b64();
                let line: String = text::join3(
                    "Identity key loaded. Fingerprint: ",
                    fingerprint(pubkey.as_str(), 16).as_str(),
                    "...",
                );
                self.push_msg(line.as_str(), Color::Yellow);
                self.set_identity(identity);
                let disconnected: bool = match self.connection_state() {
                    ChatConnectionState::Disconnected => true,
                    _ => false,
                };
                if disconnected {
                    Request::ConnectToRegister {
                        username: username.to_owned(),
                        host: RELAY_HOST.to_owned(),
                        port: RELAY_PORT,
                    }
                } else {
                    self.register(username);
                    Request::Nothing
                }
            },
        }
    }

    /// Takes the outcome of a `ConnectToRegister` request.
    pub fn finish_register(&mut self, username: &str, outcome: Result<(), String>)
        ensures
            final(self)@ == after_registering(old(self)@, username@, connect_outcome(outcome)),
    {
        match outcome {
            Ok(_) => {
                self.link_up();
                self.register(username);
            },
            Err(e) => {
                self.push_msg(text::join2("[system] ", e.as_str()).as_str(), Color::Red);
            },
        }
    }

    /// Takes the peers' keys of a `ReadKnownUsers` request and starts the key exchange with `peer`
    /// under a fresh secret.
    pub fn secure(&mut self, peer: &str, stored: &KnownUsers)
        ensures
            exists|secret: Seq<u8>|
                secret.len() == 32 && final(self)@ == #[trigger] secured(
                    old(self)@,
                    peer@,
                    stored@,
                    secret,
                ) && (old(self)@.identity matches Some(id) ==> handshake::hello_holds(id, secret)),
    {
        let handshake: Handshake = Handshake::new();
        let ghost secret = handshake@;
        self.secure_with(peer, stored, handshake);
        assert(self@ == secured(old(self)@, peer@, stored@, secret));
    }

    /// Starts the key exchange with `peer` under this handshake.
    pub fn secure_with(&mut self, peer: &str, stored: &KnownUsers, handshake: Handshake)
        ensures
            final(self)@ == secured(old(self)@, peer@, stored@, handshake@),
            old(self)@.identity matches Some(id) ==> handshake::hello_holds(id, handshake@),
    {
        if self.identity().is_none() {
            self.push_msg("[error] REGISTER first.", Color::Red);
            return;
        }
        let key: String = match stored.get(peer) {
            Some(key) => key,
            None => "".to_owned(),
        };
        let line: String = if key.as_str().unicode_len() == 0 {
            text::join3(
                "[handshake] Sent PUBKEY + HELLO to ",
                peer,
                ". Waiting for their PUBKEY...",
            )
        } else {
            text::join3(
                "[handshake] Sent PUBKEY + HELLO to ",
                peer,
                " (key already known). Awaiting their HELLO...",
            )
        };
        self.start_handshake(peer, key, handshake);
        self.push_msg(line.as_str(), Color::Yellow);
    }

    /// Carries out a MSG command.
    fn run_msg(&mut self, words: &Vec<String>, nonce: Option<[u8; 12]>)
        ensures
            exists|bytes: Seq<u8>|
                chat::given_nonce(nonce, bytes) && final(self)@ == #[trigger] after_msg_command(
                    old(self)@,
                    text::texts(words@),
                    bytes,
                ) && (words@.len() >= 3 && chat::peer_of(old(self)@) == Some(words@[1]@)
                    ==> chat::can_be_read(old(self)@, bytes, words@[2]@)),
    {
        let ghost all = text::texts(words@);
        let ghost any: Seq<u8> = if nonce is Some {
            nonce->Some_0@
        } else {
            Seq::new(12, |i: int| 0u8)
        };
        if words.len() < 3 {
            self.push_msg("[error] Usage: MSG <recipient> <message>", Color::Red);
            assert(self@ == after_msg_command(old(self)@, all, any));
            return;
        }
        let recipient: &str = words[1].as_str();
        let plaintext: &str = words[2].as_str();
        assert(recipient@ == all[1] && plaintext@ == all[2]);
        let open: bool = match self.active_peer() {
            Some(peer) => text::same(peer.as_str(), recipient),
            None => false,
        };
        if open {
            let me: String = self.my_username();
            let shown: String = text::join4(
                me.as_str(),
                " → ",
                recipient,
                text::join2(": ", plaintext).as_str(),
            );
            self.send_text(recipient, plaintext, shown.as_str(), nonce);
            proof {
                let bytes = choose|bytes: Seq<u8>|
                    chat::given_nonce(nonce, bytes) && self@ == #[trigger] chat::after_sending_text(
                        old(self)@,
                        recipient@,
                        plaintext@,
                        shown@,
                        bytes,
                    ) && chat::can_be_read(old(self)@, bytes, plaintext@);
                assert(self@ == after_msg_command(old(self)@, all, bytes));
            }
        } else {
            let line: String = text::join4(
                "[error] No secure session with ",
                recipient,
                ". Run: SECURE ",
                recipient,
            );
            self.push_msg(line.as_str(), Color::Red);
            assert(self@ == after_msg_command(old(self)@, all, any));
        }
    }

    /// Carries out a PUBKEY command.
    fn run_pubkey(&mut self, words: &Vec<String>)
        ensures
            final(self)@ == after_pubkey_command(old(self)@, text::texts(words@)),
    {
        if words.len() < 2 {
            self.push_msg("[error] Usage: PUBKEY <username>", Color::Red);
            return;
        }
        let target: &str = words[1].as_str();
        let pubkey: String = match self.identity() {
            Some(id) => id.public_key_b64(),
            None => {
                self.push_msg("[error] Not registered yet.", Color::Red);
                return;
            },
        };
        let line: String = text::join4("MSG ", target, " PUBKEY ", pubkey.as_str());
        self.send_raw(line.as_str());
        let told: String = text::join3("[system] Public key sent to ", target, ".");
        self.push_msg(told.as_str(), Color::DarkGray);
    }

    /// Carries out a line that the user typed.
    pub fn dispatch_chat_command(&mut self, raw: &str) -> (r: Request)
        ensures
            exists|nonce: Seq<u8>|
                nonce.len() == 12 && (final(self)@, r@) == #[trigger] after_command(
                    old(self)@,
                    raw@,
                    nonce,
                ) && peer_can_read(old(self)@, raw@, nonce),
            text::plain_capitals(text::split(raw@, 3)[0]),
    {
        self.dispatch_chat_command_with(raw, None)
    }

    /// Carries out a line that the user typed. Where a message is encrypted, it is encrypted under
    /// `nonce`, or under a fresh one if there is none.
    pub fn dispatch_chat_command_with(&mut self, raw: &str, nonce: Option<[u8; 12]>) -> (r: Request)
        ensures
            exists|bytes: Seq<u8>|
                chat::given_nonce(nonce, bytes) && (final(self)@, r@) == #[trigger] after_command(
                    old(self)@,
                    raw@,
                    bytes,
                ) && peer_can_read(old(self)@, raw@, bytes),
            text::plain_capitals(text::split(raw@, 3)[0]),
    {
        let words: Vec<String> = text::splitn(raw, 3);
        assert(text::texts(words@).len() == words@.len());
        assert(text::texts(words@)[0] == words@[0]@);
        let cmd: String = text::to_uppercase(words[0].as_str());
        let request: Request = self.run_word(cmd.as_str(), raw, nonce);
        proof {
            let bytes = choose|bytes: Seq<u8>|
                chat::given_nonce(nonce, bytes) && (self@, request@) == #[trigger] after_word(
                    old(self)@,
                    cmd@,
                    raw@,
                    bytes,
                ) && word_can_be_read(old(self)@, cmd@, raw@, bytes);
            assert((self@, request@) == after_command(old(self)@, raw@, bytes));
        }
        request
    }

    /// Carries out a line whose first word is `cmd` in capitals.
    pub fn run_word(&mut self, cmd: &str, raw: &str, nonce: Option<[u8; 12]>) -> (r: Request)
        ensures
            exists|bytes: Seq<u8>|
                chat::given_nonce(nonce, bytes) && (final(self)@, r@) == #[trigger] after_word(
                    old(self)@,
                    cmd@,
                    raw@,
                    bytes,
                ) && word_can_be_read(old(self)@, cmd@, raw@, bytes),
    {
        let ghost any: Seq<u8> = if nonce is Some {
            nonce->Some_0@
        } else {
            Seq::new(12, |i: int| 0u8)
        };
        let words: Vec<String> = text::splitn(raw, 3);
        let ghost all = text::texts(words@);
        assert(all.len() == words@.len());
        assert(forall|i: int| 0 <= i < words@.len() ==> #[trigger] all[i] == words@[i]@);

        // What is no command is a message to the peer of the session.
        if !command_word(cmd) {
            if let Some(peer) = self.active_peer() {
                let me: String = self.my_username();
                let shown: String = text::join3(me.as_str(), ": ", raw);
                self.send_text(peer.as_str(), raw, shown.as_str(), nonce);
                proof {
                    let bytes = choose|bytes: Seq<u8>|
                        chat::given_nonce(nonce, bytes) && self@
                            == #[trigger] chat::after_sending_text(
                            old(self)@,
                            peer@,
                            raw@,
                            shown@,
                            bytes,
                        ) && chat::can_be_read(old(self)@, bytes, raw@);
                    assert((self@, RequestView::Nothing) == after_word(old(self)@, cmd@, raw@, bytes));
                }
                return Request::Nothing;
            }
        }
        proof {
            lemma_msg_differs();
        }
        if text::same(cmd, "MSG") {
            self.run_msg(&words, nonce);
            proof {
                let bytes = choose|bytes: Seq<u8>|
                    chat::given_nonce(nonce, bytes) && self@ == #[trigger] after_msg_command(
                        old(self)@,
                        all,
                        bytes,
                    ) && (words@.len() >= 3 && chat::peer_of(old(self)@) == Some(words@[1]@)
                        ==> chat::can_be_read(old(self)@, bytes, words@[2]@));
                assert((self@, RequestView::Nothing) == after_word(old(self)@, cmd@, raw@, bytes));
            }
            return Request::Nothing;
        }
        let request: Request = if text::same(cmd, "CONNECT") {
            let host: String = if words.len() > 1 {
                words[1].clone()
            } else {
                RELAY_HOST.to_owned()
            };
            let port: u16 = if words.len() > 2 {
                port_of(words[2].as_str())
            } else {
                RELAY_PORT
            };
            Request::Connect { host, port }
        } else if text::same(cmd, "REGISTER") {
            if words.len() > 1 {
                Request::LoadIdentity { username: words[1].clone() }
            } else {
                self.push_msg("[error] Usage: REGISTER <username>", Color::Red);
                Request::Nothing
            }
        } else if text::same(cmd, "PUBKEY") {
            self.run_pubkey(&words);
            Request::Nothing
        } else if text::same(cmd, "SECURE") {
            if words.len() < 2 {
                self.push_msg("[error] Usage: SECURE <username>", Color::Red);
                Request::Nothing
            } else if self.identity().is_none() {
                self.push_msg("[error] REGISTER first.", Color::Red);
                Request::Nothing
            } else {
                Request::ReadKnownUsers { peer: words[1].clone() }
            }
        } else if text::same(cmd, "LIST") {
            self.send_raw("LIST");
            self.push_msg("[you] LIST", Color::DarkGray);
            Request::Nothing
        } else if text::same(cmd, "QUIT") {
            self.send_raw("QUIT");
            self.push_msg("[system] Disconnected.", Color::Yellow);
            self.cut_off();
            Request::Nothing
        } else {
            self.push_msg(text::join2("[error] Unknown command: ", raw).as_str(), Color::Red);
            self.push_msg(
                "[help] REGISTER <name>  SECURE <peer>  MSG <peer> <text>  LIST  QUIT",
                Color::DarkGray,
            );
            Request::Nothing
        };
        assert((self@, request@) == after_word(old(self)@, cmd@, raw@, any));
        request
    }
}

} // verus!
