//! What each line that the user types does, whatever the state of the chat. A line is written as its
//! words, and `word` is the first one as it is typed.

use crate::chat::{self, ChatView, Color, ConnectionView, SecureView};
use crate::command::{self, RequestView};
use crate::exchange;
use crate::handshake::Handshake;
use crate::identity::IdentityView;
use crate::primitives;
use crate::session::{self, SessionView};
use crate::text;
use vstd::prelude::*;
use vstd::utf8::*;

verus! {

/// The seven commands differ from each other.
proof fn lemma_commands_differ()
    ensures
        "CONNECT"@ == seq!['C', 'O', 'N', 'N', 'E', 'C', 'T'],
        "REGISTER"@ == seq!['R', 'E', 'G', 'I', 'S', 'T', 'E', 'R'],
        "PUBKEY"@ == seq!['P', 'U', 'B', 'K', 'E', 'Y'],
        "SECURE"@ == seq!['S', 'E', 'C', 'U', 'R', 'E'],
        "LIST"@ == seq!['L', 'I', 'S', 'T'],
        "MSG"@ == seq!['M', 'S', 'G'],
        "QUIT"@ == seq!['Q', 'U', 'I', 'T'],
        "CONNECT"@.len() == 7 && "REGISTER"@.len() == 8,
        "PUBKEY"@.len() == 6 && "PUBKEY"@[0] == 'P',
        "SECURE"@.len() == 6 && "SECURE"@[0] == 'S',
        "LIST"@.len() == 4 && "LIST"@[0] == 'L',
        "QUIT"@.len() == 4 && "QUIT"@[0] == 'Q',
        "MSG"@.len() == 3,
{
    reveal_strlit("CONNECT");
    reveal_strlit("REGISTER");
    reveal_strlit("PUBKEY");
    reveal_strlit("SECURE");
    reveal_strlit("LIST");
    reveal_strlit("MSG");
    reveal_strlit("QUIT");
    assert("CONNECT"@ =~= seq!['C', 'O', 'N', 'N', 'E', 'C', 'T']);
    assert("REGISTER"@ =~= seq!['R', 'E', 'G', 'I', 'S', 'T', 'E', 'R']);
    assert("PUBKEY"@ =~= seq!['P', 'U', 'B', 'K', 'E', 'Y']);
    assert("SECURE"@ =~= seq!['S', 'E', 'C', 'U', 'R', 'E']);
    assert("LIST"@ =~= seq!['L', 'I', 'S', 'T']);
    assert("MSG"@ =~= seq!['M', 'S', 'G']);
    assert("QUIT"@ =~= seq!['Q', 'U', 'I', 'T']);
}

/// Whether a word is one of the seven commands.
pub open spec fn names_command(word: Seq<char>) -> bool {
    word == "CONNECT"@ || word == "REGISTER"@ || word == "PUBKEY"@ || word == "SECURE"@ || word
        == "LIST"@ || word == "MSG"@ || word == "QUIT"@
}

/// The words of a line of one, two or three words, the last of which may hold spaces.
proof fn lemma_words(word: Seq<char>, first: Seq<char>, rest: Seq<char>)
    requires
        !word.contains(' '),
        !first.contains(' '),
    ensures
        text::split(word, 3) == seq![word],
        text::split(word + " "@ + first, 3) == seq![word, first],
        text::split(word + " "@ + first + " "@ + rest, 3) == seq![word, first, rest],
{
    reveal_strlit(" ");
    assert(" "@ =~= seq![' ']);
    text::lemma_split_word(word, first, 3);
    assert(text::split(first, 2) == seq![first]);
    assert(text::split(word + seq![' '] + first, 3) =~= seq![word, first]);
    text::lemma_split_word(word, first + seq![' '] + rest, 3);
    text::lemma_split_word(first, rest, 2);
    assert(text::split(rest, 1) == seq![rest]);
    assert(word + seq![' '] + (first + seq![' '] + rest) =~= word + seq![' '] + first + seq![' ']
        + rest);
    assert(text::split(word + seq![' '] + first + seq![' '] + rest, 3) =~= seq![word, first, rest]);
}

/// A command is one in small letters, in capitals or in both, with or without words behind it.
pub proof fn law_commands_in_any_letters(
    s: ChatView,
    word: Seq<char>,
    rest: Seq<char>,
    cmd: Seq<char>,
    nonce: Seq<u8>,
)
    requires
        names_command(cmd),
        text::spells(word, cmd),
        text::plain_capitals(word),
    ensures
        command::after_command(s, word, nonce) == command::after_word(s, cmd, word, nonce),
        command::after_command(s, word + " "@ + rest, nonce) == command::after_word(
            s,
            cmd,
            word + " "@ + rest,
            nonce,
        ),
{
    lemma_commands_differ();
    assert forall|i: int| 0 <= i < cmd.len() implies 65 <= (#[trigger] cmd[i]) as int <= 90 by {}
    text::law_capitals_spell_the_name(word, cmd);
    assert(!word.contains(' ')) by {
        if word.contains(' ') {
            let i = choose|i: int| 0 <= i < word.len() && word[i] == ' ';
            assert(65 <= cmd[i] as int);
        }
    }
    reveal_strlit(" ");
    assert(" "@ =~= seq![' ']);
    text::lemma_split_word(word, rest, 3);
    assert(text::split(word, 3)[0] == word);
}

/// SECURE and a name ask for the key exchange with that peer, whether there is a session, with whom
/// ever, or an exchange already; the chat stays as it is until then. Without a name or an identity it is
/// refused.
pub proof fn law_secure_asks_for_the_exchange(
    s: ChatView,
    word: Seq<char>,
    peer: Seq<char>,
    rest: Seq<char>,
    nonce: Seq<u8>,
)
    requires
        !word.contains(' '),
        !peer.contains(' '),
    ensures
        s.identity is Some ==> command::after_word(s, "SECURE"@, word + " "@ + peer, nonce) == (
            s,
            RequestView::ReadKnownUsers { peer },
        ),
        s.identity is Some ==> command::after_word(
            s,
            "SECURE"@,
            word + " "@ + peer + " "@ + rest,
            nonce,
        ) == (s, RequestView::ReadKnownUsers { peer }),
        s.identity is None ==> command::after_word(s, "SECURE"@, word + " "@ + peer, nonce) == (
            chat::said(s, "[error] REGISTER first."@, Color::Red),
            RequestView::Nothing,
        ),
        command::after_word(s, "SECURE"@, word, nonce) == (
            chat::said(s, "[error] Usage: SECURE <username>"@, Color::Red),
            RequestView::Nothing,
        ),
{
    lemma_commands_differ();
    lemma_words(word, peer, rest);
}

/// The exchange is asked for with our public key and our HELLO, whatever session there was: from then
/// on the chat waits for the HELLO of that peer, to be checked against the key that is stored for it,
/// if one is. Nothing else changes.
pub proof fn law_securing_waits_for_the_peer(
    s: ChatView,
    peer: Seq<char>,
    stored: Map<Seq<char>, Seq<char>>,
    secret: Seq<u8>,
)
    ensures
        s.identity is None ==> command::secured(s, peer, stored, secret) == chat::said(
            s,
            "[error] REGISTER first."@,
            Color::Red,
        ),
        s.identity is Some ==> ({
            let t = command::secured(s, peer, stored, secret);
            let known = stored.dom().contains(peer) && stored[peer].len() > 0;
            &&& t.session == SecureView::AwaitingHello {
                secret,
                peer,
                key: if stored.dom().contains(peer) {
                    stored[peer]
                } else {
                    Seq::empty()
                },
            }
            &&& t == (ChatView {
                session: t.session,
                messages: t.messages,
                outbox: t.outbox,
                ..s
            })
            &&& t.messages == chat::said(
                s,
                if known {
                    "[handshake] Sent PUBKEY + HELLO to "@ + peer
                        + " (key already known). Awaiting their HELLO..."@
                } else {
                    "[handshake] Sent PUBKEY + HELLO to "@ + peer
                        + ". Waiting for their PUBKEY..."@
                },
                Color::Yellow,
            ).messages
        }),
{
    reveal_strlit("");
    assert(""@ =~= Seq::<char>::empty());
}

/// REGISTER and a name ask for the identity of that user, and the chat stays as it is until then.
/// Without a name it is refused.
pub proof fn law_register_asks_for_the_identity(
    s: ChatView,
    word: Seq<char>,
    name: Seq<char>,
    rest: Seq<char>,
    nonce: Seq<u8>,
)
    requires
        !word.contains(' '),
        !name.contains(' '),
    ensures
        command::after_word(s, "REGISTER"@, word + " "@ + name, nonce) == (
            s,
            RequestView::LoadIdentity { username: name },
        ),
        command::after_word(s, "REGISTER"@, word + " "@ + name + " "@ + rest, nonce) == (
            s,
            RequestView::LoadIdentity { username: name },
        ),
        command::after_word(s, "REGISTER"@, word, nonce) == (
            chat::said(s, "[error] Usage: REGISTER <username>"@, Color::Red),
            RequestView::Nothing,
        ),
{
    lemma_commands_differ();
    lemma_words(word, name, rest);
}

/// An identity that was loaded is ours from then on, and its fingerprint is shown. Without a link one is
/// asked for, to the relay's own address; with one we are registered at once. The session and the
/// peers' keys stay. An identity that could not be loaded leaves all as it was, and the reason is shown.
pub proof fn law_loaded_identity_is_ours(
    s: ChatView,
    username: Seq<char>,
    loaded: Result<IdentityView, Seq<char>>,
)
    ensures
        ({
            let (t, request) = command::after_loading(s, username, loaded);
            match loaded {
                Ok(id) => {
                    let key = primitives::b64_text(primitives::ed25519_public(id.seed));
                    let shown = chat::said(
                        s,
                        "Identity key loaded. Fingerprint: "@ + key.take(16) + "..."@,
                        Color::Yellow,
                    );
                    &&& t.identity == Some(id)
                    &&& t == (ChatView {
                        identity: t.identity,
                        messages: t.messages,
                        outbox: t.outbox,
                        ..s
                    })
                    &&& s.connection is Disconnected ==> t.messages == shown.messages && request
                        == RequestView::ConnectToRegister {
                        username,
                        host: "192.168.1.160"@,
                        port: 5000,
                    }
                    &&& !(s.connection is Disconnected) ==> request == RequestView::Nothing
                        && t.messages == chat::said(
                        chat::said(
                            shown,
                            "[system] Registered. Run: SECURE <peer> to start an encrypted session."@,
                            Color::DarkGray,
                        ),
                        "[system] Your key fingerprint: "@ + key.take(24) + "..."@,
                        Color::DarkGray,
                    ).messages
                },
                Err(e) => request == RequestView::Nothing && t == chat::said(
                    s,
                    "[error] Key load failed: "@ + e,
                    Color::Red,
                ),
            }
        }),
{
}

/// A connection that was opened links the chat to the relay, for a registration too; one that could not
/// be opened leaves all as it was, and the reason is shown. Identity, session and the peers' keys stay.
pub proof fn law_opened_connection_links_the_chat(
    s: ChatView,
    username: Seq<char>,
    outcome: Result<(), Seq<char>>,
)
    ensures
        outcome matches Err(e) ==> command::after_connecting(s, outcome) == chat::said(
            s,
            "[system] "@ + e,
            Color::Red,
        ) && command::after_registering(s, username, outcome) == chat::said(
            s,
            "[system] "@ + e,
            Color::Red,
        ),
        outcome is Ok ==> command::after_connecting(s, outcome) == chat::said(
            ChatView { linked: true, connection: ConnectionView::Connected, ..s },
            "[system] Connected to relay server."@,
            Color::Yellow,
        ),
        outcome is Ok ==> ({
            let t = command::after_registering(s, username, outcome);
            &&& t == (ChatView {
                linked: true,
                connection: ConnectionView::Connected,
                messages: t.messages,
                outbox: t.outbox,
                ..s
            })
            &&& s.identity matches Some(id) ==> t.messages == chat::said(
                chat::said(
                    s,
                    "[system] Registered. Run: SECURE <peer> to start an encrypted session."@,
                    Color::DarkGray,
                ),
                "[system] Your key fingerprint: "@ + primitives::b64_text(
                    primitives::ed25519_public(id.seed),
                ).take(24) + "..."@,
                Color::DarkGray,
            ).messages
        }),
{
}

/// What registering puts on the wire, written out: the name, and our public key for every peer.
pub proof fn law_registration_written_out(s: ChatView, username: Seq<char>, id: IdentityView)
    requires
        s.identity == Some(id),
    ensures
        command::after_registering(s, username, Ok(())).outbox == s.outbox.push(
            "REGISTER "@ + username,
        ).push("MSG * PUBKEY "@ + primitives::b64_text(primitives::ed25519_public(id.seed))),
{
    reveal_strlit("MSG ");
    reveal_strlit("*");
    reveal_strlit(" PUBKEY ");
    reveal_strlit("MSG * PUBKEY ");
    assert("MSG "@ + "*"@ + " PUBKEY "@ =~= "MSG * PUBKEY "@);
}

/// PUBKEY and a name send our public key to that peer, whatever the session, which stays. Without a
/// name or an identity it is refused.
pub proof fn law_pubkey_sends_our_key(
    s: ChatView,
    word: Seq<char>,
    peer: Seq<char>,
    rest: Seq<char>,
    nonce: Seq<u8>,
)
    requires
        !word.contains(' '),
        !peer.contains(' '),
    ensures
        s.identity matches Some(id) ==> {
            let told = chat::said(
                chat::sent(
                    s,
                    "MSG "@ + peer + " PUBKEY "@ + primitives::b64_text(
                        primitives::ed25519_public(id.seed),
                    ),
                ),
                "[system] Public key sent to "@ + peer + "."@,
                Color::DarkGray,
            );
            &&& command::after_word(s, "PUBKEY"@, word + " "@ + peer, nonce) == (
                told,
                RequestView::Nothing,
            )
            &&& command::after_word(s, "PUBKEY"@, word + " "@ + peer + " "@ + rest, nonce) == (
                told,
                RequestView::Nothing,
            )
        },
        s.identity is None ==> command::after_word(s, "PUBKEY"@, word + " "@ + peer, nonce) == (
            chat::said(s, "[error] Not registered yet."@, Color::Red),
            RequestView::Nothing,
        ),
        command::after_word(s, "PUBKEY"@, word, nonce) == (
            chat::said(s, "[error] Usage: PUBKEY <username>"@, Color::Red),
            RequestView::Nothing,
        ),
{
    lemma_commands_differ();
    lemma_words(word, peer, rest);
}

/// CONNECT asks for a connection to the host and the port that are named, or to the relay's own where
/// none is, or where the port is no number below 65536; the chat stays as it is until then.
pub proof fn law_connect_asks_for_a_connection(
    s: ChatView,
    word: Seq<char>,
    host: Seq<char>,
    port: Seq<char>,
    nonce: Seq<u8>,
)
    requires
        !word.contains(' '),
        !host.contains(' '),
    ensures
        command::after_word(s, "CONNECT"@, word, nonce) == (
            s,
            RequestView::Connect { host: "192.168.1.160"@, port: 5000 },
        ),
        command::after_word(s, "CONNECT"@, word + " "@ + host, nonce) == (
            s,
            RequestView::Connect { host, port: 5000 },
        ),
        command::after_word(s, "CONNECT"@, word + " "@ + host + " "@ + port, nonce) == (
            s,
            RequestView::Connect {
                host,
                port: match text::parsed(port, false, 0, 65_535) {
                    Some(p) => p as u16,
                    None => 5000,
                },
            },
        ),
{
    lemma_commands_differ();
    lemma_words(word, host, port);
}

/// LIST goes to the relay as it is, whatever the session, which stays, and whatever stands behind it.
pub proof fn law_list_asks_the_relay(s: ChatView, raw: Seq<char>, nonce: Seq<u8>)
    ensures
        command::after_word(s, "LIST"@, raw, nonce) == (
            chat::said(chat::sent(s, "LIST"@), "[you] LIST"@, Color::DarkGray),
            RequestView::Nothing,
        ),
        command::after_word(s, "LIST"@, raw, nonce).0.session == s.session,
        s.linked ==> command::after_word(s, "LIST"@, raw, nonce).0.outbox == s.outbox.push("LIST"@),
{
    lemma_commands_differ();
}

/// QUIT tells the relay, gives up the link and the session, and keeps the identity, the peers' keys and
/// the log.
pub proof fn law_quit_keeps_the_rest(s: ChatView, raw: Seq<char>, nonce: Seq<u8>)
    ensures
        command::after_word(s, "QUIT"@, raw, nonce) == (
            ChatView {
                linked: false,
                connection: ConnectionView::Disconnected,
                session: SecureView::NoSession,
                ..chat::said(chat::sent(s, "QUIT"@), "[system] Disconnected."@, Color::Yellow)
            },
            RequestView::Nothing,
        ),
{
    lemma_commands_differ();
}

/// The chat after a text went out to the peer of a session: the sending chain has moved on, the line to
/// the peer holds the text as the session seals it, and the log shows it.
pub open spec fn message_sent(
    s: ChatView,
    keys: SessionView,
    plaintext: Seq<char>,
    shown: Seq<char>,
    nonce: Seq<u8>,
) -> ChatView {
    let key = primitives::hkdf_sha256(keys.send, encode_utf8("timetracker-v1-msgkey"@), 32);
    let next = primitives::hkdf_sha256(keys.send, encode_utf8("timetracker-v1-ratchet"@), 32);
    let wire = primitives::b64_text(
        nonce + primitives::aead_sealed(key, nonce, encode_utf8(plaintext)),
    );
    chat::said(
        chat::sent(
            ChatView {
                session: SecureView::Established(
                    SessionView { peer: keys.peer, send: next, recv: keys.recv },
                ),
                ..s
            },
            "MSG "@ + keys.peer + " ENC "@ + wire,
        ),
        shown,
        Color::Cyan,
    )
}

/// The name under which our messages are shown.
pub open spec fn own_name(s: ChatView) -> Seq<char> {
    match s.connection {
        ConnectionView::Registered(name) => name,
        _ => "me"@,
    }
}

/// A line that is no command goes, in a session, to its peer as it is typed, sealed on the ratchet, and
/// is shown under our name. Outside a session it is refused, and the commands are told.
pub proof fn law_typed_text_goes_to_the_peer(
    s: ChatView,
    cmd: Seq<char>,
    raw: Seq<char>,
    nonce: Seq<u8>,
)
    requires
        !names_command(cmd),
        encode_utf8(raw).len() <= 1_000_000_000,
    ensures
        s.session matches SecureView::Established(keys) ==> command::after_word(
            s,
            cmd,
            raw,
            nonce,
        ) == (
            message_sent(s, keys, raw, own_name(s) + ": "@ + raw, nonce),
            RequestView::Nothing,
        ),
        !(s.session is Established) ==> command::after_word(s, cmd, raw, nonce) == (
            chat::said(
                chat::said(s, "[error] Unknown command: "@ + raw, Color::Red),
                "[help] REGISTER <name>  SECURE <peer>  MSG <peer> <text>  LIST  QUIT"@,
                Color::DarkGray,
            ),
            RequestView::Nothing,
        ),
{
    session::law_messages_of_all_sizes_are_sealed(
        if s.session is Established {
            s.session->Established_0.send
        } else {
            Seq::empty()
        },
        nonce,
        raw,
    );
}

/// MSG, a name and a text send that text to the peer of the session, sealed on the ratchet, and it is
/// shown with both names. To any other name nothing is sent, and without a text it is refused; then all
/// stays as it was.
pub proof fn law_msg_goes_to_the_peer_alone(
    s: ChatView,
    word: Seq<char>,
    peer: Seq<char>,
    plaintext: Seq<char>,
    nonce: Seq<u8>,
)
    requires
        !word.contains(' '),
        !peer.contains(' '),
        encode_utf8(plaintext).len() <= 1_000_000_000,
    ensures
        s.session matches SecureView::Established(keys) ==> keys.peer == peer ==> command::after_word(
            s,
            "MSG"@,
            word + " "@ + peer + " "@ + plaintext,
            nonce,
        ) == (
            message_sent(
                s,
                keys,
                plaintext,
                own_name(s) + " → "@ + peer + (": "@ + plaintext),
                nonce,
            ),
            RequestView::Nothing,
        ),
        !(s.session is Established && s.session->Established_0.peer == peer) ==> command::after_word(
            s,
            "MSG"@,
            word + " "@ + peer + " "@ + plaintext,
            nonce,
        ) == (
            chat::said(
                s,
                "[error] No secure session with "@ + peer + ". Run: SECURE "@ + peer,
                Color::Red,
            ),
            RequestView::Nothing,
        ),
        command::after_word(s, "MSG"@, word, nonce) == (
            chat::said(s, "[error] Usage: MSG <recipient> <message>"@, Color::Red),
            RequestView::Nothing,
        ),
        command::after_word(s, "MSG"@, word + " "@ + peer, nonce) == (
            chat::said(s, "[error] Usage: MSG <recipient> <message>"@, Color::Red),
            RequestView::Nothing,
        ),
{
    lemma_commands_differ();
    lemma_words(word, peer, plaintext);
    session::law_messages_of_all_sizes_are_sealed(
        if s.session is Established {
            s.session->Established_0.send
        } else {
            Seq::empty()
        },
        nonce,
        plaintext,
    );
}

/// A text that cannot be sealed is not sent: the reason is shown, and the sending chain has moved on.
pub proof fn law_text_that_cannot_be_sealed_stays(
    s: ChatView,
    keys: SessionView,
    cmd: Seq<char>,
    raw: Seq<char>,
    nonce: Seq<u8>,
    e: Seq<char>,
)
    requires
        !names_command(cmd),
        s.session == SecureView::Established(keys),
        session::sealed(keys.send, nonce, raw) == Err::<Seq<char>, Seq<char>>(e),
    ensures
        command::after_word(s, cmd, raw, nonce) == (
            chat::said(
                ChatView {
                    session: SecureView::Established(
                        SessionView {
                            send: primitives::hkdf_sha256(
                                keys.send,
                                encode_utf8("timetracker-v1-ratchet"@),
                                32,
                            ),
                            ..keys
                        },
                    ),
                    ..s
                },
                "[encrypt error] "@ + e,
                Color::Red,
            ),
            RequestView::Nothing,
        ),
{
}

/// No line that is typed changes the identity, the peers' keys or the text that is being typed; only
/// QUIT changes the link, and only QUIT and a message to the peer change the session, the message by
/// its sending chain alone.
pub proof fn law_typing_changes_no_more(
    s: ChatView,
    cmd: Seq<char>,
    raw: Seq<char>,
    nonce: Seq<u8>,
)
    ensures
        ({
            let t = command::after_word(s, cmd, raw, nonce).0;
            &&& t.identity == s.identity
            &&& t.known == s.known
            &&& t.unsaved == s.unsaved
            &&& t.input == s.input
            &&& cmd != "QUIT"@ ==> t.linked == s.linked && t.connection == s.connection
            &&& cmd != "QUIT"@ && names_command(cmd) && cmd != "MSG"@ ==> t.session == s.session
            &&& cmd != "QUIT"@ ==> (s.session matches SecureView::Established(keys) ==> (
            t.session matches SecureView::Established(after) && after.peer == keys.peer
                && after.recv == keys.recv))
            &&& cmd != "QUIT"@ && !(s.session is Established) ==> t.session == s.session
        }),
{
    lemma_commands_differ();
}

/// The text that goes to the peer of the session is the line itself if it is no command, and behind MSG
/// and the name of the peer what follows; no other line holds one, and without a session none does.
pub proof fn law_text_for_the_peer(
    s: ChatView,
    keys: SessionView,
    cmd: Seq<char>,
    raw: Seq<char>,
    word: Seq<char>,
    peer: Seq<char>,
    plaintext: Seq<char>,
)
    requires
        !word.contains(' '),
        !peer.contains(' '),
    ensures
        s.session == SecureView::Established(keys) && !names_command(cmd) ==> command::text_for_peer(
            s,
            cmd,
            raw,
        ) == Some(raw),
        s.session == SecureView::Established(keys) && keys.peer == peer ==> command::text_for_peer(
            s,
            "MSG"@,
            word + " "@ + peer + " "@ + plaintext,
        ) == Some(plaintext),
        s.session == SecureView::Established(keys) && keys.peer != peer ==> command::text_for_peer(
            s,
            "MSG"@,
            word + " "@ + peer + " "@ + plaintext,
        ) is None,
        names_command(cmd) && cmd != "MSG"@ ==> command::text_for_peer(s, cmd, raw) is None,
        !(s.session is Established) ==> command::text_for_peer(s, cmd, raw) is None,
{
    lemma_commands_differ();
    lemma_words(word, peer, plaintext);
}

/// That the peer can read a line says that what is sealed for it opens, on the chain on which it was
/// sealed, to the text that the line holds for the peer.
pub proof fn law_what_the_peer_can_read(
    s: ChatView,
    keys: SessionView,
    cmd: Seq<char>,
    raw: Seq<char>,
    nonce: Seq<u8>,
    plaintext: Seq<char>,
    wire: Seq<char>,
)
    requires
        command::word_can_be_read(s, cmd, raw, nonce),
        command::text_for_peer(s, cmd, raw) == Some(plaintext),
        s.session == SecureView::Established(keys),
        session::sealed(keys.send, nonce, plaintext) == Ok::<Seq<char>, Seq<char>>(wire),
    ensures
        session::opened(keys.send, wire) == Ok::<Seq<char>, Seq<char>>(plaintext),
        primitives::b64_bytes(wire) is Some,
        primitives::b64_bytes(wire)->Some_0.len() >= 12,
{
}

/// A nonce or a secret that is given is the one that is used, and a nonce has twelve bytes.
pub proof fn law_given_values_are_used(
    nonce: Option<[u8; 12]>,
    bytes: Seq<u8>,
    fresh: Option<Handshake>,
    secret: Seq<u8>,
)
    ensures
        chat::given_nonce(nonce, bytes) ==> bytes.len() == 12,
        chat::given_nonce(nonce, bytes) ==> (nonce matches Some(n) ==> bytes == n@),
        chat::given_secret(fresh, secret) ==> (fresh matches Some(h) ==> secret == h@),
{
}

/// What asking for the exchange puts on the wire, written out: our public key, and our ephemeral key
/// with our signature over it, both to the peer.
pub proof fn law_introduction_written_out(
    s: ChatView,
    id: IdentityView,
    peer: Seq<char>,
    stored: Map<Seq<char>, Seq<char>>,
    secret: Seq<u8>,
)
    requires
        s.linked,
        s.identity == Some(id),
        !id.username.contains(' '),
        !primitives::b64_text(primitives::x25519_public(secret)).contains(' '),
    ensures
        command::secured(s, peer, stored, secret).outbox == s.outbox.push(
            "MSG "@ + peer + " PUBKEY "@ + primitives::b64_text(
                primitives::ed25519_public(id.seed),
            ),
        ).push(
            "MSG "@ + peer + " HELLO "@ + primitives::b64_text(primitives::x25519_public(secret))
                + (" "@ + primitives::b64_text(
                primitives::ed25519_signature(
                    id.seed,
                    encode_utf8("HELLO"@) + primitives::x25519_public(secret),
                ),
            )),
        ),
{
    exchange::lemma_hello_words(id, secret);
}

} // verus!
