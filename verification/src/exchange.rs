//! What two chats reach together: the key exchange ends in one session on both sides, and what one
//! types the other reads.

use crate::chat::{self, ChatView, Color, SecureView};
use crate::command;
use crate::handshake;
use crate::identity::IdentityView;
use crate::primitives;
use crate::session;
use crate::text;
use crate::typing;
use vstd::prelude::*;

verus! {

/// The line with which the relay passes on what `from` sent.
pub open spec fn delivered(from: Seq<char>, kind: Seq<char>, payload: Seq<char>) -> Seq<char> {
    "FROM "@ + from + " "@ + (kind + " "@ + payload)
}

/// The payload of a HELLO.
pub open spec fn hello_payload(id: IdentityView, secret: Seq<u8>) -> Seq<char> {
    handshake::hello_key_text(secret) + " "@ + handshake::hello_signature_text(id, secret)
}

/// What the relay passes on reaches the chat as sender, kind and payload.
pub proof fn lemma_delivered(
    s: ChatView,
    from: Seq<char>,
    kind: Seq<char>,
    payload: Seq<char>,
    fresh: Seq<u8>,
)
    requires
        !from.contains(' '),
        !kind.contains(' '),
    ensures
        chat::after_line(s, delivered(from, kind, payload), fresh) == chat::after_message(
            s,
            from,
            kind,
            payload,
            fresh,
        ),
{
    let line = delivered(from, kind, payload);
    reveal_strlit("FROM ");
    reveal_strlit("INFO ");
    reveal_strlit("ERROR ");
    reveal_strlit("USERLIST ");
    reveal_strlit(" ");
    assert(" "@ =~= seq![' ']);
    assert(line[0] == 'F');
    assert("INFO "@[0] == 'I');
    assert("ERROR "@[0] == 'E');
    assert("USERLIST "@[0] == 'U');
    assert("FROM "@.len() == 5);
    assert(text::stripped(line, "INFO "@) is None) by {
        if "INFO "@.is_prefix_of(line) {
            assert(line.subrange(0, "INFO "@.len() as int)[0] == line[0]);
        }
    }
    assert(text::stripped(line, "ERROR "@) is None) by {
        if "ERROR "@.is_prefix_of(line) {
            assert(line.subrange(0, "ERROR "@.len() as int)[0] == line[0]);
        }
    }
    assert(text::stripped(line, "USERLIST "@) is None) by {
        if "USERLIST "@.is_prefix_of(line) {
            assert(line.subrange(0, "USERLIST "@.len() as int)[0] == line[0]);
        }
    }
    assert("FROM "@.is_prefix_of(line)) by {
        assert(line.subrange(0, 5) =~= "FROM "@);
    }
    let rest = from + seq![' '] + (kind + seq![' '] + payload);
    assert(line.skip(5) =~= rest);
    text::lemma_split_word(from, kind + seq![' '] + payload, 3);
    text::lemma_split_word(kind, payload, 2);
    let words = text::split(rest, 3);
    assert(text::split(payload, 1) == seq![payload]);
    assert(words =~= seq![from, kind, payload]);
}

/// The four words of a HELLO.
pub proof fn lemma_hello_words(id: IdentityView, secret: Seq<u8>)
    requires
        !id.username.contains(' '),
        !handshake::hello_key_text(secret).contains(' '),
    ensures
        text::split(handshake::hello_text(id, secret), 4) == seq![
            "HELLO"@,
            id.username,
            handshake::hello_key_text(secret),
            handshake::hello_signature_text(id, secret),
        ],
{
    let key = handshake::hello_key_text(secret);
    let sig = handshake::hello_signature_text(id, secret);
    reveal_strlit("HELLO ");
    reveal_strlit("HELLO");
    reveal_strlit(" ");
    assert(" "@ =~= seq![' ']);
    assert("HELLO "@ =~= "HELLO"@ + seq![' ']);
    assert(!"HELLO"@.contains(' ')) by {
        assert("HELLO"@ =~= seq!['H', 'E', 'L', 'L', 'O']);
    }
    let tail3 = key + seq![' '] + sig;
    let tail2 = id.username + seq![' '] + tail3;
    assert(handshake::hello_text(id, secret) =~= "HELLO"@ + seq![' '] + tail2);
    text::lemma_split_word("HELLO"@, tail2, 4);
    text::lemma_split_word(id.username, tail3, 3);
    text::lemma_split_word(key, sig, 2);
    assert(text::split(sig, 1) == seq![sig]);
    assert(text::split(handshake::hello_text(id, secret), 4) =~= seq!["HELLO"@, id.username, key, sig]);
}

/// The two words in the payload of a HELLO.
proof fn lemma_payload_words(id: IdentityView, secret: Seq<u8>)
    requires
        !handshake::hello_key_text(secret).contains(' '),
    ensures
        chat::payload_key(hello_payload(id, secret)) == handshake::hello_key_text(secret),
        chat::payload_signature(hello_payload(id, secret)) == handshake::hello_signature_text(
            id,
            secret,
        ),
{
    let key = handshake::hello_key_text(secret);
    let sig = handshake::hello_signature_text(id, secret);
    reveal_strlit(" ");
    assert(" "@ =~= seq![' ']);
    text::lemma_split_word(key, sig, 2);
    assert(text::split(sig, 1) == seq![sig]);
    assert(text::split(hello_payload(id, secret), 2) =~= seq![key, sig]);
}

/// The three kinds of message that a client sends to a peer are single words.
pub proof fn lemma_kinds()
    ensures
        !"PUBKEY"@.contains(' '),
        !"HELLO"@.contains(' '),
        !"ENC"@.contains(' '),
        "PUBKEY"@ != "HELLO"@,
        "PUBKEY"@ != "ENC"@,
        "HELLO"@ != "ENC"@,
{
    reveal_strlit("PUBKEY");
    reveal_strlit("HELLO");
    reveal_strlit("ENC");
    assert("PUBKEY"@ =~= seq!['P', 'U', 'B', 'K', 'E', 'Y']);
    assert("HELLO"@ =~= seq!['H', 'E', 'L', 'L', 'O']);
    assert("ENC"@ =~= seq!['E', 'N', 'C']);
}

/// Whether no key but that of `id` is stored for `name`.
pub open spec fn no_other_key(
    known: Map<Seq<char>, Seq<char>>,
    name: Seq<char>,
    id: IdentityView,
) -> bool {
    known.dom().contains(name) ==> known[name] == command::key_text(id)
}

/// The chat that asked `bob_name` for a session.
#[verifier::opaque]
pub open spec fn asking(
    alice: ChatView,
    bob_name: Seq<char>,
    stored: Map<Seq<char>, Seq<char>>,
    a: Seq<u8>,
) -> ChatView {
    command::secured(alice, bob_name, stored, a)
}

/// The chat that was asked, after the two lines of the one who asks came in.
#[verifier::opaque]
pub open spec fn answering(
    bob: ChatView,
    alice_name: Seq<char>,
    alice_id: IdentityView,
    a: Seq<u8>,
    b: Seq<u8>,
) -> ChatView {
    let told = chat::after_line(
        bob,
        delivered(alice_name, "PUBKEY"@, command::key_text(alice_id)),
        b,
    );
    chat::after_line(told, delivered(alice_name, "HELLO"@, hello_payload(alice_id, a)), b)
}

/// The chat that asked, after the two lines of the answer came in.
#[verifier::opaque]
pub open spec fn concluding(
    asked: ChatView,
    bob_name: Seq<char>,
    bob_id: IdentityView,
    b: Seq<u8>,
) -> ChatView {
    let learnt = chat::after_line(
        asked,
        delivered(bob_name, "PUBKEY"@, command::key_text(bob_id)),
        b,
    );
    chat::after_line(learnt, delivered(bob_name, "HELLO"@, hello_payload(bob_id, b)), b)
}

/// One side asks for a session, the other answers, and the relay passes the four lines on: both end
/// with a session with each other in which each sends on the chain on which the other receives.
///
/// `a` and `b` are the secrets of the two sides. That their HELLOs hold and that they share one
/// secret is what `secure_with` and `process_server_line_with` ensure of them.
pub proof fn law_exchange_agrees(
    alice: ChatView,
    bob: ChatView,
    alice_name: Seq<char>,
    bob_name: Seq<char>,
    alice_id: IdentityView,
    bob_id: IdentityView,
    stored: Map<Seq<char>, Seq<char>>,
    a: Seq<u8>,
    b: Seq<u8>,
)
    requires
        alice.linked,
        bob.linked,
        alice.identity == Some(alice_id),
        bob.identity == Some(bob_id),
        !alice_name.contains(' '),
        !bob_name.contains(' '),
        !alice_id.username.contains(' '),
        !bob_id.username.contains(' '),
        no_other_key(stored, bob_name, bob_id),
        no_other_key(alice.known, bob_name, bob_id),
        no_other_key(bob.known, alice_name, alice_id),
        !chat::initiated(bob.session, alice_name),
    ensures
        handshake::hello_holds(alice_id, a) && handshake::hello_holds(bob_id, b)
            && handshake::share(a, b) ==> ({
            let asked = asking(alice, bob_name, stored, a);
            let answered = answering(bob, alice_name, alice_id, a, b);
            let done = concluding(asked, bob_name, bob_id, b);
            &&& asked.outbox == alice.outbox + seq![
                "MSG "@ + bob_name + " PUBKEY "@ + command::key_text(alice_id),
                "MSG "@ + bob_name + " HELLO "@ + hello_payload(alice_id, a),
            ]
            &&& answered.outbox == bob.outbox + seq![
                "MSG "@ + alice_name + " PUBKEY "@ + command::key_text(bob_id),
                "MSG "@ + alice_name + " HELLO "@ + hello_payload(bob_id, b),
            ]
            &&& chat::peer_of(done) == Some(bob_name)
            &&& chat::peer_of(answered) == Some(alice_name)
            &&& session::mirrored(done.session->Established_0, answered.session->Established_0)
        }),
{
    if handshake::hello_holds(alice_id, a) && handshake::hello_holds(bob_id, b)
        && handshake::share(a, b) {
        lemma_asks(alice, bob_name, alice_id, stored, a);
        lemma_answers(bob, alice_name, alice_id, bob_id, a, b);
        let asked = asking(alice, bob_name, stored, a);
        let key = if stored.dom().contains(bob_name) {
            stored[bob_name]
        } else {
            ""@
        };
        lemma_concludes(asked, bob_name, bob_id, key, a, b);
    }
}

/// The one who asks sends a public key and a HELLO and waits.
proof fn lemma_asks(
    alice: ChatView,
    bob_name: Seq<char>,
    alice_id: IdentityView,
    stored: Map<Seq<char>, Seq<char>>,
    a: Seq<u8>,
)
    requires
        alice.linked,
        alice.identity == Some(alice_id),
        !alice_id.username.contains(' '),
        handshake::hello_holds(alice_id, a),
    ensures
        ({
            let asked = asking(alice, bob_name, stored, a);
            &&& asked.outbox == alice.outbox + seq![
                "MSG "@ + bob_name + " PUBKEY "@ + command::key_text(alice_id),
                "MSG "@ + bob_name + " HELLO "@ + hello_payload(alice_id, a),
            ]
            &&& asked.session == SecureView::AwaitingHello {
                secret: a,
                peer: bob_name,
                key: if stored.dom().contains(bob_name) {
                    stored[bob_name]
                } else {
                    ""@
                },
            }
            &&& asked.known == alice.known
        }),
{
    reveal(asking);
    lemma_hello_words(alice_id, a);
    lemma_hello_wire(bob_name, alice_id, a);
    let asked = command::secured(alice, bob_name, stored, a);
    assert(asked.outbox =~= alice.outbox + seq![
        "MSG "@ + bob_name + " PUBKEY "@ + command::key_text(alice_id),
        "MSG "@ + bob_name + " HELLO "@ + hello_payload(alice_id, a),
    ]);
}

/// A HELLO on its way is the word, the peer and the payload.
proof fn lemma_hello_wire(peer: Seq<char>, id: IdentityView, secret: Seq<u8>)
    ensures
        chat::hello_wire(
            peer,
            handshake::hello_key_text(secret),
            handshake::hello_signature_text(id, secret),
        ) == "MSG "@ + peer + " HELLO "@ + hello_payload(id, secret),
{
    assert(chat::hello_wire(
        peer,
        handshake::hello_key_text(secret),
        handshake::hello_signature_text(id, secret),
    ) =~= "MSG "@ + peer + " HELLO "@ + hello_payload(id, secret));
}

/// The one who is asked learns the public key, answers with a public key and a HELLO, and has a
/// session.
proof fn lemma_answers(
    bob: ChatView,
    alice_name: Seq<char>,
    alice_id: IdentityView,
    bob_id: IdentityView,
    a: Seq<u8>,
    b: Seq<u8>,
)
    requires
        bob.linked,
        bob.identity == Some(bob_id),
        !alice_name.contains(' '),
        !bob_id.username.contains(' '),
        no_other_key(bob.known, alice_name, alice_id),
        !chat::initiated(bob.session, alice_name),
        handshake::hello_holds(alice_id, a),
        handshake::hello_holds(bob_id, b),
    ensures
        ({
            let answered = answering(bob, alice_name, alice_id, a, b);
            &&& answered.outbox == bob.outbox + seq![
                "MSG "@ + alice_name + " PUBKEY "@ + command::key_text(bob_id),
                "MSG "@ + alice_name + " HELLO "@ + hello_payload(bob_id, b),
            ]
            &&& answered.session == SecureView::Established(
                handshake::session_from(
                    alice_name,
                    primitives::x25519_shared(b, primitives::x25519_public(a)),
                    false,
                ),
            )
        }),
{
    reveal(answering);
    let key = command::key_text(alice_id);
    lemma_kinds();
    lemma_delivered(bob, alice_name, "PUBKEY"@, key, b);
    let told = chat::after_line(bob, delivered(alice_name, "PUBKEY"@, key), b);
    assert(told == chat::after_pubkey(bob, alice_name, key));
    assert(told.known.dom().contains(alice_name) && told.known[alice_name] == key);
    assert(told.session == bob.session && told.outbox == bob.outbox && told.linked
        && told.identity == bob.identity);
    lemma_delivered(told, alice_name, "HELLO"@, hello_payload(alice_id, a), b);
    lemma_payload_words(alice_id, a);
    lemma_hello_words(bob_id, b);
    lemma_hello_wire(alice_name, bob_id, b);
    let answered = chat::after_hello(told, alice_name, hello_payload(alice_id, a), b);
    assert(answered.outbox =~= bob.outbox + seq![
        "MSG "@ + alice_name + " PUBKEY "@ + command::key_text(bob_id),
        "MSG "@ + alice_name + " HELLO "@ + hello_payload(bob_id, b),
    ]);
}

/// The one who asked learns the public key, takes the HELLO, and has a session.
proof fn lemma_concludes(
    asked: ChatView,
    bob_name: Seq<char>,
    bob_id: IdentityView,
    key: Seq<char>,
    a: Seq<u8>,
    b: Seq<u8>,
)
    requires
        asked.session == (SecureView::AwaitingHello { secret: a, peer: bob_name, key }),
        key == ""@ || key == command::key_text(bob_id),
        !bob_name.contains(' '),
        no_other_key(asked.known, bob_name, bob_id),
        handshake::hello_holds(bob_id, b),
    ensures
        concluding(asked, bob_name, bob_id, b).session == SecureView::Established(
            handshake::session_from(
                bob_name,
                primitives::x25519_shared(a, primitives::x25519_public(b)),
                true,
            ),
        ),
{
    reveal(concluding);
    let told = command::key_text(bob_id);
    reveal_strlit("");
    lemma_kinds();
    lemma_delivered(asked, bob_name, "PUBKEY"@, told, b);
    let learnt = chat::after_line(asked, delivered(bob_name, "PUBKEY"@, told), b);
    assert(learnt == chat::after_pubkey(asked, bob_name, told));
    assert(learnt.session == SecureView::AwaitingHello { secret: a, peer: bob_name, key: told });
    lemma_delivered(learnt, bob_name, "HELLO"@, hello_payload(bob_id, b), b);
    lemma_payload_words(bob_id, b);
}

/// What one side of a session types the other reads, and both are in step again. The line is `raw`, and
/// `cmd` its first word in capitals.
///
/// That the peer can read what is sealed is what `dispatch_chat_command_with` ensures.
pub proof fn law_message_arrives(
    alice: ChatView,
    bob: ChatView,
    alice_name: Seq<char>,
    cmd: Seq<char>,
    raw: Seq<char>,
    nonce: Seq<u8>,
    fresh: Seq<u8>,
)
    requires
        alice.linked,
        alice.session is Established,
        bob.session is Established,
        session::mirrored(alice.session->Established_0, bob.session->Established_0),
        !alice_name.contains(' '),
        command::text_for_peer(alice, cmd, raw) is Some,
    ensures
        ({
            let keys = alice.session->Established_0;
            let plaintext = command::text_for_peer(alice, cmd, raw)->Some_0;
            let sealed = session::sealed(keys.send, nonce, plaintext);
            let after = command::after_word(alice, cmd, raw, nonce).0;
            let heard = chat::after_line(bob, delivered(alice_name, "ENC"@, sealed->Ok_0), fresh);
            sealed is Ok && command::word_can_be_read(alice, cmd, raw, nonce) ==> {
                &&& after.outbox == alice.outbox.push(
                    "MSG "@ + keys.peer + " ENC "@ + sealed->Ok_0,
                )
                &&& heard.messages.last() == (alice_name + ": "@ + plaintext, Color::Green)
                &&& after.session is Established
                &&& heard.session is Established
                &&& session::mirrored(after.session->Established_0, heard.session->Established_0)
            }
        }),
{
    let keys = alice.session->Established_0;
    let plaintext = command::text_for_peer(alice, cmd, raw)->Some_0;
    let sealed = session::sealed(keys.send, nonce, plaintext);
    if sealed is Ok {
        lemma_kinds();
        lemma_delivered(bob, alice_name, "ENC"@, sealed->Ok_0, fresh);
        command::lemma_msg_differs();
    }
}

/// What is no command and is typed in a session the other side reads as it was typed, under the name of
/// the one who typed it, and both are in step again. The line is `raw`, and `cmd` its first word in
/// capitals.
///
/// That what is sealed on a chain opens on it is what `encrypt_with_nonce` ensures.
pub proof fn law_typed_text_is_read(
    alice: ChatView,
    bob: ChatView,
    alice_name: Seq<char>,
    cmd: Seq<char>,
    raw: Seq<char>,
    nonce: Seq<u8>,
    fresh: Seq<u8>,
    a: session::SessionView,
    b: session::SessionView,
    wire: Seq<char>,
)
    requires
        alice.linked,
        alice.session == SecureView::Established(a),
        bob.session == SecureView::Established(b),
        a.send == b.recv,
        a.recv == b.send,
        !alice_name.contains(' '),
        !typing::names_command(cmd),
        session::sealed(a.send, nonce, raw) == Ok::<Seq<char>, Seq<char>>(wire),
        session::opened(a.send, wire) == Ok::<Seq<char>, Seq<char>>(raw),
    ensures
        ({
            let after = command::after_word(alice, cmd, raw, nonce).0;
            let heard = chat::after_line(bob, delivered(alice_name, "ENC"@, wire), fresh);
            &&& after.outbox == alice.outbox.push("MSG "@ + a.peer + " ENC "@ + wire)
            &&& heard.messages.last() == (alice_name + ": "@ + raw, Color::Green)
            &&& after.session matches SecureView::Established(x)
            &&& heard.session matches SecureView::Established(y)
            &&& x.send == y.recv
            &&& x.recv == y.send
            &&& x.peer == a.peer
            &&& y.peer == b.peer
        }),
{
    lemma_kinds();
    lemma_delivered(bob, alice_name, "ENC"@, wire, fresh);
    session::law_only_what_opens_is_read(a.send, wire, raw);
}

} // verus!
