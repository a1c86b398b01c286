//! What each line from the relay does, whatever the state of the chat.

use crate::chat::{self, ChatView, Color, ConnectionView, SecureView};
use crate::exchange;
use crate::handshake;
use crate::identity::IdentityView;
use crate::known_users;
use crate::primitives;
use crate::session::{self, SessionView};
use crate::text;
use vstd::prelude::*;
use vstd::utf8::*;

verus! {

/// The words with which lines of the relay begin.
proof fn lemma_heads_differ(rest: Seq<char>)
    ensures
        text::stripped("INFO "@ + rest, "INFO "@) == Some(rest),
        text::stripped("ERROR "@ + rest, "INFO "@) is None,
        text::stripped("ERROR "@ + rest, "ERROR "@) == Some(rest),
        text::stripped("USERLIST "@ + rest, "INFO "@) is None,
        text::stripped("USERLIST "@ + rest, "ERROR "@) is None,
        text::stripped("USERLIST "@ + rest, "USERLIST "@) == Some(rest),
{
    reveal_strlit("INFO ");
    reveal_strlit("ERROR ");
    reveal_strlit("USERLIST ");
    assert("INFO "@[0] == 'I' && "ERROR "@[0] == 'E' && "USERLIST "@[0] == 'U');
    text::law_prefix_is_taken_off("INFO "@ + rest, "INFO "@, rest);
    text::law_prefix_is_taken_off("ERROR "@ + rest, "ERROR "@, rest);
    text::law_prefix_is_taken_off("USERLIST "@ + rest, "USERLIST "@, rest);
    let e = "ERROR "@ + rest;
    let u = "USERLIST "@ + rest;
    assert(e[0] == 'E' && u[0] == 'U');
    if "INFO "@.is_prefix_of(e) {
        assert(e.subrange(0, "INFO "@.len() as int)[0] == e[0]);
    }
    if "INFO "@.is_prefix_of(u) {
        assert(u.subrange(0, "INFO "@.len() as int)[0] == u[0]);
    }
    if "ERROR "@.is_prefix_of(u) {
        assert(u.subrange(0, "ERROR "@.len() as int)[0] == u[0]);
    }
}

/// What the relay tells is shown, and nothing else changes; only when it tells that we are registered
/// do we have the name that it gives.
pub proof fn law_relay_is_listened_to(s: ChatView, rest: Seq<char>, name: Seq<char>, fresh: Seq<u8>)
    ensures
        text::stripped(rest, "Registered as "@) is None ==> chat::after_line(
            s,
            "INFO "@ + rest,
            fresh,
        ) == chat::said(s, "[server] "@ + rest, Color::DarkGray),
        chat::after_line(s, "INFO "@ + ("Registered as "@ + name), fresh) == chat::said(
            ChatView { connection: ConnectionView::Registered(text::trimmed(name)), ..s },
            "[server] "@ + ("Registered as "@ + name),
            Color::DarkGray,
        ),
        chat::after_line(s, "ERROR "@ + rest, fresh) == chat::said(
            s,
            "[error] "@ + rest,
            Color::Red,
        ),
        chat::after_line(s, "USERLIST "@ + rest, fresh) == chat::said(
            s,
            "[online] "@ + rest,
            Color::Cyan,
        ),
{
    lemma_heads_differ(rest);
    lemma_heads_differ("Registered as "@ + name);
    text::law_prefix_is_taken_off("Registered as "@ + name, "Registered as "@, name);
}

/// A line that begins with none of the words of the relay is shown as it is.
pub proof fn law_other_lines_are_shown(s: ChatView, line: Seq<char>, fresh: Seq<u8>)
    requires
        text::stripped(line, "INFO "@) is None,
        text::stripped(line, "ERROR "@) is None,
        text::stripped(line, "USERLIST "@) is None,
        text::stripped(line, "FROM "@) is None,
    ensures
        chat::after_line(s, line, fresh) == chat::said(s, line, Color::White),
{
}

/// Whether the chat waits for the HELLO of `sender`, and does not have its key yet.
pub open spec fn waits_for_key(s: ChatView, sender: Seq<char>) -> bool {
    s.session matches SecureView::AwaitingHello { secret, peer, key } && peer == sender && key.len()
        == 0
}

/// The public key of a peer that is not known is stored, to be kept, and this is shown. That of a known
/// one is verified if it is the stored one. If the chat waits for this key, the peer's HELLO will be
/// checked against it; any other session or exchange stays. Nothing is sent.
pub proof fn law_public_keys_are_trusted_on_first_use(
    s: ChatView,
    sender: Seq<char>,
    key: Seq<char>,
    fresh: Seq<u8>,
)
    requires
        !sender.contains(' '),
        s.known.dom().contains(sender) ==> s.known[sender] == key,
    ensures
        ({
            let t = chat::after_line(s, exchange::delivered(sender, "PUBKEY"@, key), fresh);
            let told = if s.known.dom().contains(sender) {
                chat::said(s, sender + " identity key verified (matches stored)."@, Color::Green)
            } else {
                chat::said(
                    s,
                    "First contact with "@ + sender + " - key trusted and stored (TOFU)."@,
                    Color::Yellow,
                )
            };
            &&& t.known == s.known.insert(sender, key)
            &&& t.unsaved == (s.unsaved || !s.known.dom().contains(sender))
            &&& t == (ChatView {
                known: t.known,
                unsaved: t.unsaved,
                messages: t.messages,
                session: t.session,
                ..s
            })
            &&& waits_for_key(s, sender) ==> t.session == SecureView::AwaitingHello {
                secret: s.session->secret,
                peer: sender,
                key,
            } && t.messages == chat::said(
                told,
                "[handshake] Received "@ + sender + "'s public key. Awaiting their HELLO..."@,
                Color::DarkGray,
            ).messages
            &&& !waits_for_key(s, sender) ==> t.session == s.session && t.messages == told.messages
        }),
{
    exchange::lemma_kinds();
    exchange::lemma_delivered(s, sender, "PUBKEY"@, key, fresh);
    if s.known.dom().contains(sender) {
        assert(s.known.insert(sender, key) =~= s.known);
    }
}

/// A public key that differs from the stored one is warned of. It ends any session and exchange, and
/// nothing else changes; nothing is sent.
pub proof fn law_changed_keys_end_the_session(
    s: ChatView,
    sender: Seq<char>,
    key: Seq<char>,
    fresh: Seq<u8>,
)
    requires
        !sender.contains(' '),
        s.known.dom().contains(sender),
        s.known[sender] != key,
    ensures
        chat::after_line(s, exchange::delivered(sender, "PUBKEY"@, key), fresh) == (ChatView {
            session: SecureView::NoSession,
            ..chat::said(
                s,
                known_users::checked(s.known, sender, key)->Err_0,
                Color::Red,
            )
        }),
{
    exchange::lemma_kinds();
    exchange::lemma_delivered(s, sender, "PUBKEY"@, key, fresh);
}

proof fn lemma_hello(
    s: ChatView,
    sender: Seq<char>,
    eph: Seq<char>,
    sig: Seq<char>,
    fresh: Seq<u8>,
)
    requires
        !sender.contains(' '),
        !eph.contains(' '),
    ensures
        chat::after_line(s, exchange::delivered(sender, "HELLO"@, eph + " "@ + sig), fresh)
            == chat::after_hello(s, sender, eph + " "@ + sig, fresh),
        chat::payload_key(eph + " "@ + sig) == eph,
        chat::payload_signature(eph + " "@ + sig) == sig,
{
    exchange::lemma_kinds();
    exchange::lemma_delivered(s, sender, "HELLO"@, eph + " "@ + sig, fresh);
    law_payload_is_key_and_signature(eph, sig);
}

/// The payload of a HELLO is the ephemeral key up to the first space, and the signature behind it,
/// which is nothing where there is no space.
pub proof fn law_payload_is_key_and_signature(eph: Seq<char>, sig: Seq<char>)
    requires
        !eph.contains(' '),
    ensures
        chat::payload_key(eph + " "@ + sig) == eph,
        chat::payload_signature(eph + " "@ + sig) == sig,
        chat::payload_key(eph) == eph,
        chat::payload_signature(eph).len() == 0,
{
    reveal_strlit(" ");
    reveal_strlit("");
    assert(" "@ =~= seq![' ']);
    text::lemma_split_word(eph, sig, 2);
    assert(text::split(sig, 1) == seq![sig]);
    assert(text::split(eph + seq![' '] + sig, 2) =~= seq![eph, sig]);
}

/// The HELLO for which the chat waits makes the session, as the one who asked, if the peer's key vouches
/// for it, and else ends the exchange; nothing is sent. Before the key is known it is not taken.
pub proof fn law_awaited_hello_makes_the_session(
    s: ChatView,
    secret: Seq<u8>,
    sender: Seq<char>,
    key: Seq<char>,
    eph: Seq<char>,
    sig: Seq<char>,
    fresh: Seq<u8>,
)
    requires
        !sender.contains(' '),
        !eph.contains(' '),
        s.session == (SecureView::AwaitingHello { secret, peer: sender, key }),
    ensures
        ({
            let t = chat::after_line(s, exchange::delivered(sender, "HELLO"@, eph + " "@ + sig), fresh);
            if key.len() == 0 {
                t == chat::said(
                    s,
                    "[handshake] Received HELLO from "@ + sender
                        + " before their PUBKEY - re-run SECURE."@,
                    Color::Red,
                )
            } else {
                match handshake::checked_hello(key, eph, sig) {
                    Ok(public) => t == (ChatView {
                        session: SecureView::Established(
                            handshake::session_from(
                                sender,
                                primitives::x25519_shared(secret, public),
                                true,
                            ),
                        ),
                        ..chat::said(
                            s,
                            "Secure session established with "@ + sender
                                + " (ChaCha20-Poly1305 + ratchet)"@,
                            Color::Green,
                        )
                    }),
                    Err(e) => t == (ChatView {
                        session: SecureView::NoSession,
                        ..chat::said(s, "[handshake error] "@ + e, Color::Red)
                    }),
                }
            }
        }),
{
    lemma_hello(s, sender, eph, sig, fresh);
}

/// A HELLO for which the chat does not wait makes the session, as the one who was asked, if the key that
/// is stored for its sender vouches for it, whatever session there was, and is answered with our public
/// key and our HELLO. If it does not, or if no key is stored, there is no session any more, and nothing
/// is sent.
pub proof fn law_unasked_hello_is_answered(
    s: ChatView,
    sender: Seq<char>,
    eph: Seq<char>,
    sig: Seq<char>,
    fresh: Seq<u8>,
)
    requires
        !sender.contains(' '),
        !eph.contains(' '),
        !(s.session is AwaitingHello && s.session->peer == sender),
    ensures
        ({
            let t = chat::after_line(s, exchange::delivered(sender, "HELLO"@, eph + " "@ + sig), fresh);
            if !s.known.dom().contains(sender) {
                t == (ChatView {
                    session: SecureView::NoSession,
                    ..chat::said(
                        s,
                        "[error] Got HELLO from "@ + sender
                            + " but no public key stored. They should re-run SECURE."@,
                        Color::Red,
                    )
                })
            } else {
                match handshake::checked_hello(s.known[sender], eph, sig) {
                    Ok(public) => t == (ChatView {
                        session: SecureView::Established(
                            handshake::session_from(
                                sender,
                                primitives::x25519_shared(fresh, public),
                                false,
                            ),
                        ),
                        outbox: t.outbox,
                        ..chat::said(
                            s,
                            "Secure session established with "@ + sender
                                + " (ChaCha20-Poly1305 + ratchet)"@,
                            Color::Green,
                        )
                    }),
                    Err(e) => t == (ChatView {
                        session: SecureView::NoSession,
                        ..chat::said(s, "[handshake error] "@ + e, Color::Red)
                    }),
                }
            }
        }),
{
    lemma_hello(s, sender, eph, sig, fresh);
}

/// The answer to a HELLO that holds, as it goes out: our public key, and our ephemeral key with the
/// signature over it.
pub proof fn law_answer_written_out(
    s: ChatView,
    id: IdentityView,
    sender: Seq<char>,
    eph: Seq<char>,
    sig: Seq<char>,
    fresh: Seq<u8>,
)
    requires
        !sender.contains(' '),
        !eph.contains(' '),
        !(s.session is AwaitingHello && s.session->peer == sender),
        s.known.dom().contains(sender),
        handshake::checked_hello(s.known[sender], eph, sig) is Ok,
        s.linked,
        s.identity == Some(id),
        !id.username.contains(' '),
        !primitives::b64_text(primitives::x25519_public(fresh)).contains(' '),
    ensures
        chat::after_line(s, exchange::delivered(sender, "HELLO"@, eph + " "@ + sig), fresh).outbox
            == s.outbox.push(
            "MSG "@ + sender + " PUBKEY "@ + primitives::b64_text(
                primitives::ed25519_public(id.seed),
            ),
        ).push(
            "MSG "@ + sender + " HELLO "@ + primitives::b64_text(primitives::x25519_public(fresh))
                + (" "@ + primitives::b64_text(
                primitives::ed25519_signature(
                    id.seed,
                    encode_utf8("HELLO"@) + primitives::x25519_public(fresh),
                ),
            )),
        ),
{
    lemma_hello(s, sender, eph, sig, fresh);
    exchange::lemma_hello_words(id, fresh);
}

/// An encrypted message in a session is read on the receiving chain, which moves on if the payload has
/// at least a nonce; what it says is shown under the name of its sender, or the reason why it cannot be
/// read. Nothing else changes, and the session stays. Without a session it is refused.
pub proof fn law_encrypted_messages_are_read(
    s: ChatView,
    sender: Seq<char>,
    wire: Seq<char>,
    fresh: Seq<u8>,
)
    requires
        !sender.contains(' '),
    ensures
        s.session matches SecureView::Established(keys) ==> {
            let t = chat::after_line(s, exchange::delivered(sender, "ENC"@, wire), fresh);
            let moved = ChatView {
                session: SecureView::Established(
                    SessionView {
                        recv: if primitives::b64_bytes(wire) is Some && primitives::b64_bytes(
                            wire,
                        )->Some_0.len() >= 12 {
                            primitives::hkdf_sha256(
                                keys.recv,
                                encode_utf8("timetracker-v1-ratchet"@),
                                32,
                            )
                        } else {
                            keys.recv
                        },
                        ..keys
                    },
                ),
                ..s
            };
            match session::opened(keys.recv, wire) {
                Ok(plaintext) => t == chat::said(moved, sender + ": "@ + plaintext, Color::Green),
                Err(e) => t == chat::said(moved, "[decrypt error] "@ + e, Color::Red),
            }
        },
        !(s.session is Established) ==> chat::after_line(s, exchange::delivered(sender, "ENC"@, wire), fresh)
            == chat::said(
            s,
            "[error] Got encrypted message from "@ + sender
                + " but no secure session active - run SECURE "@ + (sender + " first"@),
            Color::Red,
        ),
{
    exchange::lemma_kinds();
    exchange::lemma_delivered(s, sender, "ENC"@, wire, fresh);
}

/// What a peer sends in plain is shown as such, and nothing else changes.
pub proof fn law_plain_messages_are_marked(
    s: ChatView,
    sender: Seq<char>,
    kind: Seq<char>,
    payload: Seq<char>,
    fresh: Seq<u8>,
)
    requires
        !sender.contains(' '),
        !kind.contains(' '),
        kind != "PUBKEY"@ && kind != "HELLO"@ && kind != "ENC"@,
    ensures
        chat::after_line(s, exchange::delivered(sender, kind, payload), fresh) == chat::said(
            s,
            "[plain/"@ + kind + "] "@ + (sender + ": "@ + kind + (" "@ + payload)),
            Color::Yellow,
        ),
{
    exchange::lemma_delivered(s, sender, kind, payload, fresh);
}

/// No line of the relay changes our identity, the link or the text that is being typed, and none takes a
/// stored key away.
pub proof fn law_hearing_changes_no_more(
    s: ChatView,
    line: Seq<char>,
    fresh: Seq<u8>,
    name: Seq<char>,
)
    ensures
        ({
            let t = chat::after_line(s, line, fresh);
            &&& t.identity == s.identity
            &&& t.linked == s.linked
            &&& t.input == s.input
            &&& s.unsaved ==> t.unsaved
            &&& t.known != s.known ==> t.unsaved
            &&& s.known.dom().contains(name) ==> t.known.dom().contains(name) && t.known[name]
                == s.known[name]
            &&& text::stripped(line, "INFO "@) is None ==> t.connection == s.connection
        }),
{
}

/// A HELLO goes out to a peer by its third and fourth word, and what has fewer than four words does not
/// go out.
pub proof fn law_hello_goes_out_by_its_last_words(
    s: ChatView,
    peer: Seq<char>,
    head: Seq<char>,
    name: Seq<char>,
    eph: Seq<char>,
    sig: Seq<char>,
)
    requires
        !head.contains(' '),
        !name.contains(' '),
        !eph.contains(' '),
    ensures
        chat::greeted(s, peer, head + " "@ + name + " "@ + eph + " "@ + sig) == chat::sent(
            s,
            "MSG "@ + peer + " HELLO "@ + eph + (" "@ + sig),
        ),
        chat::greeted(s, peer, head + " "@ + name + " "@ + eph) == s,
        chat::greeted(s, peer, head + " "@ + name) == s,
        chat::greeted(s, peer, head) == s,
{
    reveal_strlit(" ");
    assert(" "@ =~= seq![' ']);
    let sp = seq![' '];
    assert(text::split(sig, 1) == seq![sig]);
    assert(text::split(eph, 2) == seq![eph]);
    assert(text::split(name, 3) == seq![name]);
    text::lemma_split_word(eph, sig, 2);
    text::lemma_split_word(name, eph + sp + sig, 3);
    text::lemma_split_word(head, name + sp + (eph + sp + sig), 4);
    assert(head + sp + name + sp + eph + sp + sig =~= head + sp + (name + sp + (eph + sp + sig)));
    assert(text::split(head + sp + name + sp + eph + sp + sig, 4) =~= seq![head, name, eph, sig]);
    text::lemma_split_word(name, eph, 3);
    text::lemma_split_word(head, name + sp + eph, 4);
    assert(head + sp + name + sp + eph =~= head + sp + (name + sp + eph));
    assert(text::split(head + sp + name + sp + eph, 4) =~= seq![head, name, eph]);
    text::lemma_split_word(head, name, 4);
    assert(text::split(head + sp + name, 4) =~= seq![head, name]);
    assert(text::split(head, 4) =~= seq![head]);
}

/// Without an identity a HELLO is answered with nothing.
pub proof fn law_no_answer_without_identity(s: ChatView, line: Seq<char>, fresh: Seq<u8>)
    requires
        s.identity is None,
    ensures
        chat::after_line(s, line, fresh).outbox == s.outbox,
{
}

/// What is missing in a line that passes something on counts as empty.
pub proof fn law_missing_words_are_empty(
    s: ChatView,
    sender: Seq<char>,
    kind: Seq<char>,
    fresh: Seq<u8>,
)
    requires
        !sender.contains(' '),
        !kind.contains(' '),
    ensures
        chat::after_line(s, "FROM "@ + sender + " "@ + kind, fresh) == chat::after_line(
            s,
            exchange::delivered(sender, kind, Seq::empty()),
            fresh,
        ),
        chat::after_line(s, "FROM "@ + sender, fresh) == chat::after_line(
            s,
            exchange::delivered(sender, Seq::empty(), Seq::empty()),
            fresh,
        ),
{
    reveal_strlit(" ");
    reveal_strlit("");
    reveal_strlit("FROM ");
    reveal_strlit("INFO ");
    reveal_strlit("ERROR ");
    reveal_strlit("USERLIST ");
    assert(" "@ =~= seq![' ']);
    assert(""@ =~= Seq::<char>::empty());
    assert("FROM "@[0] == 'F' && "INFO "@[0] == 'I' && "ERROR "@[0] == 'E' && "USERLIST "@[0] == 'U');
    let none = Seq::<char>::empty();
    exchange::lemma_delivered(s, sender, kind, none, fresh);
    exchange::lemma_delivered(s, sender, none, none, fresh);
    let two = sender + seq![' '] + kind;
    lemma_from(two);
    lemma_from(sender);
    assert("FROM "@ + sender + " "@ + kind =~= "FROM "@ + two);
    text::lemma_split_word(sender, kind, 3);
    assert(text::split(kind, 2) == seq![kind]);
    assert(text::split(two, 3) =~= seq![sender, kind]);
    assert(text::split(sender, 3) =~= seq![sender]);
}

proof fn lemma_from(rest: Seq<char>)
    ensures
        text::stripped("FROM "@ + rest, "INFO "@) is None,
        text::stripped("FROM "@ + rest, "ERROR "@) is None,
        text::stripped("FROM "@ + rest, "USERLIST "@) is None,
        text::stripped("FROM "@ + rest, "FROM "@) == Some(rest),
{
    reveal_strlit("FROM ");
    reveal_strlit("INFO ");
    reveal_strlit("ERROR ");
    reveal_strlit("USERLIST ");
    let line = "FROM "@ + rest;
    assert(line[0] == 'F');
    assert("INFO "@[0] == 'I' && "ERROR "@[0] == 'E' && "USERLIST "@[0] == 'U');
    if "INFO "@.is_prefix_of(line) {
        assert(line.subrange(0, "INFO "@.len() as int)[0] == line[0]);
    }
    if "ERROR "@.is_prefix_of(line) {
        assert(line.subrange(0, "ERROR "@.len() as int)[0] == line[0]);
    }
    if "USERLIST "@.is_prefix_of(line) {
        assert(line.subrange(0, "USERLIST "@.len() as int)[0] == line[0]);
    }
    text::law_prefix_is_taken_off(line, "FROM "@, rest);
}

} // verus!
