//! What holds of the chat whatever is typed and whatever the relay says. A typed line is `raw`, and
//! `cmd` is its first word in capitals.

use crate::chat::{self, ChatView, Color, SecureView};
use crate::command::{self, RequestView};
use crate::handshake;
use crate::identity::IdentityView;
use crate::known_users;
use crate::session;
use crate::text;
use vstd::prelude::*;

verus! {

/// Whether `t` has the lines of `s` for the relay, and behind them only lines that `allowed` holds
/// of.
pub open spec fn sends_only(s: ChatView, t: ChatView, allowed: spec_fn(Seq<char>) -> bool) -> bool {
    &&& s.outbox.len() <= t.outbox.len()
    &&& forall|i: int| 0 <= i < s.outbox.len() ==> #[trigger] t.outbox[i] == s.outbox[i]
    &&& forall|i: int| s.outbox.len() <= i < t.outbox.len() ==> allowed(#[trigger] t.outbox[i])
}

/// The HELLO of an identity, as it goes out to `peer`.
pub open spec fn hello_line_to(peer: Seq<char>, id: IdentityView, secret: Seq<u8>) -> Seq<char> {
    let words = text::split(handshake::hello_text(id, secret), 4);
    chat::hello_wire(peer, words[2], words[3])
}

/// Whether a line carries a text that the session of `s` sealed, and goes to the peer of that
/// session.
pub open spec fn is_ciphertext_line(s: ChatView, line: Seq<char>) -> bool {
    s.session matches SecureView::Established(keys) && exists|
        nonce: Seq<u8>,
        plaintext: Seq<char>,
    |
        (#[trigger] session::sealed(keys.send, nonce, plaintext)) matches Ok(ciphertext) && line
            == "MSG "@ + keys.peer + " ENC "@ + ciphertext
}

/// Whether a line for the relay carries no text of the user: a name, a request, a public key or a
/// HELLO of our identity.
pub open spec fn is_control_line(s: ChatView, line: Seq<char>) -> bool {
    ||| line == "LIST"@
    ||| line == "QUIT"@
    ||| exists|name: Seq<char>| line == #[trigger] register_line(name)
    ||| s.identity matches Some(id) && exists|peer: Seq<char>|
        line == #[trigger] chat::pubkey_line(peer, id)
    ||| s.identity matches Some(id) && exists|peer: Seq<char>, secret: Seq<u8>|
        line == #[trigger] hello_line_to(peer, id, secret)
}

/// The line that tells the relay our name.
pub open spec fn register_line(name: Seq<char>) -> Seq<char> {
    "REGISTER "@ + name
}

/// The relay is sent names, requests, public keys and HELLOs, and of what the user types only
/// ciphertext: whatever line is typed, each line that it adds for the relay is a control line or one
/// that the session sealed, for the peer of that session.
pub proof fn law_typing_sends_no_plaintext(
    s: ChatView,
    cmd: Seq<char>,
    raw: Seq<char>,
    nonce: Seq<u8>,
)
    ensures
        sends_only(
            s,
            command::after_word(s, cmd, raw, nonce).0,
            |line: Seq<char>| is_control_line(s, line) || is_ciphertext_line(s, line),
        ),
{
    let words = text::split(raw, 3);
    if let SecureView::Established(keys) = s.session {
        lemma_sent_text(s, raw, chat::my_name(s) + ": "@ + raw, nonce);
        if words.len() >= 3 {
            lemma_sent_text(
                s,
                words[2],
                chat::my_name(s) + " → "@ + words[1] + (": "@ + words[2]),
                nonce,
            );
        }
    }
    if let Some(id) = s.identity {
        if words.len() > 1 {
            assert(is_control_line(s, chat::pubkey_line(words[1], id)));
        }
    }
}

proof fn lemma_sent_text(
    s: ChatView,
    plaintext: Seq<char>,
    shown: Seq<char>,
    nonce: Seq<u8>,
)
    requires
        s.session is Established,
    ensures
        sends_only(
            s,
            chat::after_sending_text(s, chat::peer_of(s)->Some_0, plaintext, shown, nonce),
            |line: Seq<char>| is_ciphertext_line(s, line),
        ),
{
    if let SecureView::Established(keys) = s.session {
        if let Ok(ciphertext) = session::sealed(keys.send, nonce, plaintext) {
            assert(is_ciphertext_line(s, "MSG "@ + keys.peer + " ENC "@ + ciphertext));
        }
    }
}

/// Whatever comes in from the relay, each line that it makes us send is a control line.
pub proof fn law_answers_are_control_lines(s: ChatView, line: Seq<char>, fresh: Seq<u8>)
    ensures
        sends_only(
            s,
            chat::after_line(s, line, fresh),
            |l: Seq<char>| is_control_line(s, l),
        ),
{
    let words = text::split(line.skip("FROM "@.len() as int), 3);
    lemma_introduction(
        ChatView { session: SecureView::NoSession, ..s },
        chat::word(words, 0),
        fresh,
    );
}

/// Starting a handshake sends control lines alone.
pub proof fn law_securing_sends_control_lines(
    s: ChatView,
    peer: Seq<char>,
    stored: Map<Seq<char>, Seq<char>>,
    secret: Seq<u8>,
)
    ensures
        sends_only(
            s,
            command::secured(s, peer, stored, secret),
            |l: Seq<char>| is_control_line(s, l),
        ),
{
    lemma_introduction(s, peer, secret);
}

proof fn lemma_introduction(s: ChatView, peer: Seq<char>, secret: Seq<u8>)
    ensures
        sends_only(s, chat::introduced(s, peer, secret), |l: Seq<char>| is_control_line(s, l)),
{
    if let Some(id) = s.identity {
        assert(is_control_line(s, chat::pubkey_line(peer, id)));
        assert(is_control_line(s, hello_line_to(peer, id, secret)));
    }
}

/// What registering sends: the name, and behind it the public key of the identity for every peer.
pub open spec fn registration(username: Seq<char>, id: IdentityView) -> Seq<Seq<char>> {
    seq![register_line(username), chat::pubkey_line(command::EVERYONE@, id)]
}

/// Registering sends the name and our public key, in this order and nothing else, whether the link
/// was there or is opened for it; where the key could not be loaded or the link not be opened, it
/// sends nothing.
pub proof fn law_registering_sends_name_and_key(
    s: ChatView,
    username: Seq<char>,
    loaded: Result<IdentityView, Seq<char>>,
    outcome: Result<(), Seq<char>>,
)
    ensures
        command::after_loading(s, username, loaded).0.outbox == match loaded {
            Ok(id) => if s.linked && s.connection !is Disconnected {
                s.outbox + registration(username, id)
            } else {
                s.outbox
            },
            Err(_) => s.outbox,
        },
        command::after_registering(s, username, outcome).outbox == match (outcome, s.identity) {
            (Ok(_), Some(id)) => s.outbox + registration(username, id),
            (Ok(_), None) => s.outbox.push(register_line(username)),
            (Err(_), _) => s.outbox,
        },
        command::after_connecting(s, outcome).outbox == s.outbox,
{
    if let Ok(id) = loaded {
        assert(s.outbox + registration(username, id) =~= s.outbox.push(
            register_line(username),
        ).push(chat::pubkey_line(command::EVERYONE@, id)));
    }
    if let Some(id) = s.identity {
        assert(s.outbox + registration(username, id) =~= s.outbox.push(
            register_line(username),
        ).push(chat::pubkey_line(command::EVERYONE@, id)));
    }
}

/// What registering sends is control lines of the identity that it is done with.
pub proof fn law_registration_is_control_lines(s: ChatView, username: Seq<char>, id: IdentityView)
    requires
        s.identity == Some(id),
    ensures
        forall|i: int|
            0 <= i < registration(username, id).len() ==> is_control_line(
                s,
                #[trigger] registration(username, id)[i],
            ),
{
    assert(is_control_line(s, register_line(username)));
    if let Some(own) = s.identity {
        assert(is_control_line(s, chat::pubkey_line(command::EVERYONE@, own)));
    }
}

/// Without an established session nothing that is typed leaves as a message.
pub proof fn law_no_session_no_message(
    s: ChatView,
    cmd: Seq<char>,
    raw: Seq<char>,
    nonce: Seq<u8>,
)
    requires
        chat::peer_of(s) is None,
    ensures
        sends_only(
            s,
            command::after_word(s, cmd, raw, nonce).0,
            |line: Seq<char>| is_control_line(s, line),
        ),
{
    law_typing_sends_no_plaintext(s, cmd, raw, nonce);
    let t = command::after_word(s, cmd, raw, nonce).0;
    let allowed = |line: Seq<char>| is_control_line(s, line) || is_ciphertext_line(s, line);
    assert forall|i: int| s.outbox.len() <= i < t.outbox.len() implies is_control_line(
        s,
        #[trigger] t.outbox[i],
    ) by {
        assert(allowed(t.outbox[i]));
    }
}

/// Without a link to the relay nothing is sent.
pub proof fn law_no_link_no_line(
    s: ChatView,
    cmd: Seq<char>,
    raw: Seq<char>,
    nonce: Seq<u8>,
    line: Seq<char>,
    fresh: Seq<u8>,
    peer: Seq<char>,
    stored: Map<Seq<char>, Seq<char>>,
)
    requires
        !s.linked,
    ensures
        command::after_word(s, cmd, raw, nonce).0.outbox == s.outbox,
        chat::after_line(s, line, fresh).outbox == s.outbox,
        command::secured(s, peer, stored, fresh).outbox == s.outbox,
{
}

/// QUIT ends the session and the link: after it nothing is sent until there is a link again.
pub proof fn law_quit_ends_all(s: ChatView, raw: Seq<char>, nonce: Seq<u8>)
    ensures
        !command::after_word(s, "QUIT"@, raw, nonce).0.linked,
        command::after_word(s, "QUIT"@, raw, nonce).0.session is NoSession,
        command::after_word(s, "QUIT"@, raw, nonce).0.connection is Disconnected,
        command::after_word(s, "QUIT"@, raw, nonce).1 is Nothing,
        s.linked ==> command::after_word(s, "QUIT"@, raw, nonce).0.outbox == s.outbox.push("QUIT"@),
{
    reveal_strlit("CONNECT");
    reveal_strlit("REGISTER");
    reveal_strlit("PUBKEY");
    reveal_strlit("SECURE");
    reveal_strlit("LIST");
    reveal_strlit("QUIT");
    reveal_strlit("MSG");
    assert("CONNECT"@.len() == 7 && "REGISTER"@.len() == 8 && "PUBKEY"@.len() == 6
        && "SECURE"@.len() == 6 && "QUIT"@.len() == 4 && "MSG"@.len() == 3);
    assert("LIST"@[0] == 'L' && "QUIT"@[0] == 'Q');
}

/// The names that a command passes on are single words, so that they survive on the wire.
pub proof fn law_names_are_words(
    s: ChatView,
    cmd: Seq<char>,
    raw: Seq<char>,
    nonce: Seq<u8>,
)
    ensures
        match command::after_word(s, cmd, raw, nonce).1 {
            RequestView::LoadIdentity { username } => !username.contains(' '),
            RequestView::ReadKnownUsers { peer } => !peer.contains(' '),
            _ => true,
        },
{
    let words = text::split(raw, 3);
    if words.len() > 1 {
        text::lemma_split_is_words(raw, 3, 1);
    }
}

/// The log never holds more than its two hundred lines.
pub proof fn law_log_is_bounded(
    s: ChatView,
    cmd: Seq<char>,
    raw: Seq<char>,
    nonce: Seq<u8>,
    line: Seq<char>,
    fresh: Seq<u8>,
    peer: Seq<char>,
    stored: Map<Seq<char>, Seq<char>>,
    loaded: Result<IdentityView, Seq<char>>,
    outcome: Result<(), Seq<char>>,
)
    requires
        s.messages.len() <= chat::LOG_LINES,
    ensures
        command::after_word(s, cmd, raw, nonce).0.messages.len() <= chat::LOG_LINES,
        chat::after_line(s, line, fresh).messages.len() <= chat::LOG_LINES,
        command::secured(s, peer, stored, fresh).messages.len() <= chat::LOG_LINES,
        command::after_loading(s, peer, loaded).0.messages.len() <= chat::LOG_LINES,
        command::after_registering(s, peer, outcome).messages.len() <= chat::LOG_LINES,
        command::after_connecting(s, outcome).messages.len() <= chat::LOG_LINES,
{
}

/// The newest line of the log is the one that was said last.
pub proof fn law_latest_line_is_kept(s: ChatView, line: Seq<char>, color: Color)
    ensures
        chat::said(s, line, color).messages.len() > 0,
        chat::said(s, line, color).messages.last() == (line, color),
{
}

/// A key that differs from the stored one ends any session and handshake, replaces nothing and is
/// answered with nothing.
pub proof fn law_key_change_ends_session(s: ChatView, sender: Seq<char>, key: Seq<char>)
    requires
        s.known.dom().contains(sender),
        s.known[sender] != key,
    ensures
        chat::after_pubkey(s, sender, key).session is NoSession,
        chat::after_pubkey(s, sender, key).known == s.known,
        chat::after_pubkey(s, sender, key).outbox == s.outbox,
        chat::after_pubkey(s, sender, key).messages.last() == (
            known_users::mismatch_warning(sender, s.known[sender], key),
            Color::Red,
        ),
{
}

/// Nothing that comes in replaces the key that is stored for a name.
pub proof fn law_line_keeps_stored_keys(
    s: ChatView,
    line: Seq<char>,
    fresh: Seq<u8>,
    name: Seq<char>,
)
    requires
        s.known.dom().contains(name),
    ensures
        chat::after_line(s, line, fresh).known.dom().contains(name),
        chat::after_line(s, line, fresh).known[name] == s.known[name],
{
}

/// The key against which a HELLO of `sender` is checked.
pub open spec fn key_for(s: ChatView, sender: Seq<char>) -> Seq<char> {
    if chat::initiated(s.session, sender) {
        s.session->key
    } else {
        s.known[sender]
    }
}

/// A session comes of a HELLO only where the key that we hold for its sender vouches for it, and it
/// is one with that sender.
pub proof fn law_session_needs_a_signed_hello(
    s: ChatView,
    sender: Seq<char>,
    payload: Seq<char>,
    fresh: Seq<u8>,
)
    requires
        chat::after_hello(s, sender, payload, fresh).session is Established,
    ensures
        chat::initiated(s.session, sender) || s.known.dom().contains(sender),
        handshake::checked_hello(
            key_for(s, sender),
            chat::payload_key(payload),
            chat::payload_signature(payload),
        ) is Ok,
        chat::peer_of(chat::after_hello(s, sender, payload, fresh)) == Some(sender),
{
}

/// A HELLO that the key which we hold for its sender does not vouch for is not answered: no line goes
/// out, and there is no session.
pub proof fn law_unsigned_hello_is_not_answered(
    s: ChatView,
    sender: Seq<char>,
    payload: Seq<char>,
    fresh: Seq<u8>,
)
    requires
        handshake::checked_hello(
            key_for(s, sender),
            chat::payload_key(payload),
            chat::payload_signature(payload),
        ) is Err,
    ensures
        chat::after_hello(s, sender, payload, fresh).outbox == s.outbox,
        chat::after_hello(s, sender, payload, fresh).session !is Established,
        !chat::lacks_key(s.session, sender) ==> chat::after_hello(
            s,
            sender,
            payload,
            fresh,
        ).session is NoSession,
        chat::after_hello(s, sender, payload, fresh).messages.last().1 == Color::Red,
{
}

/// Only a HELLO establishes a session: after any other line there is one only if there was one with
/// the same peer before.
pub proof fn law_only_a_hello_opens_a_session(s: ChatView, line: Seq<char>, fresh: Seq<u8>)
    requires
        chat::hello_in(line) is None,
        chat::after_line(s, line, fresh).session is Established,
    ensures
        s.session is Established,
        chat::peer_of(chat::after_line(s, line, fresh)) == chat::peer_of(s),
{
}

} // verus!
