use secure_chat::chat::{ChatConnectionState, ChatState, Color, SecureSessionState};
use secure_chat::command::Request;
use secure_chat::handshake::Handshake;
use secure_chat::identity::Identity;
use secure_chat::known_users::{KnownUser, KnownUsers};
use secure_chat::session::SessionKeys;

fn last(chat: &ChatState) -> (String, Color) {
    chat.messages().last().unwrap().clone()
}

fn registered(name: &str, seed: u8) -> ChatState {
    let mut chat = ChatState::new(KnownUsers::new());
    let id = Identity::from_seed(name, [seed; 32]);
    let key = id.public_key_b64();
    assert!(matches!(chat.identity_loaded(name, Ok(id)), Request::ConnectToRegister { .. }));
    chat.finish_register(name, Ok(()));
    chat.process_server_line(&format!("INFO Registered as {}", name));
    assert_eq!(
        chat.take_outbox(),
        vec![format!("REGISTER {}", name), format!("MSG * PUBKEY {}", key)]
    );
    chat
}

/// What the relay makes of a line of `from`.
fn relayed(from: &str, line: &str) -> String {
    let words: Vec<&str> = line.splitn(3, ' ').collect();
    assert_eq!(words[0], "MSG");
    format!("FROM {} {}", from, words[2])
}

fn pass_on(from: &str, sender: &mut ChatState, receiver: &mut ChatState) {
    for line in sender.take_outbox() {
        let line = relayed(from, &line);
        receiver.process_server_line(&line);
    }
}

fn in_session() -> (ChatState, ChatState) {
    let mut alice = registered("alice", 1);
    let mut bob = registered("bob", 2);
    alice.secure("bob", &KnownUsers::new());
    pass_on("alice", &mut alice, &mut bob);
    pass_on("bob", &mut bob, &mut alice);
    (alice, bob)
}

#[test]
fn exchange_ends_in_a_session_on_both_sides() {
    let (mut alice, mut bob) = in_session();
    assert_eq!(alice.active_peer(), Some("bob".to_string()));
    assert_eq!(bob.active_peer(), Some("alice".to_string()));
    let done = ("Secure session established with bob (ChaCha20-Poly1305 + ratchet)".to_string(), Color::Green);
    assert_eq!(last(&alice), done);
    assert!(matches!(alice.dispatch_chat_command("hello there"), Request::Nothing));
    assert_eq!(last(&alice), ("alice: hello there".to_string(), Color::Cyan));
    let line = alice.take_outbox().remove(0);
    assert!(line.starts_with("MSG bob ENC "));
    assert!(!line.contains("hello"));
    bob.process_server_line(&relayed("alice", &line));
    assert_eq!(last(&bob), ("alice: hello there".to_string(), Color::Green));
    assert!(matches!(bob.dispatch_chat_command("MSG alice and back  again"), Request::Nothing));
    assert_eq!(last(&bob), ("bob → alice: and back  again".to_string(), Color::Cyan));
    pass_on("bob", &mut bob, &mut alice);
    assert_eq!(last(&alice), ("bob: and back  again".to_string(), Color::Green));
}

#[test]
fn exchange_says_what_it_does() {
    let mut alice = registered("alice", 1);
    let mut bob = registered("bob", 2);
    alice.secure("bob", &KnownUsers::new());
    assert_eq!(
        last(&alice),
        ("[handshake] Sent PUBKEY + HELLO to bob. Waiting for their PUBKEY...".to_string(), Color::Yellow)
    );
    let lines = alice.take_outbox();
    assert_eq!(lines.len(), 2);
    assert!(lines[0].starts_with("MSG bob PUBKEY "));
    assert!(lines[1].starts_with("MSG bob HELLO "));
    bob.process_server_line(&relayed("alice", &lines[0]));
    assert_eq!(
        last(&bob),
        ("First contact with alice - key trusted and stored (TOFU).".to_string(), Color::Yellow)
    );
    assert!(bob.take_unsaved());
    assert!(!bob.take_unsaved());
    bob.process_server_line(&relayed("alice", &lines[0]));
    assert_eq!(last(&bob), ("alice identity key verified (matches stored).".to_string(), Color::Green));
    assert!(!bob.take_unsaved());
    bob.process_server_line(&relayed("alice", &lines[1]));
    let answer = bob.take_outbox();
    assert_eq!(answer.len(), 2);
    alice.process_server_line(&relayed("bob", &answer[1]));
    assert_eq!(
        last(&alice),
        ("[handshake] Received HELLO from bob before their PUBKEY - re-run SECURE.".to_string(), Color::Red)
    );
    alice.process_server_line(&relayed("bob", &answer[0]));
    assert_eq!(
        last(&alice),
        ("[handshake] Received bob's public key. Awaiting their HELLO...".to_string(), Color::DarkGray)
    );
    alice.process_server_line(&relayed("bob", &answer[1]));
    assert_eq!(alice.active_peer(), Some("bob".to_string()));
}

#[test]
fn given_secrets_make_the_exchange_repeatable() {
    let run = || {
        let mut alice = registered("alice", 1);
        let mut bob = registered("bob", 2);
        alice.secure_with("bob", &KnownUsers::new(), Handshake::from_secret([17; 32]));
        for line in alice.take_outbox() {
            bob.process_server_line_with(
                &relayed("alice", &line),
                Some(Handshake::from_secret([34; 32])),
            );
        }
        pass_on("bob", &mut bob, &mut alice);
        assert!(matches!(alice.dispatch_chat_command_with("same", Some([3; 12])), Request::Nothing));
        alice.take_outbox()
    };
    assert_eq!(run(), run());
}

#[test]
fn known_peer_is_checked_against_the_kept_key() {
    let mut alice = registered("alice", 1);
    let mut bob = registered("bob", 2);
    let kept = KnownUsers::load(Some(vec![KnownUser {
        username: "bob".to_string(),
        pubkey_b64: Identity::from_seed("bob", [2; 32]).public_key_b64(),
    }]));
    alice.secure("bob", &kept);
    assert_eq!(
        last(&alice),
        (
            "[handshake] Sent PUBKEY + HELLO to bob (key already known). Awaiting their HELLO..."
                .to_string(),
            Color::Yellow
        )
    );
    pass_on("alice", &mut alice, &mut bob);
    let answer = bob.take_outbox();
    alice.process_server_line(&relayed("bob", &answer[1]));
    assert_eq!(alice.active_peer(), Some("bob".to_string()));
}

#[test]
fn key_change_ends_the_session() {
    let (mut alice, _) = in_session();
    let other = Identity::from_seed("bob", [9; 32]).public_key_b64();
    let line = format!("FROM bob PUBKEY {}", other);
    alice.process_server_line(&line);
    assert_eq!(alice.active_peer(), None);
    assert!(matches!(alice.session(), SecureSessionState::NoSession));
    assert!(last(&alice).0.starts_with("⚠️  KEY MISMATCH for bob!"));
    assert_eq!(last(&alice).1, Color::Red);
    assert!(alice.take_outbox().is_empty());
}

#[test]
fn hello_of_a_stranger_or_under_a_false_key_opens_nothing() {
    let mut bob = registered("bob", 2);
    let mallory = Identity::from_seed("alice", [9; 32]);
    let hello = Handshake::from_secret([17; 32]).hello_line(&mallory);
    let words: Vec<&str> = hello.splitn(4, ' ').collect();
    let line = format!("FROM alice HELLO {} {}", words[2], words[3]);
    bob.process_server_line(&line);
    assert_eq!(
        last(&bob),
        (
            "[error] Got HELLO from alice but no public key stored. They should re-run SECURE."
                .to_string(),
            Color::Red
        )
    );
    assert!(bob.take_outbox().is_empty());
    let key = Identity::from_seed("alice", [1; 32]).public_key_b64();
    bob.process_server_line(&format!("FROM alice PUBKEY {}", key));
    bob.process_server_line(&line);
    assert_eq!(
        last(&bob),
        (
            "[handshake error] Signature verification FAILED — handshake rejected".to_string(),
            Color::Red
        )
    );
    assert_eq!(bob.active_peer(), None);
    assert!(matches!(bob.session(), SecureSessionState::NoSession));
    // A HELLO that does not hold is not answered.
    assert!(bob.take_outbox().is_empty());
    bob.process_server_line("FROM alice HELLO");
    assert_eq!(last(&bob).1, Color::Red);
    assert!(bob.take_outbox().is_empty());
    // One that does is.
    let alice = Identity::from_seed("alice", [1; 32]);
    let hello = Handshake::from_secret([17; 32]).hello_line(&alice);
    let words: Vec<&str> = hello.splitn(4, ' ').collect();
    bob.process_server_line(&format!("FROM alice HELLO {} {}", words[2], words[3]));
    assert_eq!(bob.active_peer(), Some("alice".to_string()));
    assert_eq!(bob.take_outbox().len(), 2);
}

#[test]
fn unregistered_responder_sends_nothing() {
    let mut alice = registered("alice", 1);
    let mut bob = ChatState::new(KnownUsers::new());
    alice.secure("bob", &KnownUsers::new());
    pass_on("alice", &mut alice, &mut bob);
    assert_eq!(bob.active_peer(), Some("alice".to_string()));
    assert!(bob.take_outbox().is_empty());
}

#[test]
fn server_lines_are_shown() {
    let mut chat = ChatState::new(KnownUsers::new());
    let cases = [
        ("INFO Registered as  bob ", "[server] Registered as  bob ", Color::DarkGray),
        ("INFO hi", "[server] hi", Color::DarkGray),
        ("ERROR no such user", "[error] no such user", Color::Red),
        ("USERLIST a b", "[online] a b", Color::Cyan),
        ("FROM eve hi there you", "[plain/hi] eve: hi there you", Color::Yellow),
        ("FROM eve", "[plain/] eve:  ", Color::Yellow),
        ("anything else", "anything else", Color::White),
        ("", "", Color::White),
    ];
    for (line, shown, color) in cases {
        chat.process_server_line(line);
        assert_eq!(last(&chat), (shown.to_string(), color));
    }
    assert!(matches!(chat.connection_state(), ChatConnectionState::Registered(n) if n == "bob"));
    assert_eq!(chat.my_username(), "bob");
}

#[test]
fn a_changed_key_ends_the_session_wherever_its_sixteenth_byte_lies() {
    let mut chat = ChatState::new(KnownUsers::new());
    chat.process_server_line("FROM bob PUBKEY k");
    chat.process_server_line("FROM bob PUBKEY fifteen bytes..é and more");
    assert_eq!(
        last(&chat),
        (
            "⚠️  KEY MISMATCH for bob!\nStored:  k\nReceived:fifteen bytes..\nPossible MITM — aborting handshake."
                .to_string(),
            Color::Red
        )
    );
    assert!(matches!(chat.session(), SecureSessionState::NoSession));
}

#[test]
fn encrypted_lines_need_a_session_and_its_key() {
    let mut chat = ChatState::new(KnownUsers::new());
    chat.process_server_line("FROM bob ENC AAAA");
    assert_eq!(
        last(&chat),
        (
            "[error] Got encrypted message from bob but no secure session active - run SECURE bob first"
                .to_string(),
            Color::Red
        )
    );
    let (mut alice, _) = in_session();
    alice.process_server_line("FROM bob ENC AAAA");
    assert_eq!(last(&alice), ("[decrypt error] Ciphertext too short".to_string(), Color::Red));
    assert_eq!(alice.active_peer(), Some("bob".to_string()));
}

#[test]
fn log_keeps_the_last_two_hundred_lines() {
    let mut chat = ChatState::new(KnownUsers::new());
    for i in 0..205 {
        chat.process_server_line(&format!("line {}", i));
    }
    assert_eq!(chat.messages().len(), 200);
    assert_eq!(chat.messages()[0].0, "line 5");
    assert_eq!(last(&chat).0, "line 204");
}

#[test]
fn connect_names_host_and_port() {
    let mut chat = ChatState::new(KnownUsers::new());
    let cases = [
        ("CONNECT", "192.168.1.160", 5000),
        ("connect relay.example", "relay.example", 5000),
        ("Connect relay.example 7000", "relay.example", 7000),
        ("CONNECT relay.example +80", "relay.example", 80),
        ("CONNECT relay.example 70000", "relay.example", 5000),
        ("CONNECT relay.example -1", "relay.example", 5000),
        ("CONNECT relay.example 80 90", "relay.example", 5000),
    ];
    for (line, host, port) in cases {
        match chat.dispatch_chat_command(line) {
            Request::Connect { host: h, port: p } => {
                assert_eq!(h, host);
                assert_eq!(p, port);
            }
            _ => panic!("no connection asked for"),
        }
    }
    chat.finish_connect(Err("TCP connect failed: no route".to_string()));
    assert_eq!(last(&chat), ("[system] TCP connect failed: no route".to_string(), Color::Red));
    assert!(!chat.linked());
    chat.finish_connect(Ok(()));
    assert_eq!(last(&chat), ("[system] Connected to relay server.".to_string(), Color::Yellow));
    assert!(chat.linked());
}

#[test]
fn register_loads_the_identity_and_tells_the_relay() {
    let mut chat = ChatState::new(KnownUsers::new());
    assert!(matches!(chat.dispatch_chat_command("REGISTER"), Request::Nothing));
    assert_eq!(last(&chat), ("[error] Usage: REGISTER <username>".to_string(), Color::Red));
    assert!(
        matches!(chat.dispatch_chat_command("register alice"), Request::LoadIdentity { username } if username == "alice")
    );
    assert!(matches!(
        chat.identity_loaded("alice", Err("Signing key wrong length".to_string())),
        Request::Nothing
    ));
    assert_eq!(
        last(&chat),
        ("[error] Key load failed: Signing key wrong length".to_string(), Color::Red)
    );
    let id = Identity::from_seed("alice", [1; 32]);
    let key = id.public_key_b64();
    match chat.identity_loaded("alice", Ok(id)) {
        Request::ConnectToRegister { username, host, port } => {
            assert_eq!((username.as_str(), host.as_str(), port), ("alice", "192.168.1.160", 5000));
        }
        _ => panic!("no connection asked for"),
    }
    assert_eq!(
        last(&chat),
        (format!("Identity key loaded. Fingerprint: {}...", &key[..16]), Color::Yellow)
    );
    chat.finish_register("alice", Err("TCP connect failed: no".to_string()));
    assert_eq!(last(&chat), ("[system] TCP connect failed: no".to_string(), Color::Red));
    assert!(chat.take_outbox().is_empty());
    chat.finish_register("alice", Ok(()));
    assert_eq!(
        chat.take_outbox(),
        vec!["REGISTER alice".to_string(), format!("MSG * PUBKEY {}", key)]
    );
    let n = chat.messages().len();
    assert_eq!(
        chat.messages()[n - 2],
        (
            "[system] Registered. Run: SECURE <peer> to start an encrypted session.".to_string(),
            Color::DarkGray
        )
    );
    assert_eq!(
        last(&chat),
        (format!("[system] Your key fingerprint: {}...", &key[..24]), Color::DarkGray)
    );
    // With a link already there, the name and the key go out at once.
    let id = Identity::from_seed("carol", [3; 32]);
    let key = id.public_key_b64();
    assert!(matches!(chat.identity_loaded("carol", Ok(id)), Request::Nothing));
    assert_eq!(
        chat.take_outbox(),
        vec!["REGISTER carol".to_string(), format!("MSG * PUBKEY {}", key)]
    );
}

#[test]
fn pubkey_sends_our_key() {
    let mut chat = ChatState::new(KnownUsers::new());
    chat.dispatch_chat_command("PUBKEY");
    assert_eq!(last(&chat), ("[error] Usage: PUBKEY <username>".to_string(), Color::Red));
    chat.dispatch_chat_command("PUBKEY bob");
    assert_eq!(last(&chat), ("[error] Not registered yet.".to_string(), Color::Red));
    let mut alice = registered("alice", 1);
    alice.dispatch_chat_command("pubkey bob");
    assert_eq!(last(&alice), ("[system] Public key sent to bob.".to_string(), Color::DarkGray));
    let key = Identity::from_seed("alice", [1; 32]).public_key_b64();
    assert_eq!(alice.take_outbox(), vec![format!("MSG bob PUBKEY {}", key)]);
}

#[test]
fn secure_needs_a_peer_and_an_identity() {
    let mut chat = ChatState::new(KnownUsers::new());
    chat.dispatch_chat_command("SECURE");
    assert_eq!(last(&chat), ("[error] Usage: SECURE <username>".to_string(), Color::Red));
    chat.dispatch_chat_command("SECURE bob");
    assert_eq!(last(&chat), ("[error] REGISTER first.".to_string(), Color::Red));
    // The long s has S as its capital.
    chat.dispatch_chat_command("\u{17f}ecure bob");
    assert_eq!(last(&chat), ("[error] REGISTER first.".to_string(), Color::Red));
    chat.secure("bob", &KnownUsers::new());
    assert_eq!(last(&chat), ("[error] REGISTER first.".to_string(), Color::Red));
    let mut alice = registered("alice", 1);
    assert!(
        matches!(alice.dispatch_chat_command("SECURE bob now"), Request::ReadKnownUsers { peer } if peer == "bob")
    );
}

#[test]
fn list_asks_the_relay() {
    let mut alice = registered("alice", 1);
    alice.dispatch_chat_command("list");
    assert_eq!(last(&alice), ("[you] LIST".to_string(), Color::DarkGray));
    assert_eq!(alice.take_outbox(), vec!["LIST".to_string()]);
}

#[test]
fn msg_needs_a_session_with_the_recipient() {
    let (mut alice, _) = in_session();
    alice.dispatch_chat_command("MSG bob");
    assert_eq!(last(&alice), ("[error] Usage: MSG <recipient> <message>".to_string(), Color::Red));
    alice.dispatch_chat_command("MSG carol hi");
    assert_eq!(
        last(&alice),
        ("[error] No secure session with carol. Run: SECURE carol".to_string(), Color::Red)
    );
    assert!(alice.take_outbox().is_empty());
}

#[test]
fn without_a_session_text_is_an_unknown_command() {
    let mut alice = registered("alice", 1);
    alice.dispatch_chat_command("hello there");
    let n = alice.messages().len();
    assert_eq!(
        alice.messages()[n - 2],
        ("[error] Unknown command: hello there".to_string(), Color::Red)
    );
    assert_eq!(
        last(&alice),
        (
            "[help] REGISTER <name>  SECURE <peer>  MSG <peer> <text>  LIST  QUIT".to_string(),
            Color::DarkGray
        )
    );
    assert!(alice.take_outbox().is_empty());
}

#[test]
fn quit_cuts_the_link_and_the_session() {
    let (mut alice, _) = in_session();
    alice.dispatch_chat_command("quit");
    assert_eq!(last(&alice), ("[system] Disconnected.".to_string(), Color::Yellow));
    assert_eq!(alice.take_outbox(), vec!["QUIT".to_string()]);
    assert!(!alice.linked());
    assert_eq!(alice.active_peer(), None);
    assert!(matches!(alice.connection_state(), ChatConnectionState::Disconnected));
    assert_eq!(alice.my_username(), "me");
    alice.dispatch_chat_command("LIST");
    assert!(alice.take_outbox().is_empty());
}

#[test]
fn only_protocol_lines_reach_the_relay() {
    let (mut alice, _) = in_session();
    for typed in ["top secret", "MSG bob top secret", "LIST", "PUBKEY bob", "MSG carol top secret", "QUIT"] {
        alice.dispatch_chat_command(typed);
    }
    let lines = alice.take_outbox();
    assert_eq!(lines.len(), 5);
    for line in lines {
        assert!(!line.contains("secret"));
        assert!(
            line == "LIST"
                || line == "QUIT"
                || line.starts_with("MSG bob ENC ")
                || line.starts_with("MSG bob PUBKEY ")
        );
    }
}

#[test]
fn messages_of_a_session_are_read_by_its_mirror() {
    let (mut alice, bob) = in_session();
    drop(bob);
    let mut mirror = SessionKeys::new("alice".to_string(), vec![1], vec![2]);
    alice.dispatch_chat_command("not for the wrong chain");
    let line = alice.take_outbox().remove(0);
    assert!(mirror.decrypt(line.strip_prefix("MSG bob ENC ").unwrap()).is_err());
}

#[test]
fn typing_fills_and_empties_the_input() {
    let mut chat = ChatState::new(KnownUsers::new());
    chat.type_char('é');
    chat.type_char('b');
    assert_eq!(chat.input(), "éb");
    chat.erase_char();
    assert_eq!(chat.input(), "é");
    chat.erase_char();
    chat.erase_char();
    assert_eq!(chat.input(), "");
    chat.type_char('x');
    chat.clear_input();
    assert_eq!(chat.input(), "");
}

#[test]
fn outcomes_are_shown_and_sent() {
    let mut chat = ChatState::new(KnownUsers::new());
    chat.finish_connect(Ok(()));
    chat.hear("bob", Ok("hi".to_string()));
    assert_eq!(last(&chat), ("bob: hi".to_string(), Color::Green));
    chat.hear("bob", Err("no".to_string()));
    assert_eq!(last(&chat), ("[decrypt error] no".to_string(), Color::Red));
    chat.post("bob", "me: hi", Ok("WIRE".to_string()));
    assert_eq!(last(&chat), ("me: hi".to_string(), Color::Cyan));
    chat.post("bob", "me: hi", Err("no".to_string()));
    assert_eq!(last(&chat), ("[encrypt error] no".to_string(), Color::Red));
    chat.greet("bob", "HELLO me key signature");
    chat.greet("bob", "HELLO me");
    assert_eq!(
        chat.take_outbox(),
        vec!["MSG bob ENC WIRE".to_string(), "MSG bob HELLO key signature".to_string()]
    );
    chat.conclude("bob", Err("no".to_string()));
    assert_eq!(last(&chat), ("[handshake error] no".to_string(), Color::Red));
    let keys = SessionKeys::new("bob".to_string(), vec![7; 32], vec![8; 32]);
    chat.conclude("bob", Ok(keys));
    assert_eq!(chat.active_peer(), Some("bob".to_string()));
}

#[test]
fn commands_go_by_the_word_in_capitals() {
    let mut chat = ChatState::new(KnownUsers::new());
    chat.finish_connect(Ok(()));
    chat.run_word("LIST", "whatever", None);
    assert_eq!(chat.take_outbox(), vec!["LIST".to_string()]);
    assert!(
        matches!(chat.run_word("REGISTER", "x alice y", None), Request::LoadIdentity { username } if username == "alice")
    );
    chat.run_word("list", "list", None);
    assert!(chat.take_outbox().is_empty());
}
