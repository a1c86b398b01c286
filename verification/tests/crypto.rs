use base64::engine::general_purpose::STANDARD;
use base64::Engine;
use chacha20poly1305::aead::Aead;
use chacha20poly1305::{ChaCha20Poly1305, KeyInit};
use secure_chat::handshake::{check_hello, start_session, Handshake};
use secure_chat::identity::{parse_verifying_key, Identity, StoredIdentity};
use secure_chat::known_users::{KnownUser, KnownUsers};
use secure_chat::primitives::{decoded, exactly_32, exactly_64};
use secure_chat::session::{ratchet_step, read_text, unframe, SessionKeys};

const SEED: [u8; 32] = [
    157, 97, 177, 157, 239, 253, 90, 96, 186, 132, 74, 244, 146, 236, 44, 196, 68, 73, 197, 105, 123,
    50, 105, 25, 112, 59, 172, 3, 28, 174, 127, 96,
];
const SEED_B64: &str = "nWGxne/9WmC6hEr0kuwsxERJxWl7MmkZcDusAxyuf2A=";
const PUBLIC: [u8; 32] = [
    215, 90, 152, 1, 130, 177, 10, 183, 213, 75, 254, 211, 201, 100, 7, 58, 14, 225, 114, 243, 218,
    166, 35, 37, 175, 2, 26, 104, 247, 7, 81, 26,
];
const PUBLIC_B64: &str = "11qYAYKxCrfVS/7TyWQHOg7hcvPapiMlrwIaaPcHURo=";

fn hello_words(hs: &Handshake, id: &Identity) -> Vec<String> {
    hs.hello_line(id).splitn(4, ' ').map(|w| w.to_string()).collect()
}

fn stored(key: &str) -> StoredIdentity {
    StoredIdentity {
        username: "alice".to_string(),
        signing_key_b64: key.to_string(),
        verifying_key_b64: "ignored".to_string(),
    }
}

#[test]
fn identity_has_the_public_key_of_its_seed() {
    let id = Identity::from_seed("alice", SEED);
    assert_eq!(id.username(), "alice");
    assert_eq!(id.verifying_key(), PUBLIC);
    assert_eq!(id.public_key_b64(), PUBLIC_B64);
}

#[test]
fn signature_of_the_empty_message_is_the_known_one() {
    let id = Identity::from_seed("alice", SEED);
    assert_eq!(
        id.sign_b64(&[]),
        "5VZDAMNgrHKQhuLMgG6CioSHfx645dl02HPgZSJJAVVfuIIVkKM7rMYeOXAc+bRr0lv18FlbviRlUUFDjnoQCw=="
    );
}

#[test]
fn stored_identity_loads_again() {
    let id = Identity::from_seed("alice", SEED);
    let kept = id.stored();
    assert_eq!(kept.username, "alice");
    assert_eq!(kept.signing_key_b64, SEED_B64);
    assert_eq!(kept.verifying_key_b64, PUBLIC_B64);
    let back = Identity::load("alice", &kept).unwrap();
    assert_eq!(back.verifying_key(), PUBLIC);
}

#[test]
fn generated_identities_differ_and_load_again() {
    let (a, kept) = Identity::generate("alice");
    let (b, _) = Identity::generate("alice");
    assert_ne!(a.public_key_b64(), b.public_key_b64());
    let back = Identity::load("alice", &kept).unwrap();
    assert_eq!(back.public_key_b64(), a.public_key_b64());
}

#[test]
fn bad_stored_identities_are_refused() {
    assert_eq!(Identity::load("alice", &stored("%%%")).err(), Some("Bad signing key encoding".to_string()));
    assert_eq!(Identity::load("alice", &stored("AAAA")).err(), Some("Signing key wrong length".to_string()));
}

#[test]
fn load_or_create_takes_what_is_there() {
    let (id, kept) = Identity::load_or_create("alice", Some(&stored(SEED_B64))).unwrap();
    assert!(kept.is_none());
    assert_eq!(id.public_key_b64(), PUBLIC_B64);
    let (fresh, kept) = Identity::load_or_create("bob", None).unwrap();
    let kept = kept.unwrap();
    assert_eq!(kept.username, "bob");
    assert_eq!(kept.verifying_key_b64, fresh.public_key_b64());
    assert_eq!(
        Identity::load_or_create("alice", Some(&stored("AAAA"))).err(),
        Some("Signing key wrong length".to_string())
    );
}

#[test]
fn verifying_keys_are_parsed() {
    assert_eq!(parse_verifying_key(PUBLIC_B64), Ok(PUBLIC));
    assert_eq!(parse_verifying_key("?"), Err("Bad base64 for verifying key".to_string()));
    assert_eq!(parse_verifying_key("AAAA"), Err("Verifying key wrong length".to_string()));
    let mut no_point = [0u8; 32];
    no_point[0] = 2;
    assert_eq!(
        parse_verifying_key(&STANDARD.encode(no_point)),
        Err("Invalid Ed25519 verifying key".to_string())
    );
}

#[test]
fn ephemeral_key_is_that_of_the_secret() {
    let hs = Handshake::from_secret([17; 32]);
    assert_eq!(
        hs.ephemeral_public(),
        [
            123, 78, 144, 155, 190, 127, 254, 68, 196, 101, 162, 32, 3, 125, 96, 142, 227, 88, 151,
            211, 30, 249, 114, 240, 127, 116, 137, 44, 176, 247, 63, 19
        ]
    );
    assert_ne!(Handshake::new().ephemeral_public(), Handshake::new().ephemeral_public());
}

#[test]
fn hello_line_has_four_words_and_holds() {
    let id = Identity::from_seed("alice", SEED);
    let hs = Handshake::from_secret([17; 32]);
    let words = hello_words(&hs, &id);
    assert_eq!(words.len(), 4);
    assert_eq!(words[0], "HELLO");
    assert_eq!(words[1], "alice");
    assert_eq!(words[2], STANDARD.encode(hs.ephemeral_public()));
    assert_eq!(check_hello(PUBLIC_B64, &words[2], &words[3]), Ok(hs.ephemeral_public()));
    let mut signed = b"HELLO".to_vec();
    signed.extend_from_slice(&hs.ephemeral_public());
    assert_eq!(words[3], id.sign_b64(&signed));
}

#[test]
fn bad_hellos_are_refused_with_their_reason() {
    let id = Identity::from_seed("alice", SEED);
    let words = hello_words(&Handshake::from_secret([17; 32]), &id);
    let (eph, sig) = (words[2].as_str(), words[3].as_str());
    let other = Identity::from_seed("mallory", [9; 32]).public_key_b64();
    let mut no_point = [0u8; 32];
    no_point[0] = 2;
    let no_point = STANDARD.encode(no_point);
    let cases: Vec<(&str, &str, &str, &str)> = vec![
        ("?", eph, sig, "Bad peer pubkey encoding"),
        ("AAAA", eph, sig, "Peer pubkey wrong length"),
        (&no_point, eph, sig, "Invalid peer verifying key"),
        (PUBLIC_B64, "?", sig, "Bad peer eph pub encoding"),
        (PUBLIC_B64, "AAAA", sig, "Peer eph pub wrong length"),
        (PUBLIC_B64, eph, "?", "Bad signature encoding"),
        (PUBLIC_B64, eph, "AAAA", "Signature wrong length"),
        (&other, eph, sig, "Signature verification FAILED — handshake rejected"),
    ];
    for (key, e, s, reason) in cases {
        assert_eq!(check_hello(key, e, s), Err(reason.to_string()));
        let r = Handshake::from_secret([34; 32]).derive_session("alice", key, e, s, false);
        assert_eq!(r.err(), Some(reason.to_string()));
    }
}

#[test]
fn both_sides_derive_one_session() {
    let alice = Identity::from_seed("alice", SEED);
    let bob = Identity::from_seed("bob", [9; 32]);
    let a = Handshake::from_secret([17; 32]);
    let b = Handshake::from_secret([34; 32]);
    let from_a = hello_words(&a, &alice);
    let from_b = hello_words(&b, &bob);
    let mut at_a = a
        .derive_session("bob", &bob.public_key_b64(), &from_b[2], &from_b[3], true)
        .unwrap();
    let mut at_b = b
        .derive_session("alice", &alice.public_key_b64(), &from_a[2], &from_a[3], false)
        .unwrap();
    assert_eq!(at_a.peer_username, "bob");
    assert_eq!(at_b.peer(), "alice");
    for text in ["hello", "", "grüße ⚠️"] {
        let wire = at_a.encrypt(text).unwrap();
        assert_eq!(at_b.decrypt(&wire), Ok(text.to_string()));
        let wire = at_b.encrypt(text).unwrap();
        assert_eq!(at_a.decrypt(&wire), Ok(text.to_string()));
    }
}

#[test]
fn session_starts_on_the_two_halves() {
    let first: Vec<u8> = vec![
        158, 180, 5, 84, 244, 177, 156, 135, 68, 221, 54, 38, 5, 214, 171, 86, 239, 245, 213, 7, 88,
        217, 200, 104, 232, 195, 57, 87, 219, 105, 47, 188,
    ];
    let second: Vec<u8> = vec![
        114, 181, 88, 23, 229, 207, 32, 5, 154, 229, 243, 149, 175, 116, 251, 56, 42, 117, 33, 102,
        29, 223, 110, 163, 168, 117, 215, 32, 255, 47, 105, 124,
    ];
    let mut initiator = start_session("bob", &[9; 32], true);
    let mut mirror = SessionKeys::new("alice".to_string(), second.clone(), first.clone());
    let wire = initiator.encrypt("to bob").unwrap();
    assert_eq!(mirror.decrypt(&wire), Ok("to bob".to_string()));
    let mut responder = start_session("alice", &[9; 32], false);
    let mut mirror = SessionKeys::new("bob".to_string(), first, second);
    let wire = responder.encrypt("to alice").unwrap();
    assert_eq!(mirror.decrypt(&wire), Ok("to alice".to_string()));
}

#[test]
fn ratchet_gives_a_message_key_and_the_next_chain() {
    let (key, next) = ratchet_step(&[7; 32]);
    assert_eq!(
        key,
        vec![
            90, 94, 54, 206, 91, 69, 157, 209, 152, 199, 213, 127, 96, 41, 155, 9, 19, 58, 139, 187,
            246, 40, 22, 143, 199, 153, 149, 163, 180, 231, 183, 201
        ]
    );
    assert_eq!(
        next,
        vec![
            61, 67, 212, 124, 104, 105, 142, 81, 138, 220, 84, 201, 161, 145, 42, 93, 37, 127, 245,
            90, 131, 89, 66, 146, 131, 246, 179, 5, 206, 255, 195, 15
        ]
    );
}

#[test]
fn wire_payload_is_nonce_and_ciphertext() {
    let mut keys = SessionKeys::new("bob".to_string(), vec![7; 32], vec![8; 32]);
    let wire = keys.encrypt_with_nonce("hello", &[3; 12]).unwrap();
    let bytes = STANDARD.decode(&wire).unwrap();
    assert_eq!(bytes.len(), 12 + 5 + 16);
    assert_eq!(&bytes[..12], &[3u8; 12]);
    let (key, _) = ratchet_step(&[7; 32]);
    let cipher = ChaCha20Poly1305::new(chacha20poly1305::Key::from_slice(&key));
    let nonce = chacha20poly1305::Nonce::from_slice(&bytes[..12]);
    assert_eq!(cipher.decrypt(nonce, &bytes[12..]).unwrap(), b"hello".to_vec());
    let again = keys.encrypt_with_nonce("hello", &[3; 12]).unwrap();
    assert_ne!(wire, again);
    // Under a fresh nonce too, the key of the first message opens what stands behind the nonce.
    let mut keys = SessionKeys::new("bob".to_string(), vec![7; 32], vec![8; 32]);
    let bytes = STANDARD.decode(keys.encrypt("grüße").unwrap()).unwrap();
    assert_eq!(bytes.len(), 28 + 7);
    let nonce = chacha20poly1305::Nonce::from_slice(&bytes[..12]);
    assert_eq!(cipher.decrypt(nonce, &bytes[12..]).unwrap(), "grüße".as_bytes().to_vec());
}

#[test]
fn fresh_nonces_differ() {
    let mut a = SessionKeys::new("bob".to_string(), vec![7; 32], vec![8; 32]);
    let mut b = SessionKeys::new("bob".to_string(), vec![7; 32], vec![8; 32]);
    assert_ne!(a.encrypt("hello").unwrap(), b.encrypt("hello").unwrap());
}

#[test]
fn bad_payloads_are_refused() {
    let mut bob = SessionKeys::new("alice".to_string(), vec![8; 32], vec![7; 32]);
    assert_eq!(bob.decrypt("?"), Err("Bad base64 in ciphertext".to_string()));
    assert_eq!(bob.decrypt("AAAA"), Err("Ciphertext too short".to_string()));
    // Neither has moved the chain on.
    let mut alice = SessionKeys::new("bob".to_string(), vec![7; 32], vec![8; 32]);
    let wire = alice.encrypt("still in step").unwrap();
    assert_eq!(bob.decrypt(&wire), Ok("still in step".to_string()));
    // A framed payload that does not open moves it on.
    let bad = STANDARD.encode([0u8; 40]);
    assert_eq!(bob.decrypt(&bad), Err("Decryption FAILED — message may be tampered".to_string()));
    let wire = alice.encrypt("out of step").unwrap();
    assert_eq!(bob.decrypt(&wire), Err("Decryption FAILED — message may be tampered".to_string()));
    let wire = alice.encrypt("lost").unwrap();
    assert!(bob.decrypt(&wire).is_err());
}

#[test]
fn plaintext_that_is_no_text_is_refused() {
    let (key, _) = ratchet_step(&[7; 32]);
    let cipher = ChaCha20Poly1305::new(chacha20poly1305::Key::from_slice(&key));
    let nonce = [5u8; 12];
    let sealed = cipher
        .encrypt(chacha20poly1305::Nonce::from_slice(&nonce), [0xffu8, 0xfe].as_slice())
        .unwrap();
    let mut wire = nonce.to_vec();
    wire.extend_from_slice(&sealed);
    let mut bob = SessionKeys::new("alice".to_string(), vec![8; 32], vec![7; 32]);
    assert_eq!(
        bob.decrypt(&STANDARD.encode(wire)),
        Err("Decrypted bytes are not valid UTF-8".to_string())
    );
}

#[test]
fn a_message_opens_once() {
    let mut alice = SessionKeys::new("bob".to_string(), vec![7; 32], vec![8; 32]);
    let mut bob = SessionKeys::new("alice".to_string(), vec![8; 32], vec![7; 32]);
    let wire = alice.encrypt("once").unwrap();
    assert_eq!(bob.decrypt(&wire), Ok("once".to_string()));
    assert!(bob.decrypt(&wire).is_err());
}

#[test]
fn first_key_is_trusted_and_any_other_warned_of() {
    let mut known = KnownUsers::new();
    assert_eq!(known.check_and_update("bob", "key of bob, first seen"), Ok(true));
    assert_eq!(known.check_and_update("bob", "key of bob, first seen"), Ok(false));
    assert_eq!(
        known.check_and_update("bob", "another key altogether"),
        Err(
            "⚠️  KEY MISMATCH for bob!\nStored:  key of bob, firs\nReceived:another key alto\nPossible MITM — aborting handshake."
                .to_string()
        )
    );
    assert_eq!(known.check_and_update("bob", "key of bob, first seen"), Ok(false));
    assert_eq!(known.get("bob"), Some("key of bob, first seen".to_string()));
    assert_eq!(known.get("alice"), None);
}

#[test]
fn short_keys_are_quoted_whole() {
    let mut known = KnownUsers::new();
    assert_eq!(known.check_and_update("bob", "k"), Ok(true));
    assert_eq!(
        known.check_and_update("bob", ""),
        Err(
            "⚠️  KEY MISMATCH for bob!\nStored:  k\nReceived:\nPossible MITM — aborting handshake."
                .to_string()
        )
    );
}

#[test]
fn a_key_is_quoted_up_to_its_last_whole_character() {
    let mut known = KnownUsers::default();
    assert_eq!(known.check_and_update("bob", "A"), Ok(true));
    assert_eq!(
        known.check_and_update("bob", "aaaaaaaaaaaaaaa\u{e9}"),
        Err(
            "⚠️  KEY MISMATCH for bob!\nStored:  A\nReceived:aaaaaaaaaaaaaaa\nPossible MITM — aborting handshake."
                .to_string()
        )
    );
    assert_eq!(
        known.check_and_update("bob", "aaaaaaaaaaaaaa\u{e9}b"),
        Err(
            "⚠️  KEY MISMATCH for bob!\nStored:  A\nReceived:aaaaaaaaaaaaaa\u{e9}\nPossible MITM — aborting handshake."
                .to_string()
        )
    );
    assert_eq!(known.users().len(), 1);
    assert_eq!(known.get("bob"), Some("A".to_string()));
}

#[test]
fn kept_keys_are_loaded_and_the_later_one_counts() {
    let user = |name: &str, key: &str| KnownUser {
        username: name.to_string(),
        pubkey_b64: key.to_string(),
    };
    let known = KnownUsers::load(Some(vec![user("bob", "old"), user("eve", "e"), user("bob", "new")]));
    assert_eq!(known.get("bob"), Some("new".to_string()));
    assert_eq!(known.get("eve"), Some("e".to_string()));
    assert_eq!(known.users().len(), 2);
    assert_eq!(KnownUsers::load(None).users().len(), 0);
}

#[test]
fn decoded_bytes_are_taken_by_their_number() {
    assert_eq!(decoded("AQID"), Some(vec![1, 2, 3]));
    assert_eq!(decoded("AQI"), None);
    assert_eq!(exactly_32(Some(vec![5; 32]), "bad", "wrong"), Ok([5; 32]));
    assert_eq!(exactly_32(Some(vec![5; 33]), "bad", "wrong"), Err("wrong".to_string()));
    assert_eq!(exactly_32(None, "bad", "wrong"), Err("bad".to_string()));
    assert_eq!(exactly_64(Some(vec![5; 64]), "bad", "wrong"), Ok([5; 64]));
    assert_eq!(exactly_64(Some(vec![5; 32]), "bad", "wrong"), Err("wrong".to_string()));
    assert_eq!(exactly_64(None, "bad", "wrong"), Err("bad".to_string()));
}

#[test]
fn payloads_are_taken_apart() {
    assert_eq!(unframe(None), Err("Bad base64 in ciphertext".to_string()));
    assert_eq!(unframe(Some(vec![1; 11])), Err("Ciphertext too short".to_string()));
    assert_eq!(unframe(Some(vec![1; 12])), Ok((vec![1; 12], vec![])));
    let mut bytes = vec![1; 12];
    bytes.extend_from_slice(&[2, 3]);
    assert_eq!(unframe(Some(bytes)), Ok((vec![1; 12], vec![2, 3])));
    assert_eq!(read_text(Some(b"hi".to_vec())), Ok("hi".to_string()));
    assert_eq!(read_text(Some(vec![0xff])), Err("Decrypted bytes are not valid UTF-8".to_string()));
    assert_eq!(read_text(None), Err("Decryption FAILED — message may be tampered".to_string()));
}
