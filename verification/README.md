# Secure Chat

A terminal client for an end-to-end encrypted relay chat, with a small time tracker beside it. Its
logic is a library written in Verus: every function states what it returns or changes, and Verus
proves it.

Identity keys are Ed25519, the key exchange is X25519, keys are derived with HKDF-SHA256 and messages
are sealed with ChaCha20-Poly1305 under a key of their own each.

## Layout

- `src/` is the library.
  - `text`, `clock`: texts and numbers; moments, spans and dates.
  - `primitives`: base64 and the cryptographic functions, each behind one small function whose
    contract is believed rather than proved.
  - `identity`, `handshake`, `session`, `known_users`: keys, the exchange, the ratchet, and the
    peers' keys that are trusted on first use.
  - `chat`, `command`: the state of the chat, the lines of the relay and the commands of the user.
  - `tracker`: tasks and countdowns.
  - `app`, `screens`, `controls`: what each key does, and what the screens show.
  - `paths`: where things are kept.
  - `laws`, `exchange`: what holds of the chat as a whole. The key exchange leaves both sides with
    one session, what one side types the other reads, and the relay is sent no text of the user but
    as ciphertext. Other laws stand beside what they speak of and begin with `law_`.
- `app/` is the program around it: the terminal, the connection and the files.
- `tests/` runs the library.

## How the library is used

The library opens no socket and no file. Lines for the relay wait in an outbox until the caller takes
them. A command that needs the network or a file comes back as a request, and the outcome is handed
to the function that the request names. Functions that cannot take every input say so in `requires`;
beside each stands one that tells beforehand (`can_handle`, `can_stop`, `can_total` and others).
