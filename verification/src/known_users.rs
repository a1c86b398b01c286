//! The peers' identity keys, trusted on first use.

use crate::text;
use vstd::prelude::*;

verus! {

/// A peer and the identity key under which it was first seen.
pub struct KnownUser {
    pub username: String,
    pub pubkey_b64: String,
}

/// Map of username to base64-encoded Ed25519 verifying key. No name occurs twice.
pub struct KnownUsers {
    users: Vec<KnownUser>,
}

/// Whether no name occurs twice.
spec fn distinct(users: Seq<KnownUser>) -> bool {
    forall|i: int, j: int|
        0 <= i < j < users.len() ==> (#[trigger] users[i]).username@ != (
        #[trigger] users[j]).username@
}

/// The names and keys of a list, where a later entry for a name stands for an earlier one.
pub open spec fn listed(users: Seq<KnownUser>) -> Map<Seq<char>, Seq<char>>
    decreases users.len(),
{
    if users.len() == 0 {
        Map::empty()
    } else {
        listed(users.drop_last()).insert(users.last().username@, users.last().pubkey_b64@)
    }
}

proof fn lemma_listed(users: Seq<KnownUser>)
    requires
        distinct(users),
    ensures
        forall|i: int|
            0 <= i < users.len() ==> listed(users).dom().contains((#[trigger] users[i]).username@)
                && listed(users)[users[i].username@] == users[i].pubkey_b64@,
        forall|name: Seq<char>| #[trigger]
            listed(users).dom().contains(name) ==> exists|i: int|
                0 <= i < users.len() && (#[trigger] users[i]).username@ == name,
    decreases users.len(),
{
    if users.len() > 0 {
        let rest = users.drop_last();
        lemma_listed(rest);
        assert forall|i: int| 0 <= i < users.len() implies listed(users).dom().contains(
            (#[trigger] users[i]).username@,
        ) && listed(users)[users[i].username@] == users[i].pubkey_b64@ by {
            if i < rest.len() {
                assert(rest[i] == users[i]);
                assert(users[i].username@ != users[users.len() - 1].username@);
            }
        }
        assert forall|name: Seq<char>| #[trigger] listed(users).dom().contains(name) implies exists|
            i: int,
        |
            0 <= i < users.len() && (#[trigger] users[i]).username@ == name by {
            if name == users.last().username@ {
                assert(users[users.len() - 1].username@ == name);
            } else {
                assert(listed(rest).dom().contains(name));
                let i = choose|i: int|
                    0 <= i < rest.len() && (#[trigger] rest[i]).username@ == name;
                assert(users[i].username@ == name);
            }
        }
    }
}

/// The warning when a key differs from the stored one: both are quoted by what fits in sixteen bytes.
pub open spec fn mismatch_warning(
    username: Seq<char>,
    stored: Seq<char>,
    received: Seq<char>,
) -> Seq<char> {
    "⚠️  KEY MISMATCH for "@ + username + "!\nStored:  "@ + text::byte_head(stored, 16)
        + "\nReceived:"@ + text::byte_head(received, 16)
        + "\nPossible MITM — aborting handshake."@
}

/// What a check of `key` for `username` says: `Ok(true)` on first sight, `Ok(false)` for the key
/// that is stored, and a warning for any other.
pub open spec fn checked(
    users: Map<Seq<char>, Seq<char>>,
    username: Seq<char>,
    key: Seq<char>,
) -> Result<bool, Seq<char>> {
    if !users.dom().contains(username) {
        Ok(true)
    } else if users[username] == key {
        Ok(false)
    } else {
        Err(mismatch_warning(username, users[username], key))
    }
}

/// The store after a check: a name seen for the first time is stored, all else stays.
pub open spec fn updated(
    users: Map<Seq<char>, Seq<char>>,
    username: Seq<char>,
    key: Seq<char>,
) -> Map<Seq<char>, Seq<char>> {
    if users.dom().contains(username) {
        users
    } else {
        users.insert(username, key)
    }
}

/// The view of the outcome of a check.
pub open spec fn check_outcome(r: Result<bool, String>) -> Result<bool, Seq<char>> {
    match r {
        Ok(new) => Ok(new),
        Err(warning) => Err(warning@),
    }
}

impl View for KnownUsers {
    type V = Map<Seq<char>, Seq<char>>;

    closed spec fn view(&self) -> Map<Seq<char>, Seq<char>> {
        listed(self.users@)
    }
}

impl Default for KnownUsers {
    fn default() -> (r: Self)
        ensures
            r@ == Map::<Seq<char>, Seq<char>>::empty(),
    {
        KnownUsers::new()
    }
}

impl KnownUsers {
    #[verifier::type_invariant]
    spec fn inv(&self) -> bool {
        distinct(self.users@)
    }

    /// An empty store.
    pub fn new() -> (r: Self)
        ensures
            r@ == Map::<Seq<char>, Seq<char>>::empty(),
    {
        KnownUsers { users: Vec::new() }
    }

    /// The store that was kept, or an empty one. Where a name occurs twice, the later key counts.
    pub fn load(kept: Option<Vec<KnownUser>>) -> (r: Self)
        ensures
            r@ == match kept {
                Some(list) => listed(list@),
                None => Map::empty(),
            },
    {
        let mut store: KnownUsers = KnownUsers::new();
        if let Some(list) = kept {
            let n: usize = list.len();
            for i in 0..n
                invariant
                    n == list@.len(),
                    store@ == listed(list@.take(i as int)),
            {
                assert(list@.take(i + 1).drop_last() == list@.take(i as int));
                store.put(list[i].username.as_str(), list[i].pubkey_b64.as_str());
            }
            assert(list@.take(n as int) == list@);
        }
        store
    }

    /// Read-only access to the names and keys.
    pub fn users(&self) -> (r: &Vec<KnownUser>)
        ensures
            listed(r@) == self@,
    {
        &self.users
    }

    /// Where `username` stands in the list.
    fn position(&self, username: &str) -> (r: Option<usize>)
        ensures
            match r {
                Some(i) => i < self.users@.len() && self.users@[i as int].username@ == username@
                    && self@.dom().contains(username@) && self@[username@]
                    == self.users@[i as int].pubkey_b64@,
                None => !self@.dom().contains(username@) && forall|i: int|
                    0 <= i < self.users@.len() ==> (#[trigger] self.users@[i]).username@
                        != username@,
            },
    {
        proof {
            use_type_invariant(self);
            lemma_listed(self.users@);
        }
        let n: usize = self.users.len();
        for i in 0..n
            invariant
                n == self.users@.len(),
                forall|j: int|
                    0 <= j < i ==> (#[trigger] self.users@[j]).username@ != username@,
                forall|j: int|
                    0 <= j < n ==> self@.dom().contains((#[trigger] self.users@[j]).username@)
                        && self@[self.users@[j].username@] == self.users@[j].pubkey_b64@,
        {
            if text::same(self.users[i].username.as_str(), username) {
                return Some(i);
            }
        }
        None
    }

    /// The stored key of `username`.
    pub fn get(&self, username: &str) -> (r: Option<String>)
        ensures
            text::text_of(r) == if self@.dom().contains(username@) {
                Some(self@[username@])
            } else {
                None
            },
    {
        match self.position(username) {
            Some(i) => Some(self.users[i].pubkey_b64.clone()),
            None => None,
        }
    }

    /// Stores `key` for `username`, in place of an earlier one.
    fn put(&mut self, username: &str, key: &str)
        ensures
            final(self)@ == old(self)@.insert(username@, key@),
    {
        let at: Option<usize> = self.position(username);
        let mut users: Vec<KnownUser> = Vec::new();
        proof {
            use_type_invariant(&*self);
        }
        std::mem::swap(&mut users, &mut self.users);
        let ghost before = users@;
        let user: KnownUser = KnownUser { username: username.to_owned(), pubkey_b64: key.to_owned() };
        let ghost entry = user;
        match at {
            Some(i) => {
                users.remove(i);
                users.push(user);
                proof {
                    let rest = before.remove(i as int);
                    assert(users@ == rest.push(entry));
                    assert(distinct(rest));
                    assert(distinct(users@)) by {
                        assert forall|j: int| 0 <= j < rest.len() implies (
                        #[trigger] rest[j]).username@ != username@ by {
                            if j < i {
                                assert(rest[j] == before[j]);
                            } else {
                                assert(rest[j] == before[j + 1]);
                            }
                        }
                    }
                    assert(users@.drop_last() == rest);
                    lemma_listed(before);
                    lemma_listed(rest);
                    assert(listed(users@) =~= listed(before).insert(username@, key@)) by {
                        assert forall|name: Seq<char>| name != username@ implies listed(
                            rest,
                        ).dom().contains(name) == listed(before).dom().contains(name) by {
                            if listed(before).dom().contains(name) {
                                let j = choose|j: int|
                                    0 <= j < before.len() && (#[trigger] before[j]).username@
                                        == name;
                                if j < i {
                                    assert(rest[j] == before[j]);
                                } else {
                                    assert(rest[j - 1] == before[j]);
                                }
                            }
                            if listed(rest).dom().contains(name) {
                                let j = choose|j: int|
                                    0 <= j < rest.len() && (#[trigger] rest[j]).username@ == name;
                                if j < i {
                                    assert(rest[j] == before[j]);
                                } else {
                                    assert(rest[j] == before[j + 1]);
                                }
                            }
                        }
                        assert forall|name: Seq<char>|
                            name != username@ && listed(rest).dom().contains(name) implies listed(
                            rest,
                        )[name] == listed(before)[name] by {
                            let j = choose|j: int|
                                0 <= j < rest.len() && (#[trigger] rest[j]).username@ == name;
                            if j < i {
                                assert(rest[j] == before[j]);
                            } else {
                                assert(rest[j] == before[j + 1]);
                            }
                        }
                    }
                }
            },
            None => {
                users.push(user);
                assert(users@.drop_last() == before);
            },
        }
        self.users = users;
    }

    /// Checks a peer's claimed public key against the store: `Ok(true)` is a new name, now stored;
    /// `Ok(false)` a known one with the same key; an error a known one whose key has changed.
    pub fn check_and_update(&mut self, username: &str, pubkey_b64: &str) -> (r: Result<
        bool,
        String,
    >)
        ensures
            check_outcome(r) == checked(old(self)@, username@, pubkey_b64@),
            final(self)@ == updated(old(self)@, username@, pubkey_b64@),
    {
        match self.get(username) {
            None => {
                self.put(username, pubkey_b64);
                Ok(true)
            },
            Some(stored) => {
                if text::same(stored.as_str(), pubkey_b64) {
                    Ok(false)
                } else {
                    let mut w: String = "⚠️  KEY MISMATCH for ".to_owned();
                    w.append(username);
                    w.append("!\nStored:  ");
                    w.append(text::head(stored.as_str(), 16).as_str());
                    w.append("\nReceived:");
                    w.append(text::head(pubkey_b64, 16).as_str());
                    w.append("\nPossible MITM — aborting handshake.");
                    Err(w)
                }
            },
        }
    }
}

/// A stored key is never replaced: whatever key is checked for whatever name, every name that was
/// stored keeps its key.
pub proof fn law_stored_key_stays(
    users: Map<Seq<char>, Seq<char>>,
    username: Seq<char>,
    key: Seq<char>,
    other: Seq<char>,
)
    requires
        users.dom().contains(other),
    ensures
        updated(users, username, key).dom().contains(other),
        updated(users, username, key)[other] == users[other],
{
}

/// A key that was trusted on first use is recognised ever after, and any other key for that name is
/// warned of and changes nothing.
pub proof fn law_first_key_counts(
    users: Map<Seq<char>, Seq<char>>,
    username: Seq<char>,
    first: Seq<char>,
    later: Seq<char>,
)
    requires
        !users.dom().contains(username),
    ensures
        checked(users, username, first) == Ok::<bool, Seq<char>>(true),
        checked(updated(users, username, first), username, later) is Err <==> later != first,
        later == first ==> checked(updated(users, username, first), username, later) == Ok::<
            bool,
            Seq<char>,
        >(false),
        updated(updated(users, username, first), username, later) == updated(
            users,
            username,
            first,
        ),
{
}

/// A name is stored with the key under which it is first seen, and every check but the first leaves
/// the store as it is.
pub proof fn law_names_are_stored_once(
    users: Map<Seq<char>, Seq<char>>,
    username: Seq<char>,
    key: Seq<char>,
)
    ensures
        updated(users, username, key) == if users.dom().contains(username) {
            users
        } else {
            users.insert(username, key)
        },
        checked(users, username, key) == Ok::<bool, Seq<char>>(true) <==> !users.dom().contains(
            username,
        ),
        checked(users, username, key) == Ok::<bool, Seq<char>>(false) <==> users.dom().contains(
            username,
        ) && users[username] == key,
        users.dom().contains(username) && users[username] != key ==> checked(users, username, key)
            is Err,
{
}

/// The warning of a changed key names the peer, and quotes the stored key and then the received one
/// by what fits in sixteen bytes.
pub proof fn law_warning_quotes_both_keys(
    users: Map<Seq<char>, Seq<char>>,
    username: Seq<char>,
    key: Seq<char>,
)
    requires
        users.dom().contains(username),
        users[username] != key,
    ensures
        checked(users, username, key) == Err::<bool, Seq<char>>(
            "⚠️  KEY MISMATCH for "@ + username + "!\nStored:  "@ + text::byte_head(
                users[username],
                16,
            ) + "\nReceived:"@ + text::byte_head(key, 16)
                + "\nPossible MITM — aborting handshake."@,
        ),
{
}

/// A list gives each name the key of its last entry, and holds no other names.
pub proof fn law_later_entries_count(users: Seq<KnownUser>, user: KnownUser)
    ensures
        listed(Seq::empty()) == Map::<Seq<char>, Seq<char>>::empty(),
        listed(users.push(user)) == listed(users).insert(user.username@, user.pubkey_b64@),
{
    assert(users.push(user).drop_last() =~= users);
}

} // verus!
