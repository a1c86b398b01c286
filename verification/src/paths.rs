//! Where things are kept, as the parts of a path.

use crate::text;
use vstd::prelude::*;

verus! {

/// The home directory, or the current one where there is none.
pub open spec fn home_part(home: Option<&str>) -> Seq<char> {
    match home {
        Some(h) => h@,
        None => "."@,
    }
}

/// The parts of the path of the configuration.
pub open spec fn config_parts(home: Option<&str>) -> Seq<Seq<char>> {
    seq![home_part(home), ".config"@, "timetracker"@]
}

/// The home directory, or the current one where there is none.
pub fn dirs_or_home(home: Option<&str>) -> (r: String)
    ensures
        r@ == home_part(home),
{
    match home {
        Some(h) => h.to_owned(),
        None => ".".to_owned(),
    }
}

/// Where the configuration is kept.
pub fn config_dir(home: Option<&str>) -> (r: Vec<String>)
    ensures
        text::texts(r@) == config_parts(home),
{
    let r: Vec<String> = vec![
        dirs_or_home(home),
        ".config".to_owned(),
        "timetracker".to_owned(),
    ];
    assert(text::texts(r@) =~= config_parts(home));
    r
}

/// The parts of the path of a user's identity.
pub open spec fn identity_parts(home: Option<&str>, username: Seq<char>) -> Seq<Seq<char>> {
    config_parts(home) + seq!["keys"@, username + ".json"@]
}

/// The parts of the path of the peers' keys.
pub open spec fn known_users_parts(home: Option<&str>) -> Seq<Seq<char>> {
    config_parts(home) + seq!["known_users.json"@]
}

/// The parts of the path of the tasks.
pub open spec fn data_parts(home: Option<&str>, profile: Option<&str>) -> Seq<Seq<char>> {
    seq![
        home_part(
            if home is Some {
                home
            } else {
                profile
            },
        ),
        ".timetracker.json"@,
    ]
}

/// Where the identity of a user is kept.
pub fn identity_path(home: Option<&str>, username: &str) -> (r: Vec<String>)
    ensures
        text::texts(r@) == identity_parts(home, username@),
{
    let mut p: Vec<String> = config_dir(home);
    assert(text::texts(p@).len() == p@.len());
    let ghost base = p@;
    p.push("keys".to_owned());
    p.push(text::join2(username, ".json"));
    proof {
        assert(forall|i: int| 0 <= i < base.len() ==> #[trigger] text::texts(base)[i] == p@[i]@);
        assert(text::texts(p@) =~= config_parts(home) + seq!["keys"@, username@ + ".json"@]);
    }
    p
}

/// Where the peers' keys are kept.
pub fn known_users_path(home: Option<&str>) -> (r: Vec<String>)
    ensures
        text::texts(r@) == known_users_parts(home),
{
    let mut p: Vec<String> = config_dir(home);
    assert(text::texts(p@).len() == p@.len());
    let ghost base = p@;
    p.push("known_users.json".to_owned());
    proof {
        assert(forall|i: int| 0 <= i < base.len() ==> #[trigger] text::texts(base)[i] == p@[i]@);
        assert(text::texts(p@) =~= config_parts(home) + seq!["known_users.json"@]);
    }
    p
}

/// Where the tasks are kept: in the home directory, else in the user's profile, else here.
pub fn get_data_file(home: Option<&str>, profile: Option<&str>) -> (r: Vec<String>)
    ensures
        text::texts(r@) == data_parts(home, profile),
{
    let base: String = if home.is_some() {
        dirs_or_home(home)
    } else {
        dirs_or_home(profile)
    };
    let ghost first = base@;
    let r: Vec<String> = vec![base, ".timetracker.json".to_owned()];
    assert(text::texts(r@) =~= seq![first, ".timetracker.json"@]);
    r
}

/// The identities and the peers' keys lie in the configuration, below the home directory, or below the
/// current one where there is none. The tasks lie in the home directory itself, else in the user's
/// profile, else in the current directory.
pub proof fn law_where_things_are_kept(home: &str, profile: &str, username: Seq<char>)
    ensures
        identity_parts(Some(home), username) == seq![
            home@,
            ".config"@,
            "timetracker"@,
            "keys"@,
            username + ".json"@,
        ],
        identity_parts(None, username) == seq![
            "."@,
            ".config"@,
            "timetracker"@,
            "keys"@,
            username + ".json"@,
        ],
        known_users_parts(Some(home)) == seq![
            home@,
            ".config"@,
            "timetracker"@,
            "known_users.json"@,
        ],
        known_users_parts(None) == seq!["."@, ".config"@, "timetracker"@, "known_users.json"@],
        config_parts(Some(home)) == seq![home@, ".config"@, "timetracker"@],
        config_parts(None) == seq!["."@, ".config"@, "timetracker"@],
        data_parts(Some(home), Some(profile)) == seq![home@, ".timetracker.json"@],
        data_parts(Some(home), None) == seq![home@, ".timetracker.json"@],
        data_parts(None, Some(profile)) == seq![profile@, ".timetracker.json"@],
        data_parts(None, None) == seq!["."@, ".timetracker.json"@],
{
}

} // verus!
