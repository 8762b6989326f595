//! The users of a Linux system, as `/etc/passwd` lists them.
use vstd::prelude::*;
use vstd::string::*;

use crate::number;
use crate::text;

verus! {

/// What `f` gives for the first line for which it gives something.
pub open spec fn first_some<A>(lines: Seq<Seq<char>>, f: spec_fn(Seq<char>) -> Option<A>) -> Option<
    A,
>
    decreases lines.len(),
{
    if lines.len() == 0 {
        None
    } else {
        match f(lines[0]) {
            Some(value) => Some(value),
            None => first_some(lines.skip(1), f),
        }
    }
}

/// The fields of a line.
pub open spec fn fields(line: Seq<char>) -> Seq<Seq<char>> {
    text::pieces(line, ':')
}

/// The number in a field.
pub open spec fn field_number(field: Seq<char>) -> Option<nat> {
    number::parsed(field, 10, u32::MAX as nat)
}

/// The home directory in a line of the user `name`.
pub open spec fn home_of_name(line: Seq<char>, name: Seq<char>) -> Option<Seq<char>> {
    let all = fields(line);
    if all.len() > 5 && all[0] == name {
        Some(all[5])
    } else {
        None
    }
}

/// The home directory in a line of the user with the number `uid`.
pub open spec fn home_of_uid(line: Seq<char>, uid: nat) -> Option<Seq<char>> {
    let all = fields(line);
    if all.len() > 5 && field_number(all[2]) == Some(uid) {
        Some(all[5])
    } else {
        None
    }
}

/// The user and group number in a line with the home directory `home`.
pub open spec fn ids_of_home(line: Seq<char>, home: Seq<char>) -> Option<(nat, nat)> {
    let all = fields(line);
    if all.len() > 5 && all[5] == home {
        match (field_number(all[2]), field_number(all[3])) {
            (Some(uid), Some(gid)) => Some((uid, gid)),
            _ => None,
        }
    } else {
        None
    }
}

/// The home directory of the first user of that name.
pub open spec fn home_by_name(passwd: Seq<char>, name: Seq<char>) -> Option<Seq<char>> {
    first_some(text::text_lines(passwd), |line: Seq<char>| home_of_name(line, name))
}

/// The home directory of the first user with that number.
pub open spec fn home_by_uid(passwd: Seq<char>, uid: nat) -> Option<Seq<char>> {
    first_some(text::text_lines(passwd), |line: Seq<char>| home_of_uid(line, uid))
}

/// The numbers of the first user with that home directory.
pub open spec fn ids_by_home(passwd: Seq<char>, home: Seq<char>) -> Option<(nat, nat)> {
    first_some(text::text_lines(passwd), |line: Seq<char>| ids_of_home(line, home))
}

/// The home directory of the user who started this process with the rights of
/// root: the one whom `SUDO_USER` names, or else the one whom `PKEXEC_UID`
/// numbers.
pub open spec fn invoking_home(
    passwd: Option<Seq<char>>,
    sudo_user: Option<Seq<char>>,
    pkexec_uid: Option<Seq<char>>,
) -> Option<Seq<char>> {
    match (passwd, sudo_user, pkexec_uid) {
        (Some(passwd), Some(name), _) => home_by_name(passwd, name),
        (Some(passwd), None, Some(uid)) => match field_number(uid) {
            Some(uid) => home_by_uid(passwd, uid),
            None => None,
        },
        _ => None,
    }
}

/// What `deep_view` is to text, for a pair of numbers.
pub open spec fn ids_view(ids: Option<(u32, u32)>) -> Option<(nat, nat)> {
    match ids {
        Some((uid, gid)) => Some((uid as nat, gid as nat)),
        None => None,
    }
}

/// The home directory of the user `username`.
pub fn linux_user_home_by_name(passwd: &str, username: &str) -> (r: Option<String>)
    ensures
        r.deep_view() == home_by_name(passwd@, username@),
{
    let lines: Vec<String> = text::lines(passwd);
    let ghost all = lines.deep_view();
    let ghost f = |line: Seq<char>| home_of_name(line, username@);
    let mut i: usize = 0;
    assert(all.skip(0) =~= all);
    while i < lines.len()
        invariant
            i <= lines@.len(),
            all == lines.deep_view(),
            all == text::text_lines(passwd@),
            f == (|line: Seq<char>| home_of_name(line, username@)),
            first_some(all, f) == first_some(all.skip(i as int), f),
        decreases lines@.len() - i,
    {
        let parts: Vec<String> = text::split(lines[i].as_str(), ':');
        assert(all.skip(i as int)[0] == lines@[i as int]@);
        assert(all.skip(i as int).skip(1) =~= all.skip(i as int + 1));
        assert(forall|j: int| 0 <= j < parts@.len() ==> parts.deep_view()[j] == parts@[j]@);
        if parts.len() > 5 && text::same_text(parts[0].as_str(), username) {
            return Some(parts[5].clone());
        }
        i = i + 1;
    }
    None
}

/// The home directory of the user with the number `uid`.
pub fn linux_user_home_by_uid(passwd: &str, uid: u32) -> (r: Option<String>)
    ensures
        r.deep_view() == home_by_uid(passwd@, uid as nat),
{
    let lines: Vec<String> = text::lines(passwd);
    let ghost all = lines.deep_view();
    let ghost f = |line: Seq<char>| home_of_uid(line, uid as nat);
    let mut i: usize = 0;
    assert(all.skip(0) =~= all);
    while i < lines.len()
        invariant
            i <= lines@.len(),
            all == lines.deep_view(),
            all == text::text_lines(passwd@),
            f == (|line: Seq<char>| home_of_uid(line, uid as nat)),
            first_some(all, f) == first_some(all.skip(i as int), f),
        decreases lines@.len() - i,
    {
        let parts: Vec<String> = text::split(lines[i].as_str(), ':');
        assert(all.skip(i as int)[0] == lines@[i as int]@);
        assert(all.skip(i as int).skip(1) =~= all.skip(i as int + 1));
        assert(forall|j: int| 0 <= j < parts@.len() ==> parts.deep_view()[j] == parts@[j]@);
        if parts.len() > 5 {
            if let Some(value) = number::parse(parts[2].as_str(), 10, u32::MAX) {
                if value == uid {
                    return Some(parts[5].clone());
                }
            }
        }
        i = i + 1;
    }
    None
}

/// The user and group number of the user whose home directory is `home`.
pub fn linux_user_ids_from_home(passwd: &str, home: &str) -> (r: Option<(u32, u32)>)
    ensures
        ids_view(r) == ids_by_home(passwd@, home@),
{
    let lines: Vec<String> = text::lines(passwd);
    let ghost all = lines.deep_view();
    let ghost f = |line: Seq<char>| ids_of_home(line, home@);
    let mut i: usize = 0;
    assert(all.skip(0) =~= all);
    while i < lines.len()
        invariant
            i <= lines@.len(),
            all == lines.deep_view(),
            all == text::text_lines(passwd@),
            f == (|line: Seq<char>| ids_of_home(line, home@)),
            first_some(all, f) == first_some(all.skip(i as int), f),
        decreases lines@.len() - i,
    {
        let parts: Vec<String> = text::split(lines[i].as_str(), ':');
        assert(all.skip(i as int)[0] == lines@[i as int]@);
        assert(all.skip(i as int).skip(1) =~= all.skip(i as int + 1));
        assert(forall|j: int| 0 <= j < parts@.len() ==> parts.deep_view()[j] == parts@[j]@);
        if parts.len() > 5 && text::same_text(parts[5].as_str(), home) {
            let uid: Option<u32> = number::parse(parts[2].as_str(), 10, u32::MAX);
            let gid: Option<u32> = number::parse(parts[3].as_str(), 10, u32::MAX);
            if let (Some(uid), Some(gid)) = (uid, gid) {
                return Some((uid, gid));
            }
        }
        i = i + 1;
    }
    None
}

/// The home directory of the user who started this process with the rights of
/// root, from the text of `/etc/passwd` (if it can be read) and the variables
/// `SUDO_USER` and `PKEXEC_UID`.
pub fn linux_invoking_user_home(
    passwd: Option<&str>,
    sudo_user: Option<&str>,
    pkexec_uid: Option<&str>,
) -> (r: Option<String>)
    ensures
        r.deep_view() == invoking_home(
            passwd.deep_view(),
            sudo_user.deep_view(),
            pkexec_uid.deep_view(),
        ),
{
    let passwd: &str = match passwd {
        Some(passwd) => passwd,
        None => {
            return None;
        },
    };
    match sudo_user {
        Some(username) => linux_user_home_by_name(passwd, username),
        None => match pkexec_uid {
            Some(uid) => match number::parse(uid, 10, u32::MAX) {
                Some(uid) => linux_user_home_by_uid(passwd, uid),
                None => None,
            },
            None => None,
        },
    }
}

/// To whom the files of a mounted partition are to belong.
pub open spec fn mount_ids(
    root: bool,
    passwd: Option<Seq<char>>,
    home: Option<Seq<char>>,
    own: (nat, nat),
) -> Option<(nat, nat)> {
    if root {
        match (passwd, home) {
            (Some(passwd), Some(home)) => ids_by_home(passwd, home),
            _ => None,
        }
    } else {
        Some(own)
    }
}

/// To whom the files of a mounted partition are to belong: to the user of this
/// process, or, if that is root, to the one who started it.
pub fn linux_mount_user_ids(
    root: bool,
    passwd: Option<&str>,
    invoking_home: Option<&str>,
    own: (u32, u32),
) -> (r: Option<(u32, u32)>)
    ensures
        ids_view(r) == mount_ids(
            root,
            passwd.deep_view(),
            invoking_home.deep_view(),
            (own.0 as nat, own.1 as nat),
        ),
{
    if root {
        match (passwd, invoking_home) {
            (Some(passwd), Some(home)) => linux_user_ids_from_home(passwd, home),
            _ => None,
        }
    } else {
        Some(own)
    }
}

/// What is found is what the first line gives that gives something; nothing is found
/// just where no line gives anything.
pub proof fn law_first_line_counts<A>(
    lines: Seq<Seq<char>>,
    f: spec_fn(Seq<char>) -> Option<A>,
)
    ensures
        match first_some(lines, f) {
            Some(value) => exists|i: int|
                0 <= i < lines.len() && f(#[trigger] lines[i]) == Some(value) && (forall|j: int|
                    0 <= j < i ==> f(#[trigger] lines[j]) is None),
            None => forall|i: int| 0 <= i < lines.len() ==> f(#[trigger] lines[i]) is None,
        },
    decreases lines.len(),
{
    if lines.len() > 0 && f(lines[0]) is None {
        let rest = lines.skip(1);
        law_first_line_counts(rest, f);
        match first_some(rest, f) {
            Some(value) => {
                let i = choose|i: int|
                    0 <= i < rest.len() && f(#[trigger] rest[i]) == Some(value) && (forall|j: int|
                        0 <= j < i ==> f(#[trigger] rest[j]) is None);
                assert(lines[i + 1] == rest[i]);
                assert forall|j: int| 0 <= j < i + 1 implies f(#[trigger] lines[j]) is None by {
                    if j > 0 {
                        assert(lines[j] == rest[j - 1]);
                    }
                }
            },
            None => {
                assert forall|i: int| 0 <= i < lines.len() implies f(
                    #[trigger] lines[i],
                ) is None by {
                    if i > 0 {
                        assert(lines[i] == rest[i - 1]);
                    }
                }
            },
        }
    }
}

/// A line is for the user with a name: its first field is the name, and there is a
/// sixth.
pub open spec fn for_name(line: Seq<char>, name: Seq<char>) -> bool {
    text::pieces(line, ':').len() >= 6 && text::pieces(line, ':')[0] == name
}

/// A line is for the user with a number: its third field is the number, and there is
/// a sixth.
pub open spec fn for_uid(line: Seq<char>, uid: nat) -> bool {
    text::pieces(line, ':').len() >= 6 && number::parsed(
        text::pieces(line, ':')[2],
        10,
        4294967295,
    ) == Some(uid)
}

/// A line is for the user with a home directory: its sixth field is the directory,
/// and its third and fourth are numbers.
pub open spec fn for_home(line: Seq<char>, home: Seq<char>) -> bool {
    let all = text::pieces(line, ':');
    all.len() >= 6 && all[5] == home && number::parsed(all[2], 10, 4294967295) is Some
        && number::parsed(all[3], 10, 4294967295) is Some
}

/// The first line of which something holds.
pub open spec fn first_of(lines: Seq<Seq<char>>, i: int, holds: spec_fn(Seq<char>) -> bool) -> bool {
    &&& 0 <= i < lines.len()
    &&& holds(lines[i])
    &&& forall|j: int| 0 <= j < i ==> !holds(#[trigger] lines[j])
}

/// The home directory of a user is the sixth field of the first line for that name;
/// there is none just where there is no such line.
pub proof fn law_home_is_told_for_the_name(passwd: Seq<char>, name: Seq<char>)
    ensures
        ({
            let lines = text::text_lines(passwd);
            let holds = |line: Seq<char>| for_name(line, name);
            match home_by_name(passwd, name) {
                Some(home) => exists|i: int|
                    #[trigger] first_of(lines, i, holds)
                        && text::pieces(lines[i], ':')[5] == home,
                None => forall|i: int|
                    0 <= i < lines.len() ==> !for_name(#[trigger] lines[i], name),
            }
        }),
{
    let lines = text::text_lines(passwd);
    let f = |line: Seq<char>| home_of_name(line, name);
    let holds = |line: Seq<char>| for_name(line, name);
    law_first_line_counts(lines, f);
    assert forall|j: int| 0 <= j < lines.len() implies (f(#[trigger] lines[j]) is Some <==> holds(
        lines[j],
    )) by {}
    if let Some(home) = home_by_name(passwd, name) {
        let i = choose|i: int|
            0 <= i < lines.len() && f(#[trigger] lines[i]) == Some(home) && (forall|j: int|
                0 <= j < i ==> f(#[trigger] lines[j]) is None);
        assert(first_of(lines, i, holds));
    }
}

/// The home directory of a user is the sixth field of the first line for that number;
/// there is none just where there is no such line.
pub proof fn law_home_is_told_for_the_number(passwd: Seq<char>, uid: nat)
    ensures
        ({
            let lines = text::text_lines(passwd);
            let holds = |line: Seq<char>| for_uid(line, uid);
            match home_by_uid(passwd, uid) {
                Some(home) => exists|i: int|
                    #[trigger] first_of(lines, i, holds)
                        && text::pieces(lines[i], ':')[5] == home,
                None => forall|i: int| 0 <= i < lines.len() ==> !for_uid(#[trigger] lines[i], uid),
            }
        }),
{
    let lines = text::text_lines(passwd);
    let f = |line: Seq<char>| home_of_uid(line, uid);
    let holds = |line: Seq<char>| for_uid(line, uid);
    law_first_line_counts(lines, f);
    assert forall|j: int| 0 <= j < lines.len() implies (f(#[trigger] lines[j]) is Some <==> holds(
        lines[j],
    )) by {}
    if let Some(home) = home_by_uid(passwd, uid) {
        let i = choose|i: int|
            0 <= i < lines.len() && f(#[trigger] lines[i]) == Some(home) && (forall|j: int|
                0 <= j < i ==> f(#[trigger] lines[j]) is None);
        assert(first_of(lines, i, holds));
    }
}

/// The numbers of the user and the group are the third and fourth field of the first
/// line for that home directory; there are none just where there is no such line.
pub proof fn law_numbers_are_told_for_the_home(passwd: Seq<char>, home: Seq<char>)
    ensures
        ({
            let lines = text::text_lines(passwd);
            let holds = |line: Seq<char>| for_home(line, home);
            match ids_by_home(passwd, home) {
                Some((uid, gid)) => exists|i: int|
                    #[trigger] first_of(lines, i, holds)
                        && number::parsed(text::pieces(lines[i], ':')[2], 10, 4294967295) == Some(
                        uid,
                    ) && number::parsed(text::pieces(lines[i], ':')[3], 10, 4294967295) == Some(
                        gid,
                    ),
                None => forall|i: int| 0 <= i < lines.len() ==> !for_home(#[trigger] lines[i], home),
            }
        }),
{
    let lines = text::text_lines(passwd);
    let f = |line: Seq<char>| ids_of_home(line, home);
    let holds = |line: Seq<char>| for_home(line, home);
    law_first_line_counts(lines, f);
    assert forall|j: int| 0 <= j < lines.len() implies (f(#[trigger] lines[j]) is Some <==> holds(
        lines[j],
    )) by {}
    if let Some(ids) = ids_by_home(passwd, home) {
        let i = choose|i: int|
            0 <= i < lines.len() && f(#[trigger] lines[i]) == Some(ids) && (forall|j: int|
                0 <= j < i ==> f(#[trigger] lines[j]) is None);
        assert(first_of(lines, i, holds));
    }
}

/// The user on whose behalf root runs is the one whom `SUDO_USER` names, even where
/// that user has no home; without it, the one whom `PKEXEC_UID` numbers; else there
/// is none.
pub proof fn law_sudo_user_comes_before_pkexec_uid(
    passwd: Seq<char>,
    name: Seq<char>,
    uid: Option<Seq<char>>,
    number: nat,
)
    ensures
        invoking_home(Some(passwd), Some(name), uid) == home_by_name(passwd, name),
        number <= 4294967295 ==> invoking_home(
            Some(passwd),
            None,
            Some(number::numeral(number)),
        ) == home_by_uid(passwd, number),
        invoking_home(Some(passwd), None, None) is None,
        invoking_home(None, Some(name), uid) is None,
        invoking_home(None, None, uid) is None,
{
    if number <= 4294967295 {
        number::law_numeral_is_read_back(number, 4294967295);
    }
}

/// What is mounted belongs to the user who runs the switcher; where root runs it, to
/// the user on whose behalf it does, if that one is known.
pub proof fn law_mounts_belong_to_the_session_user(
    passwd: Option<Seq<char>>,
    home: Option<Seq<char>>,
    own: (nat, nat),
)
    ensures
        mount_ids(false, passwd, home, own) == Some(own),
        passwd is Some && home is Some ==> mount_ids(true, passwd, home, own) == ids_by_home(
            passwd->0,
            home->0,
        ),
        passwd is None || home is None ==> mount_ids(true, passwd, home, own) is None,
{
}

/// The numbers of a user are that of the user and that of the group, in this order.
pub proof fn law_user_comes_before_group(uid: u32, gid: u32)
    ensures
        ids_view(Some((uid, gid))) == Some((uid as nat, gid as nat)),
        ids_view(None) is None,
{
}

} // verus!
