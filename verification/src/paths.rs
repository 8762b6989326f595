//! Paths of every platform, as text: what lies in a directory.
use vstd::prelude::*;
use vstd::string::*;

use crate::command::Platform;
use crate::text;
use crate::unix_path;

verus! {

/// A drive of Windows by its letter alone, which stands for the directory that is
/// current on it.
pub open spec fn bare_drive(directory: Seq<char>) -> bool {
    &&& directory.len() == 2
    &&& 'a' <= directory[0] <= 'z' || 'A' <= directory[0] <= 'Z'
    &&& directory[1] == ':'
}

/// The path of `name`, which is relative, in a directory of Windows. A separator
/// stands between them, unless there is one already or none belongs there.
pub open spec fn inside_windows(directory: Seq<char>, name: Seq<char>) -> Seq<char> {
    if directory.len() == 0 || directory.last() == '\\' || directory.last() == '/' || bare_drive(
        directory,
    ) {
        directory + name
    } else {
        directory + seq!['\\'] + name
    }
}

/// The path of `name`, which is relative, in a directory.
pub open spec fn inside(platform: Platform, directory: Seq<char>, name: Seq<char>) -> Seq<char> {
    if platform == Platform::Windows {
        inside_windows(directory, name)
    } else {
        unix_path::below(directory, name)
    }
}

/// Whether `directory` is a drive by its letter alone.
fn is_bare_drive(directory: &str) -> (r: bool)
    ensures
        r == bare_drive(directory@),
{
    if directory.unicode_len() != 2 {
        return false;
    }
    let letter: char = directory.get_char(0);
    (('a' <= letter && letter <= 'z') || ('A' <= letter && letter <= 'Z')) && directory.get_char(1)
        == ':'
}

/// The path of `name`, which is relative, in `directory`.
pub fn join(platform: Platform, directory: &str, name: &str) -> (r: String)
    ensures
        r@ == inside(platform, directory@, name@),
{
    if platform != Platform::Windows {
        return unix_path::join(directory, name);
    }
    proof {
        reveal_strlit("\\");
        assert("\\"@ =~= seq!['\\']);
    }
    let n: usize = directory.unicode_len();
    if n == 0 || directory.get_char(n - 1) == '\\' || directory.get_char(n - 1) == '/'
        || is_bare_drive(directory) {
        text::concat(directory, name)
    } else {
        text::concat3(directory, "\\", name)
    }
}

/// A path begins with the directory in which it lies and ends with its name.
pub proof fn law_path_begins_and_ends(platform: Platform, directory: Seq<char>, name: Seq<char>)
    ensures
        text::begins_with(inside(platform, directory, name), directory),
        text::finishes_with(inside(platform, directory, name), name),
{
    let path = inside(platform, directory, name);
    assert(path.take(directory.len() as int) =~= directory);
    assert(path.skip(path.len() - name.len()) =~= name);
}

/// On Windows a name stands behind a backslash, unless a separator stands there, or
/// the directory is empty or a drive by its letter alone; elsewhere it stands behind
/// a slash, as on every Unix.
pub proof fn law_separator_is_that_of_the_platform(directory: Seq<char>, name: Seq<char>)
    ensures
        inside(Platform::Linux, directory, name) == unix_path::below(directory, name),
        inside(Platform::MacOs, directory, name) == unix_path::below(directory, name),
        inside(Platform::Windows, directory.push('\\'), name) == directory.push('\\') + name,
        inside(Platform::Windows, directory.push('/'), name) == directory.push('/') + name,
        inside(Platform::Windows, Seq::empty(), name) == name,
        directory.len() > 2 && directory.last() != '\\' && directory.last() != '/' ==> inside(
            Platform::Windows,
            directory,
            name,
        ) == directory.push('\\') + name,
{
    assert(Seq::<char>::empty() + name =~= name);
    assert(directory + seq!['\\'] =~= directory.push('\\'));
}

/// A single character and a colon are a drive of Windows just where the character is a
/// letter of the alphabet, small or capital: a name then stands right behind the colon.
pub proof fn law_drive_is_a_letter_and_a_colon(letter: char, other: char, name: Seq<char>)
    requires
        other != '\\' && other != '/',
    ensures
        (97 <= letter as int <= 122) || (65 <= letter as int <= 90) ==> inside(
            Platform::Windows,
            seq![letter, ':'],
            name,
        ) == seq![letter, ':'] + name,
        !(97 <= letter as int <= 122) && !(65 <= letter as int <= 90) ==> inside(
            Platform::Windows,
            seq![letter, ':'],
            name,
        ) == seq![letter, ':', '\\'] + name,
        other != ':' ==> inside(Platform::Windows, seq![letter, other], name) == seq![
            letter,
            other,
            '\\',
        ] + name,
        inside(Platform::Windows, seq![other], name) == seq![other, '\\'] + name,
{
    assert(seq![letter, ':'] + seq!['\\'] =~= seq![letter, ':', '\\']);
    assert(seq![letter, other] + seq!['\\'] =~= seq![letter, other, '\\']);
    assert(seq![other] + seq!['\\'] =~= seq![other, '\\']);
}

} // verus!
