//! Starting with the session on Linux: the desktop file in the home directory of
//! the user.
use vstd::prelude::*;
use vstd::string::*;

use crate::autostart;
use crate::autostart::AutostartState;
use crate::command;
use crate::text;
use crate::unix_path;
use crate::users;

verus! {

// ---------------------------------------------------------------------------
// Quoting
// ---------------------------------------------------------------------------

/// A character as it stands between single quotes: a quote closes them, stands
/// escaped, and opens them again.
pub open spec fn quoted_char(c: char) -> Seq<char> {
    if c == '\'' {
        seq!['\'', '\\', '\'', '\'']
    } else {
        seq![c]
    }
}

/// The characters of `s` as they stand between single quotes.
pub open spec fn quoted_chars(s: Seq<char>) -> Seq<char>
    decreases s.len(),
{
    if s.len() == 0 {
        Seq::empty()
    } else {
        quoted_chars(s.drop_last()) + quoted_char(s.last())
    }
}

/// `s` in single quotes.
pub open spec fn quoted(s: Seq<char>) -> Seq<char> {
    seq!['\''] + quoted_chars(s) + seq!['\'']
}

/// `value` as a word of a shell's command line.
pub fn shell_quote(value: &str) -> (r: String)
    ensures
        r@ == quoted(value@),
{
    let chars: Vec<char> = text::to_chars(value);
    let mut out: String = String::new();
    out.push('\'');
    let mut i: usize = 0;
    assert(out@ =~= seq!['\''] + quoted_chars(chars@.take(0)));
    while i < chars.len()
        invariant
            i <= chars@.len(),
            out@ == seq!['\''] + quoted_chars(chars@.take(i as int)),
        decreases chars@.len() - i,
    {
        let ghost before = out@;
        let c: char = chars[i];
        if c == '\'' {
            out.push('\'');
            out.push('\\');
            out.push('\'');
            out.push('\'');
        } else {
            out.push(c);
        }
        assert(out@ =~= before + quoted_char(c));
        assert(chars@.take(i as int + 1).drop_last() =~= chars@.take(i as int));
        assert(chars@.take(i as int + 1).last() == c);
        assert(out@ =~= seq!['\''] + quoted_chars(chars@.take(i as int + 1)));
        i = i + 1;
    }
    assert(chars@.take(i as int) =~= value@);
    out.push('\'');
    assert(out@ =~= quoted(value@));
    out
}

/// A character that stands for itself in a shell's command line: it is no blank, and
/// neither quotes, expands, matches nor separates anything.
pub open spec fn stands_for_itself(c: char) -> bool {
    &&& !text::white_space(c)
    &&& c != '|' && c != '&' && c != ';' && c != '<' && c != '>' && c != '(' && c != ')'
    &&& c != '$' && c != '`' && c != '\\' && c != '"' && c != '\''
    &&& c != '*' && c != '?' && c != '[' && c != ']' && c != '{' && c != '}'
    &&& c != '#' && c != '~' && c != '=' && c != '%' && c != '!' && c != '^'
}

/// The word that a text is in a shell's command line, if it is a single one of which
/// nothing is expanded, read from outside of quotes or inside single quotes on.
/// Outside, a backslash stands for the character behind it, which may not be a line
/// feed; inside, every character but the quote stands for itself. A quote that is
/// not closed makes no word.
pub open spec fn shell_word(s: Seq<char>, inside: bool) -> Option<Seq<char>>
    decreases s.len(),
{
    if s.len() == 0 {
        if inside {
            None
        } else {
            Some(Seq::empty())
        }
    } else if s[0] == '\'' {
        shell_word(s.skip(1), !inside)
    } else if inside || stands_for_itself(s[0]) {
        match shell_word(s.skip(1), inside) {
            Some(rest) => Some(seq![s[0]] + rest),
            None => None,
        }
    } else if s[0] == '\\' && s.len() > 1 && s[1] != '\n' {
        match shell_word(s.skip(2), inside) {
            Some(rest) => Some(seq![s[1]] + rest),
            None => None,
        }
    } else {
        None
    }
}

/// Quoting begins with the first character as well as it ends with the last.
proof fn lemma_quoted_chars_front(c: char, s: Seq<char>)
    ensures
        quoted_chars(seq![c] + s) == quoted_char(c) + quoted_chars(s),
    decreases s.len(),
{
    let all = seq![c] + s;
    if s.len() == 0 {
        assert(all.drop_last() =~= Seq::empty());
        assert(all.last() == c);
        assert(quoted_chars(Seq::<char>::empty()) =~= Seq::empty());
        assert(s =~= Seq::empty());
        assert(quoted_chars(all) == quoted_chars(all.drop_last()) + quoted_char(c));
        assert(quoted_chars(all) =~= quoted_char(c) + quoted_chars(s));
    } else {
        lemma_quoted_chars_front(c, s.drop_last());
        assert(all.drop_last() =~= seq![c] + s.drop_last());
        assert(quoted_chars(all) =~= quoted_char(c) + quoted_chars(s));
    }
}

/// Inside quotes, a shell reads the quoted characters back.
proof fn lemma_shell_reads_quoted_chars(s: Seq<char>)
    ensures
        shell_word(quoted_chars(s) + seq!['\''], true) == Some(s),
    decreases s.len(),
{
    if s.len() == 0 {
        assert(quoted_chars(s) + seq!['\''] =~= seq!['\'']);
        assert(seq!['\''].skip(1) =~= Seq::empty());
        assert(shell_word(seq!['\''], true) == shell_word(seq!['\''].skip(1), false));
        assert(shell_word(Seq::empty(), false) == Some(Seq::<char>::empty()));
        assert(s =~= Seq::empty());
    } else {
        let c = s[0];
        let rest = s.skip(1);
        let after = quoted_chars(rest) + seq!['\''];
        lemma_shell_reads_quoted_chars(rest);
        lemma_quoted_chars_front(c, rest);
        assert(seq![c] + rest =~= s);
        let all = quoted_chars(s) + seq!['\''];
        assert(all =~= quoted_char(c) + after);
        if c == '\'' {
            let outside = seq!['\\', '\'', '\''] + after;
            let opened = seq!['\''] + after;
            assert(all.skip(1) =~= outside);
            assert(outside.skip(2) =~= opened);
            assert(opened.skip(1) =~= after);
            assert(shell_word(opened, false) == shell_word(after, true));
            assert(shell_word(outside, false) == Some(seq!['\''] + rest));
            assert(shell_word(all, true) == shell_word(outside, false));
        } else {
            assert(all.skip(1) =~= after);
            assert(shell_word(all, true) == Some(seq![c] + rest));
        }
    }
}

/// A quoted text, whatever it holds, is one word of a shell's command line, and a
/// shell reads it as that text: it is neither split nor expanded.
pub proof fn law_quoted_text_is_one_word(s: Seq<char>)
    ensures
        shell_word(quoted(s), false) == Some(s),
{
    lemma_shell_reads_quoted_chars(s);
    assert(quoted(s).skip(1) =~= quoted_chars(s) + seq!['\'']);
}

// ---------------------------------------------------------------------------
// The file
// ---------------------------------------------------------------------------

/// The home directory in which the desktop file stands: for root, that of the
/// user on whose behalf it runs.
pub open spec fn session_home(
    root: bool,
    invoking_home: Option<Seq<char>>,
    home_dir: Result<Seq<char>, Seq<char>>,
) -> Result<Seq<char>, Seq<char>> {
    if root {
        match invoking_home {
            Some(home) => Ok(home),
            None => Err("无法识别当前登录用户"@),
        }
    } else {
        match home_dir {
            Ok(home) => Ok(home),
            Err(error) => Err("无法定位用户主目录: "@ + error),
        }
    }
}

/// What a result with texts says.
pub open spec fn texts(result: Result<String, String>) -> Result<Seq<char>, Seq<char>> {
    match result {
        Ok(value) => Ok(value@),
        Err(error) => Err(error@),
    }
}

/// The directory of desktop files that are started with the session.
pub open spec fn autostart_directory(
    root: bool,
    invoking_home: Option<Seq<char>>,
    home_dir: Result<Seq<char>, Seq<char>>,
) -> Result<Seq<char>, Seq<char>> {
    match session_home(root, invoking_home, home_dir) {
        Ok(home) => Ok(
            unix_path::below(unix_path::below(home, ".config"@), "autostart"@),
        ),
        Err(error) => Err(error),
    }
}

/// The directory of desktop files that are started with the session.
pub fn linux_autostart_directory(
    root: bool,
    invoking_home: Option<String>,
    home_dir: Result<String, String>,
) -> (r: Result<String, String>)
    ensures
        texts(r) == autostart_directory(root, invoking_home.deep_view(), texts(home_dir)),
{
    let home: String = if root {
        match invoking_home {
            Some(home) => home,
            None => {
                return Err("无法识别当前登录用户".to_owned());
            },
        }
    } else {
        match home_dir {
            Ok(home) => home,
            Err(error) => {
                return Err(text::concat("无法定位用户主目录: ", error.as_str()));
            },
        }
    };
    let config: String = unix_path::join(home.as_str(), ".config");
    Ok(unix_path::join(config.as_str(), "autostart"))
}

/// The desktop file of an app in its directory, once that was to be made.
pub open spec fn autostart_file(
    directory: Seq<char>,
    created: Result<(), Seq<char>>,
    name: Seq<char>,
) -> Result<Seq<char>, Seq<char>> {
    match created {
        Ok(_) => Ok(unix_path::below(directory, autostart::desktop_name(name))),
        Err(error) => Err("无法创建自启动目录: "@ + error),
    }
}

/// The desktop file of the app `name` in `directory`, once that was to be made.
pub fn linux_autostart_file(directory: &str, created: Result<(), String>, name: &str) -> (r: Result<
    String,
    String,
>)
    ensures
        texts(r) == autostart_file(directory@, command::outcome(created), name@),
{
    match created {
        Ok(_) => Ok(unix_path::join(directory, autostart::desktop_file_name(name).as_str())),
        Err(error) => Err(text::concat("无法创建自启动目录: ", error.as_str())),
    }
}

/// The state from whether there is a desktop file, if that could be told.
pub fn linux_autostart_state(exists: Result<bool, String>) -> (r: AutostartState)
    ensures
        r == match command::outcome(exists) {
            Ok(true) => AutostartState::Enabled,
            Ok(false) => AutostartState::Disabled,
            Err(_) => AutostartState::Unavailable,
        },
{
    match exists {
        Ok(exists) => if exists {
            AutostartState::Enabled
        } else {
            AutostartState::Disabled
        },
        Err(_) => AutostartState::Unavailable,
    }
}

/// A desktop file with these contents is not one of the switcher's own.
pub open spec fn stale(contents: Seq<char>) -> bool {
    &&& !text::occurs_in("rEFInd Switcher"@, contents)
    &&& !text::occurs_in("refind-switcher"@, contents)
}

/// Whether a desktop file with these contents is not one of the switcher's own.
pub fn is_stale(contents: &str) -> (r: bool)
    ensures
        r == stale(contents@),
{
    !text::contains(contents, "rEFInd Switcher") && !text::contains(contents, "refind-switcher")
}

/// What the desktop file holds before the app's name.
pub const ENTRY_HEAD: &'static str = "[Desktop Entry]\nType=Application\nVersion=1.0\nName=";

/// What it holds between the name and the title.
pub const ENTRY_COMMENT: &'static str = "\nComment=";

/// The title, by which the file is known as one of the switcher's own.
pub const ENTRY_TITLE: &'static str = "rEFInd Switcher";

/// What it holds between the title and the program.
pub const ENTRY_EXEC: &'static str = "\nExec=";

/// What it holds behind the program.
pub const ENTRY_TAIL: &'static str =
    " --from-autostart\nStartupNotify=false\nTerminal=false\nX-GNOME-Autostart-enabled=true\n";

/// What the desktop file of an app holds.
pub open spec fn entry(name: Seq<char>, program: Seq<char>) -> Seq<char> {
    ENTRY_HEAD@ + name + ENTRY_COMMENT@ + ENTRY_TITLE@ + ENTRY_EXEC@ + quoted(program)
        + ENTRY_TAIL@
}

/// What the desktop file of the app `name`, started from `program`, holds.
pub fn desktop_entry(name: &str, program: &str) -> (r: String)
    ensures
        r@ == entry(name@, program@),
{
    let mut out: String = text::concat(ENTRY_HEAD, name);
    out.append(ENTRY_COMMENT);
    out.append(ENTRY_TITLE);
    out.append(ENTRY_EXEC);
    out.append(shell_quote(program).as_str());
    out.append(ENTRY_TAIL);
    out
}

/// The desktop file that is written is one of the switcher's own.
pub proof fn law_written_entry_is_not_stale(name: Seq<char>, program: Seq<char>)
    ensures
        !stale(entry(name, program)),
{
    let before = ENTRY_HEAD@ + name + ENTRY_COMMENT@;
    let all = entry(name, program);
    let from = before.len() as int;
    let to = from + ENTRY_TITLE@.len();
    assert(all.subrange(from, to) =~= ENTRY_TITLE@);
    assert(text::occurs_at(ENTRY_TITLE@, all, from));
}

// ---------------------------------------------------------------------------
// Turning it on and off
// ---------------------------------------------------------------------------

/// Where the program lies, as far as that could be told.
#[derive(Debug, PartialEq, Eq)]
pub enum Located {
    /// Its path, and that of the image from which it was started, if there is a
    /// file there.
    Found { executable: String, image: Option<String> },
    /// Its path could not be told.
    Unknown(String),
    /// Its path could not be resolved.
    Unresolved(String),
}

/// What a `Located` says.
pub enum LocatedView {
    Found { executable: Seq<char>, image: Option<Seq<char>> },
    Unknown(Seq<char>),
    Unresolved(Seq<char>),
}

impl DeepView for Located {
    type V = LocatedView;

    open spec fn deep_view(&self) -> LocatedView {
        match *self {
            Located::Found { executable, image } => LocatedView::Found {
                executable: executable@,
                image: image.deep_view(),
            },
            Located::Unknown(error) => LocatedView::Unknown(error@),
            Located::Unresolved(error) => LocatedView::Unresolved(error@),
        }
    }
}

/// What is to be done next with the desktop file.
#[derive(Debug, PartialEq, Eq)]
pub enum EntryStage {
    /// Read it.
    Inspect,
    /// Remove it, for it is not one of the switcher's own.
    RemoveStale,
    /// See whether it is there.
    CheckExists,
    /// Remove it.
    Remove,
    /// Find out where the program lies.
    Locate,
    /// Write this to it.
    Write(String),
    /// Nothing more: all has ended so.
    Finished(Result<AutostartState, String>),
}

/// What an `EntryStage` says.
pub enum EntryView {
    Inspect,
    RemoveStale,
    CheckExists,
    Remove,
    Locate,
    Write(Seq<char>),
    Finished(Result<AutostartState, Seq<char>>),
}

impl DeepView for EntryStage {
    type V = EntryView;

    open spec fn deep_view(&self) -> EntryView {
        match *self {
            EntryStage::Inspect => EntryView::Inspect,
            EntryStage::RemoveStale => EntryView::RemoveStale,
            EntryStage::CheckExists => EntryView::CheckExists,
            EntryStage::Remove => EntryView::Remove,
            EntryStage::Locate => EntryView::Locate,
            EntryStage::Write(contents) => EntryView::Write(contents@),
            EntryStage::Finished(result) => EntryView::Finished(command::outcome(result)),
        }
    }
}

/// What came of a stage.
#[derive(Debug, PartialEq, Eq)]
pub enum EntryReply {
    /// What the file holds, if it could be read.
    Contents(Option<String>),
    /// Whether it is there.
    Exists(bool),
    /// Where the program lies.
    Program(Located),
    /// How removing or writing ended.
    Done(Result<(), String>),
}

/// What an `EntryReply` says.
pub enum EntryReplyView {
    Contents(Option<Seq<char>>),
    Exists(bool),
    Program(LocatedView),
    Done(Result<(), Seq<char>>),
}

impl DeepView for EntryReply {
    type V = EntryReplyView;

    open spec fn deep_view(&self) -> EntryReplyView {
        match *self {
            EntryReply::Contents(contents) => EntryReplyView::Contents(contents.deep_view()),
            EntryReply::Exists(exists) => EntryReplyView::Exists(exists),
            EntryReply::Program(located) => EntryReplyView::Program(located.deep_view()),
            EntryReply::Done(result) => EntryReplyView::Done(command::outcome(result)),
        }
    }
}

/// What follows once no foreign file is in the way.
pub open spec fn cleared(enabled: bool) -> EntryView {
    if enabled {
        EntryView::Locate
    } else {
        EntryView::CheckExists
    }
}

/// What follows a stage once `reply` has come of it. A reply that does not belong
/// to the stage changes nothing.
pub open spec fn next_entry_stage(
    name: Seq<char>,
    enabled: bool,
    stage: EntryView,
    reply: EntryReplyView,
) -> EntryView {
    match (stage, reply) {
        (EntryView::Inspect, EntryReplyView::Contents(Some(contents))) => if stale(contents) {
            EntryView::RemoveStale
        } else {
            cleared(enabled)
        },
        (EntryView::Inspect, EntryReplyView::Contents(None)) => cleared(enabled),
        (EntryView::RemoveStale, EntryReplyView::Done(_)) => cleared(enabled),
        (EntryView::CheckExists, EntryReplyView::Exists(exists)) => if exists {
            EntryView::Remove
        } else {
            EntryView::Finished(Ok(AutostartState::Disabled))
        },
        (EntryView::Remove, EntryReplyView::Done(Ok(_))) => EntryView::Finished(
            Ok(AutostartState::Disabled),
        ),
        (EntryView::Remove, EntryReplyView::Done(Err(error))) => EntryView::Finished(
            Err("无法关闭开机启动: "@ + error),
        ),
        (EntryView::Locate, EntryReplyView::Program(located)) => match located {
            LocatedView::Unknown(error) => EntryView::Finished(
                Err("无法定位当前程序: "@ + error),
            ),
            LocatedView::Unresolved(error) => EntryView::Finished(
                Err("无法解析当前程序路径: "@ + error),
            ),
            LocatedView::Found { executable, image } => EntryView::Write(
                entry(
                    name,
                    match image {
                        Some(image) => image,
                        None => executable,
                    },
                ),
            ),
        },
        (EntryView::Write(_), EntryReplyView::Done(Ok(_))) => EntryView::Finished(
            Ok(AutostartState::Enabled),
        ),
        (EntryView::Write(_), EntryReplyView::Done(Err(error))) => EntryView::Finished(
            Err("无法写入用户自启动项: "@ + error),
        ),
        _ => stage,
    }
}

/// What follows once no foreign file is in the way.
fn after_clearing(enabled: bool) -> (r: EntryStage)
    ensures
        r.deep_view() == cleared(enabled),
{
    if enabled {
        EntryStage::Locate
    } else {
        EntryStage::CheckExists
    }
}

/// What follows `stage` in turning it on or off for the app `name`, once `reply`
/// has come of it.
pub fn linux_autostart_set(name: &str, enabled: bool, stage: EntryStage, reply: EntryReply) -> (r:
    EntryStage)
    ensures
        r.deep_view() == next_entry_stage(name@, enabled, stage.deep_view(), reply.deep_view()),
{
    match (stage, reply) {
        (EntryStage::Inspect, EntryReply::Contents(contents)) => match contents {
            Some(contents) => if is_stale(contents.as_str()) {
                EntryStage::RemoveStale
            } else {
                after_clearing(enabled)
            },
            None => after_clearing(enabled),
        },
        (EntryStage::RemoveStale, EntryReply::Done(_)) => after_clearing(enabled),
        (EntryStage::CheckExists, EntryReply::Exists(exists)) => if exists {
            EntryStage::Remove
        } else {
            EntryStage::Finished(Ok(AutostartState::Disabled))
        },
        (EntryStage::Remove, EntryReply::Done(result)) => match result {
            Ok(_) => EntryStage::Finished(Ok(AutostartState::Disabled)),
            Err(error) => EntryStage::Finished(
                Err(text::concat("无法关闭开机启动: ", error.as_str())),
            ),
        },
        (EntryStage::Locate, EntryReply::Program(located)) => match located {
            Located::Unknown(error) => EntryStage::Finished(
                Err(text::concat("无法定位当前程序: ", error.as_str())),
            ),
            Located::Unresolved(error) => EntryStage::Finished(
                Err(text::concat("无法解析当前程序路径: ", error.as_str())),
            ),
            Located::Found { executable, image } => match image {
                Some(image) => EntryStage::Write(desktop_entry(name, image.as_str())),
                None => EntryStage::Write(desktop_entry(name, executable.as_str())),
            },
        },
        (EntryStage::Write(_), EntryReply::Done(result)) => match result {
            Ok(_) => EntryStage::Finished(Ok(AutostartState::Enabled)),
            Err(error) => EntryStage::Finished(
                Err(text::concat("无法写入用户自启动项: ", error.as_str())),
            ),
        },
        (other, _) => other,
    }
}

/// Where it ends well, the state is the one that was wanted.
pub open spec fn agrees(enabled: bool, stage: EntryView) -> bool {
    match stage {
        EntryView::CheckExists => !enabled,
        EntryView::Remove => !enabled,
        EntryView::Locate => enabled,
        EntryView::Write(_) => enabled,
        EntryView::Finished(Ok(state)) => state == if enabled {
            AutostartState::Enabled
        } else {
            AutostartState::Disabled
        },
        _ => true,
    }
}

/// What turning it on or off leads to, stage by stage, agrees with what was
/// wanted: it is turned on only by writing the file, and off only by removing it
/// or by its not being there.
pub proof fn law_entry_agrees_with_wish(
    name: Seq<char>,
    enabled: bool,
    stage: EntryView,
    reply: EntryReplyView,
)
    requires
        agrees(enabled, stage),
    ensures
        agrees(enabled, next_entry_stage(name, enabled, stage, reply)),
        next_entry_stage(name, enabled, stage, reply) matches EntryView::Write(contents)
            ==> enabled,
{
}

/// A file that is the switcher's own is not removed in order to be turned on.
pub proof fn law_own_entry_is_kept(name: Seq<char>, contents: Seq<char>)
    requires
        !stale(contents),
    ensures
        next_entry_stage(
            name,
            true,
            EntryView::Inspect,
            EntryReplyView::Contents(Some(contents)),
        ) == EntryView::Locate,
{
}

/// Where root runs the switcher on behalf of a user, the desktop file stands in the
/// home directory of that user, not in that of root.
pub proof fn law_root_serves_the_session_user(
    passwd: Seq<char>,
    sudo_user: Option<Seq<char>>,
    pkexec_uid: Option<Seq<char>>,
    home_dir: Result<Seq<char>, Seq<char>>,
)
    requires
        users::invoking_home(Some(passwd), sudo_user, pkexec_uid) is Some,
    ensures
        autostart_directory(
            true,
            users::invoking_home(Some(passwd), sudo_user, pkexec_uid),
            home_dir,
        ) == Ok::<Seq<char>, Seq<char>>(
            unix_path::below(
                unix_path::below(
                    users::invoking_home(Some(passwd), sudo_user, pkexec_uid)->0,
                    ".config"@,
                ),
                "autostart"@,
            ),
        ),
{
}

/// A text is quoted character by character, and a quote in it as a closing quote, an
/// escaped one and an opening one.
pub proof fn law_quoting_goes_by_characters(s: Seq<char>, c: char)
    ensures
        quoted(Seq::empty()) == seq!['\'', '\''],
        quoted(s.push(c)) == quoted(s).drop_last() + (if c == '\'' {
            seq!['\'', '\\', '\'', '\'', '\'']
        } else {
            seq![c, '\'']
        }),
{
    assert(quoted(Seq::<char>::empty()) =~= seq!['\'', '\'']);
    assert(s.push(c).drop_last() =~= s);
    assert(quoted(s.push(c)) =~= quoted(s).drop_last() + (if c == '\'' {
        seq!['\'', '\\', '\'', '\'', '\'']
    } else {
        seq![c, '\'']
    }));
}

/// The desktop file stands in the home directory of the user of the session: that of the
/// process, or, for root, that of the user on whose behalf it runs. Where there is none,
/// that is an error.
pub proof fn law_desktop_file_stands_in_the_home(
    home: Seq<char>,
    other: Result<Seq<char>, Seq<char>>,
    invoking: Option<Seq<char>>,
    error: Seq<char>,
    name: Seq<char>,
)
    ensures
        ({
            let directory = unix_path::below(unix_path::below(home, ".config"@), "autostart"@);
            &&& autostart_directory(true, Some(home), other) == Ok::<Seq<char>, Seq<char>>(
                directory,
            )
            &&& autostart_directory(false, invoking, Ok(home)) == Ok::<Seq<char>, Seq<char>>(
                directory,
            )
            &&& autostart_directory(true, None, other) == Err::<Seq<char>, Seq<char>>(
                "无法识别当前登录用户"@,
            )
            &&& autostart_directory(false, invoking, Err(error)) == Err::<Seq<char>, Seq<char>>(
                "无法定位用户主目录: "@ + error,
            )
            &&& autostart_file(directory, Ok(()), name) == Ok::<Seq<char>, Seq<char>>(
                unix_path::below(directory, autostart::desktop_name(name)),
            )
            &&& autostart_file(directory, Err(error), name) == Err::<Seq<char>, Seq<char>>(
                "无法创建自启动目录: "@ + error,
            )
        }),
{
}

/// A desktop file is a foreign one just where it says neither of the switcher's names.
pub proof fn law_own_files_say_their_name(contents: Seq<char>)
    ensures
        stale(contents) <==> !text::occurs_in("rEFInd Switcher"@, contents) && !text::occurs_in(
            "refind-switcher"@,
            contents,
        ),
{
}

/// The desktop file names the app, and starts the program, quoted, with the word by which
/// it knows that the session started it.
pub proof fn law_entry_starts_the_program(name: Seq<char>, program: Seq<char>)
    ensures
        entry(name, program)
            == "[Desktop Entry]\nType=Application\nVersion=1.0\nName="@ + name + "\nComment="@
            + "rEFInd Switcher"@ + "\nExec="@ + quoted(program)
            + " --from-autostart\nStartupNotify=false\nTerminal=false\nX-GNOME-Autostart-enabled=true\n"@,
{
}

/// To turn it on, a foreign file is removed first, then the program is located and the file
/// written: with the image from which it was started, if there is one. Every failure is
/// an error that says why.
pub proof fn law_turning_on_writes_the_entry(
    name: Seq<char>,
    contents: Seq<char>,
    executable: Seq<char>,
    image: Seq<char>,
    error: Seq<char>,
    reply: Result<(), Seq<char>>,
)
    ensures
        next_entry_stage(name, true, EntryView::Inspect, EntryReplyView::Contents(None))
            == EntryView::Locate,
        next_entry_stage(name, true, EntryView::Inspect, EntryReplyView::Contents(Some(contents)))
            == if stale(contents) {
            EntryView::RemoveStale
        } else {
            EntryView::Locate
        },
        next_entry_stage(name, true, EntryView::RemoveStale, EntryReplyView::Done(reply))
            == EntryView::Locate,
        next_entry_stage(
            name,
            true,
            EntryView::Locate,
            EntryReplyView::Program(LocatedView::Found { executable, image: None }),
        ) == EntryView::Write(entry(name, executable)),
        next_entry_stage(
            name,
            true,
            EntryView::Locate,
            EntryReplyView::Program(LocatedView::Found { executable, image: Some(image) }),
        ) == EntryView::Write(entry(name, image)),
        next_entry_stage(
            name,
            true,
            EntryView::Locate,
            EntryReplyView::Program(LocatedView::Unknown(error)),
        ) == EntryView::Finished(Err("无法定位当前程序: "@ + error)),
        next_entry_stage(
            name,
            true,
            EntryView::Locate,
            EntryReplyView::Program(LocatedView::Unresolved(error)),
        ) == EntryView::Finished(Err("无法解析当前程序路径: "@ + error)),
        next_entry_stage(
            name,
            true,
            EntryView::Write(contents),
            EntryReplyView::Done(Ok(())),
        ) == EntryView::Finished(Ok(AutostartState::Enabled)),
        next_entry_stage(
            name,
            true,
            EntryView::Write(contents),
            EntryReplyView::Done(Err(error)),
        ) == EntryView::Finished(Err("无法写入用户自启动项: "@ + error)),
{
}

/// To turn it off, a foreign file is removed without further ado, and the switcher's own if
/// it is there; only a failure in that is an error.
pub proof fn law_turning_off_removes_the_entry(
    name: Seq<char>,
    contents: Seq<char>,
    error: Seq<char>,
    reply: Result<(), Seq<char>>,
)
    ensures
        next_entry_stage(name, false, EntryView::Inspect, EntryReplyView::Contents(None))
            == EntryView::CheckExists,
        next_entry_stage(name, false, EntryView::Inspect, EntryReplyView::Contents(Some(contents)))
            == if stale(contents) {
            EntryView::RemoveStale
        } else {
            EntryView::CheckExists
        },
        next_entry_stage(name, false, EntryView::RemoveStale, EntryReplyView::Done(reply))
            == EntryView::CheckExists,
        next_entry_stage(name, false, EntryView::CheckExists, EntryReplyView::Exists(false))
            == EntryView::Finished(Ok(AutostartState::Disabled)),
        next_entry_stage(name, false, EntryView::CheckExists, EntryReplyView::Exists(true))
            == EntryView::Remove,
        next_entry_stage(name, false, EntryView::Remove, EntryReplyView::Done(Ok(())))
            == EntryView::Finished(Ok(AutostartState::Disabled)),
        next_entry_stage(name, false, EntryView::Remove, EntryReplyView::Done(Err(error)))
            == EntryView::Finished(Err("无法关闭开机启动: "@ + error)),
{
}

/// A stage goes on only by a reply of its own kind; what has come to its end stays there.
pub proof fn law_entry_waits_for_its_reply(
    name: Seq<char>,
    enabled: bool,
    stage: EntryView,
    reply: EntryReplyView,
)
    requires
        stage is Inspect ==> !(reply is Contents),
        stage is RemoveStale || stage is Remove || stage is Write ==> !(reply is Done),
        stage is CheckExists ==> !(reply is Exists),
        stage is Locate ==> !(reply is Program),
    ensures
        next_entry_stage(name, enabled, stage, reply) == stage,
{
}

} // verus!
