//! Programs to run, and how they ended.
use vstd::prelude::*;
use vstd::string::*;


verus! {

/// The operating systems between which the switcher tells.
#[derive(Clone, Copy, Debug, PartialEq, Eq, Structural)]
pub enum Platform {
    Linux,
    MacOs,
    Windows,
}

/// A program and its arguments.
#[derive(Debug, PartialEq, Eq)]
pub struct CommandLine {
    pub program: String,
    pub args: Vec<String>,
}

/// What a `CommandLine` says.
pub struct CommandView {
    pub program: Seq<char>,
    pub args: Seq<Seq<char>>,
}

impl DeepView for CommandLine {
    type V = CommandView;

    open spec fn deep_view(&self) -> CommandView {
        CommandView { program: self.program@, args: self.args.deep_view() }
    }
}

/// How a program that was to be run ended.
#[derive(Debug, PartialEq, Eq)]
pub enum CommandReply {
    /// It ran and ended, with an exit code if it was not killed.
    Exited { success: bool, code: Option<i32>, stderr: String },
    /// There is no such program.
    NotFound(String),
    /// It could not be started for another reason.
    Unstarted(String),
}

/// What a `CommandReply` says.
pub enum ReplyView {
    Exited { success: bool, code: Option<i32>, stderr: Seq<char> },
    NotFound(Seq<char>),
    Unstarted(Seq<char>),
}

impl DeepView for CommandReply {
    type V = ReplyView;

    open spec fn deep_view(&self) -> ReplyView {
        match *self {
            CommandReply::Exited { success, code, stderr } => ReplyView::Exited {
                success,
                code,
                stderr: stderr@,
            },
            CommandReply::NotFound(error) => ReplyView::NotFound(error@),
            CommandReply::Unstarted(error) => ReplyView::Unstarted(error@),
        }
    }
}

/// What a result with an error text says.
pub open spec fn outcome<T>(result: Result<T, String>) -> Result<T, Seq<char>> {
    match result {
        Ok(value) => Ok(value),
        Err(error) => Err(error@),
    }
}

/// `command` with one more argument.
pub open spec fn with_arg(command: CommandView, arg: Seq<char>) -> CommandView {
    CommandView { program: command.program, args: command.args.push(arg) }
}

impl CommandLine {
    /// Adds an argument behind those that are there.
    pub fn arg(&mut self, arg: &str)
        ensures
            final(self).deep_view() == with_arg(old(self).deep_view(), arg@),
    {
        self.args.push(arg.to_owned());
        assert(self.args.deep_view() =~= old(self).args.deep_view().push(arg@));
    }
}

/// The program alone.
pub open spec fn bare(program: Seq<char>) -> CommandView {
    CommandView { program, args: Seq::empty() }
}

/// How a program that needs the rights of root is run: on Linux through
/// `pkexec`, unless this process is root; elsewhere directly.
pub open spec fn privileged(platform: Platform, root: bool, program: Seq<char>) -> CommandView {
    if platform == Platform::Linux && !root {
        with_arg(bare("pkexec"@), program)
    } else {
        bare(program)
    }
}

/// The command line that runs `program` with the rights of root.
pub fn mount_command(platform: Platform, root: bool, program: &str) -> (r: CommandLine)
    ensures
        r.deep_view() == privileged(platform, root, program@),
{
    if platform == Platform::Linux && !root {
        let mut command: CommandLine = CommandLine {
            program: "pkexec".to_owned(),
            args: Vec::new(),
        };
        assert(command.args.deep_view() =~= Seq::empty());
        command.arg(program);
        command
    } else {
        let args: Vec<String> = Vec::new();
        assert(args.deep_view() =~= Seq::empty());
        CommandLine { program: program.to_owned(), args }
    }
}

/// Only on Linux, and only where this process is not root, is a program run through
/// `pkexec`, as its one argument; else it is run as it is, without arguments.
pub proof fn law_rights_are_asked_for_where_they_are_missing(
    platform: Platform,
    root: bool,
    program: Seq<char>,
)
    ensures
        ({
            let line = privileged(platform, root, program);
            if platform == Platform::Linux && !root {
                line.program == "pkexec"@ && line.args == seq![program]
            } else {
                line.program == program && line.args.len() == 0
            }
        }),
{
    assert(Seq::<Seq<char>>::empty().push(program) =~= seq![program]);
}

} // verus!
