//! Restarting the computer: which commands are tried, in which order, and when
//! to stop.
use vstd::prelude::*;
use vstd::string::*;

use crate::command;
use crate::command::{CommandLine, CommandReply, Platform};
use crate::number;
use crate::text;

verus! {

// ---------------------------------------------------------------------------
// One attempt
// ---------------------------------------------------------------------------

/// How an attempt to restart ended.
#[derive(Debug, PartialEq, Eq)]
pub enum RestartAttemptOutcome {
    /// The command succeeded; the computer is about to restart.
    Success,
    /// There is no such command; another may be tried.
    Missing(String),
    /// The command failed, most often for want of rights or because the user
    /// declined to give them.
    Failed(String),
}

impl Clone for RestartAttemptOutcome {
    fn clone(&self) -> (r: Self)
        ensures
            r == *self,
    {
        match self {
            RestartAttemptOutcome::Success => RestartAttemptOutcome::Success,
            RestartAttemptOutcome::Missing(reason) => RestartAttemptOutcome::Missing(
                reason.clone(),
            ),
            RestartAttemptOutcome::Failed(reason) => RestartAttemptOutcome::Failed(reason.clone()),
        }
    }
}

/// What a `RestartAttemptOutcome` says.
pub enum OutcomeView {
    Success,
    Missing(Seq<char>),
    Failed(Seq<char>),
}

impl DeepView for RestartAttemptOutcome {
    type V = OutcomeView;

    open spec fn deep_view(&self) -> OutcomeView {
        match *self {
            RestartAttemptOutcome::Success => OutcomeView::Success,
            RestartAttemptOutcome::Missing(reason) => OutcomeView::Missing(reason@),
            RestartAttemptOutcome::Failed(reason) => OutcomeView::Failed(reason@),
        }
    }
}

/// What is said of an outcome.
pub open spec fn description(outcome: OutcomeView) -> Seq<char> {
    match outcome {
        OutcomeView::Success => "已提交重启"@,
        OutcomeView::Missing(reason) => reason,
        OutcomeView::Failed(reason) => reason,
    }
}

impl RestartAttemptOutcome {
    /// What is said of this outcome.
    pub fn describe(&self) -> (r: String)
        ensures
            r@ == description(self.deep_view()),
    {
        match self {
            RestartAttemptOutcome::Success => "已提交重启".to_owned(),
            RestartAttemptOutcome::Missing(reason) => reason.clone(),
            RestartAttemptOutcome::Failed(reason) => reason.clone(),
        }
    }
}

/// What to do after an attempt.
#[derive(Clone, Copy, Debug, PartialEq, Eq, Structural)]
pub enum RestartStep {
    /// Nothing: the restart is under way.
    Done,
    /// Try the next command.
    Next,
    /// Try the same command with the rights of root.
    Escalate,
    /// Stop: the command ran and failed, and restarting by another way would
    /// pass over a user who declined.
    Stop,
}

/// What to do after an attempt with an outcome.
pub open spec fn step_after(outcome: OutcomeView, can_escalate: bool) -> RestartStep {
    match outcome {
        OutcomeView::Success => RestartStep::Done,
        OutcomeView::Missing(_) => RestartStep::Next,
        OutcomeView::Failed(_) => if can_escalate {
            RestartStep::Escalate
        } else {
            RestartStep::Stop
        },
    }
}

/// What to do after an attempt with the outcome `outcome`.
pub fn next_restart_step(outcome: &RestartAttemptOutcome, can_escalate: bool) -> (r: RestartStep)
    ensures
        r == step_after(outcome.deep_view(), can_escalate),
{
    match outcome {
        RestartAttemptOutcome::Success => RestartStep::Done,
        RestartAttemptOutcome::Missing(_) => RestartStep::Next,
        RestartAttemptOutcome::Failed(_) => if can_escalate {
            RestartStep::Escalate
        } else {
            RestartStep::Stop
        },
    }
}

// ---------------------------------------------------------------------------
// Commands
// ---------------------------------------------------------------------------

/// The script with which macOS asks for the rights of an administrator and
/// restarts.
pub const RESTART_SCRIPT: &'static str =
    "do shell script \"/sbin/shutdown -r now\" with administrator privileges";

/// The commands that restart the computer, in the order in which they are tried.
pub open spec fn attempts(platform: Platform) -> Seq<(Seq<char>, Seq<Seq<char>>)> {
    match platform {
        Platform::MacOs => seq![("osascript"@, seq!["-e"@, RESTART_SCRIPT@])],
        Platform::Linux => seq![
            ("systemctl"@, seq!["reboot"@]),
            ("loginctl"@, seq!["reboot"@]),
        ],
        Platform::Windows => seq![("shutdown"@, seq!["/r"@, "/t"@, "0"@])],
    }
}

/// The commands that restart the computer, in the order in which they are tried.
/// That of macOS asks for the rights of an administrator by itself; on Linux a
/// local session may restart without them.
pub fn restart_attempts(platform: Platform) -> (r: Vec<(&'static str, Vec<&'static str>)>)
    ensures
        r@.len() == attempts(platform).len(),
        r.deep_view() == attempts(platform),
{
    let mut all: Vec<(&'static str, Vec<&'static str>)> = Vec::new();
    match platform {
        Platform::MacOs => {
            let args: Vec<&'static str> = vec!["-e", RESTART_SCRIPT];
            assert(args.deep_view() =~= seq!["-e"@, RESTART_SCRIPT@]);
            all.push(("osascript", args));
        },
        Platform::Linux => {
            let first: Vec<&'static str> = vec!["reboot"];
            let second: Vec<&'static str> = vec!["reboot"];
            assert(first.deep_view() =~= seq!["reboot"@]);
            assert(second.deep_view() =~= seq!["reboot"@]);
            all.push(("systemctl", first));
            all.push(("loginctl", second));
        },
        Platform::Windows => {
            let args: Vec<&'static str> = vec!["/r", "/t", "0"];
            assert(args.deep_view() =~= seq!["/r"@, "/t"@, "0"@]);
            all.push(("shutdown", args));
        },
    }
    assert(all.deep_view() =~= attempts(platform));
    all
}

/// A command with the rights of root: on Linux through `pkexec`, unless this
/// process is root. Elsewhere there is none.
pub open spec fn escalation(
    platform: Platform,
    root: bool,
    program: Seq<char>,
    args: Seq<Seq<char>>,
) -> Option<(Seq<char>, Seq<Seq<char>>)> {
    if platform == Platform::Linux && !root {
        Some(("pkexec"@, seq![program] + args))
    } else {
        None
    }
}

/// The command `program` with `args`, with the rights of root.
pub fn escalate_restart(platform: Platform, root: bool, program: &str, args: &[&str]) -> (r: Option<
    (&'static str, Vec<String>),
>)
    ensures
        r.deep_view() == escalation(platform, root, program@, args.deep_view()),
{
    if platform != Platform::Linux || root {
        return None;
    }
    let mut escalated: Vec<String> = Vec::new();
    escalated.push(program.to_owned());
    let ghost all = args.deep_view();
    let mut i: usize = 0;
    assert(escalated.deep_view() =~= seq![program@] + all.take(0));
    while i < args.len()
        invariant
            i <= args@.len(),
            all == args.deep_view(),
            escalated.deep_view() == seq![program@] + all.take(i as int),
        decreases args@.len() - i,
    {
        let ghost before = escalated.deep_view();
        escalated.push(args[i].to_owned());
        assert(escalated.deep_view() =~= before.push(args@[i as int]@));
        assert(all[i as int] == args@[i as int]@);
        assert(escalated.deep_view() =~= seq![program@] + all.take(i as int + 1));
        i = i + 1;
    }
    assert(all.take(i as int) =~= all);
    Some(("pkexec", escalated))
}

/// A command as it is shown.
pub open spec fn shown_command(program: Seq<char>, args: Seq<Seq<char>>) -> Seq<char> {
    program + " "@ + text::joined(args, " "@)
}

/// What a command printed to its error output, in one line.
pub open spec fn detail(stderr: Seq<char>) -> Seq<char> {
    text::joined(
        text::text_lines(stderr).map_values(|line: Seq<char>| text::trimmed(line)).filter(
            |line: Seq<char>| line.len() > 0,
        ),
        " "@,
    )
}

/// An exit code as it is shown.
pub open spec fn shown_code(code: Option<i32>) -> Seq<char> {
    match code {
        Some(code) => number::signed_numeral(code as int),
        None => "未知"@,
    }
}

/// The outcome of an attempt, from how its command ended.
pub open spec fn classified(
    program: Seq<char>,
    args: Seq<Seq<char>>,
    reply: command::ReplyView,
) -> OutcomeView {
    let display = shown_command(program, args);
    match reply {
        command::ReplyView::Exited { success, code, stderr } => if success {
            OutcomeView::Success
        } else {
            let failed = display + " 失败（退出码 "@ + shown_code(code) + "）"@;
            if detail(stderr).len() == 0 {
                OutcomeView::Failed(failed)
            } else {
                OutcomeView::Failed(failed + "："@ + detail(stderr))
            }
        },
        command::ReplyView::NotFound(error) => OutcomeView::Missing(display + "："@ + error),
        command::ReplyView::Unstarted(error) => OutcomeView::Failed(
            display + " 无法执行: "@ + error,
        ),
    }
}

/// What a command printed to its error output, in one line.
fn error_detail(stderr: &str) -> (r: String)
    ensures
        r@ == detail(stderr@),
{
    let all: Vec<String> = text::lines(stderr);
    let ghost views = all.deep_view().map_values(|line: Seq<char>| text::trimmed(line));
    let ghost wanted = |line: Seq<char>| line.len() > 0;
    let mut kept: Vec<String> = Vec::new();
    let mut i: usize = 0;
    assert(kept.deep_view() =~= views.take(0).filter(wanted)) by {
        reveal(Seq::filter);
    }
    while i < all.len()
        invariant
            i <= all@.len(),
            views == all.deep_view().map_values(|line: Seq<char>| text::trimmed(line)),
            wanted == (|line: Seq<char>| line.len() > 0),
            kept.deep_view() == views.take(i as int).filter(wanted),
        decreases all@.len() - i,
    {
        let ghost before = kept.deep_view();
        let line: String = text::trim(all[i].as_str());
        assert(views[i as int] == line@);
        assert(views.take(i as int + 1).drop_last() =~= views.take(i as int));
        assert(views.take(i as int + 1).last() == line@);
        reveal(Seq::filter);
        if !line.as_str().is_empty() {
            let ghost added = line@;
            kept.push(line);
            assert(kept.deep_view() =~= before.push(added));
        }
        i = i + 1;
    }
    assert(views.take(i as int) =~= views);
    text::join(&kept, " ")
}

/// The texts of `args`.
fn owned_args(args: &[&str]) -> (r: Vec<String>)
    ensures
        r.deep_view() == args.deep_view(),
{
    let mut out: Vec<String> = Vec::new();
    let mut i: usize = 0;
    while i < args.len()
        invariant
            i <= args@.len(),
            out.deep_view() == args.deep_view().take(i as int),
        decreases args@.len() - i,
    {
        let ghost before = out.deep_view();
        out.push(args[i].to_owned());
        assert(out.deep_view() =~= before.push(args@[i as int]@));
        assert(args.deep_view()[i as int] == args@[i as int]@);
        assert(out.deep_view() =~= args.deep_view().take(i as int + 1));
        i = i + 1;
    }
    assert(args.deep_view().take(i as int) =~= args.deep_view());
    out
}

/// The outcome of an attempt with `program` and `args`, from how it ended.
pub fn run_restart_command(program: &str, args: &[&str], reply: CommandReply) -> (r:
    RestartAttemptOutcome)
    ensures
        r.deep_view() == classified(program@, args.deep_view(), reply.deep_view()),
{
    let parts: Vec<String> = owned_args(args);
    classify(program, &parts, reply)
}

/// The outcome of an attempt with `program` and `args`, from how it ended.
fn classify(program: &str, args: &Vec<String>, reply: CommandReply) -> (r: RestartAttemptOutcome)
    ensures
        r.deep_view() == classified(program@, args.deep_view(), reply.deep_view()),
{
    let mut display: String = text::concat(program, " ");
    display.append(text::join(args, " ").as_str());
    match reply {
        CommandReply::Exited { success, code, stderr } => {
            if success {
                return RestartAttemptOutcome::Success;
            }
            display.append(" 失败（退出码 ");
            match code {
                Some(code) => display.append(number::signed_decimal(code as i64).as_str()),
                None => display.append("未知"),
            }
            display.append("）");
            let more: String = error_detail(stderr.as_str());
            if !more.as_str().is_empty() {
                display.append("：");
                display.append(more.as_str());
            }
            RestartAttemptOutcome::Failed(display)
        },
        CommandReply::NotFound(error) => {
            display.append("：");
            display.append(error.as_str());
            RestartAttemptOutcome::Missing(display)
        },
        CommandReply::Unstarted(error) => {
            display.append(" 无法执行: ");
            display.append(error.as_str());
            RestartAttemptOutcome::Failed(display)
        },
    }
}

// ---------------------------------------------------------------------------
// All attempts
// ---------------------------------------------------------------------------

/// What is to be done next in restarting.
#[derive(Debug, PartialEq, Eq)]
pub enum RestartStage {
    /// Run the command at this place in the list; those before it are missing,
    /// for these reasons.
    Run { attempt: usize, failures: Vec<String> },
    /// Run it with the rights of root.
    RunEscalated { attempt: usize },
    /// Nothing more: all has ended so.
    Finished(Result<(), String>),
}

/// What a `RestartStage` says.
pub enum StageView {
    Run { attempt: nat, failures: Seq<Seq<char>> },
    RunEscalated { attempt: nat },
    Finished(Result<(), Seq<char>>),
}

impl DeepView for RestartStage {
    type V = StageView;

    open spec fn deep_view(&self) -> StageView {
        match *self {
            RestartStage::Run { attempt, failures } => StageView::Run {
                attempt: attempt as nat,
                failures: failures.deep_view(),
            },
            RestartStage::RunEscalated { attempt } => StageView::RunEscalated {
                attempt: attempt as nat,
            },
            RestartStage::Finished(result) => StageView::Finished(command::outcome(result)),
        }
    }
}

/// There is no command left, for these reasons.
pub open spec fn nothing_left(failures: Seq<Seq<char>>) -> StageView {
    StageView::Finished(
        Err("没有可用的重启命令（已尝试："@ + text::joined(failures, "；"@) + "）"@),
    )
}

/// The stage that runs the command at a place in the list, if there is one.
pub open spec fn attempt_at(
    platform: Platform,
    attempt: nat,
    failures: Seq<Seq<char>>,
) -> StageView {
    if attempt < attempts(platform).len() {
        StageView::Run { attempt, failures }
    } else {
        nothing_left(failures)
    }
}

/// The command that a stage runs.
pub open spec fn command_at(
    platform: Platform,
    root: bool,
    stage: StageView,
) -> Option<(Seq<char>, Seq<Seq<char>>)> {
    match stage {
        StageView::Run { attempt, failures } => if attempt < attempts(platform).len() {
            Some(attempts(platform)[attempt as int])
        } else {
            None
        },
        StageView::RunEscalated { attempt } => if attempt < attempts(platform).len() {
            let (program, args) = attempts(platform)[attempt as int];
            escalation(platform, root, program, args)
        } else {
            None
        },
        StageView::Finished(_) => None,
    }
}

/// What follows a stage in restarting, once its command has ended with `reply`.
pub open spec fn next_restart_stage(
    platform: Platform,
    root: bool,
    stage: StageView,
    reply: command::ReplyView,
) -> StageView {
    match (stage, command_at(platform, root, stage)) {
        (StageView::Run { attempt, failures }, Some((program, args))) => {
            let outcome = classified(program, args, reply);
            match step_after(outcome, escalation(platform, root, program, args) is Some) {
                RestartStep::Done => StageView::Finished(Ok(())),
                RestartStep::Next => attempt_at(
                    platform,
                    attempt + 1,
                    failures.push(description(outcome)),
                ),
                RestartStep::Escalate => StageView::RunEscalated { attempt },
                RestartStep::Stop => StageView::Finished(
                    Err("重启失败："@ + description(outcome) + "（可能是没有权限或取消了授权）"@),
                ),
            }
        },
        (StageView::Run { attempt, failures }, None) => nothing_left(failures),
        (StageView::RunEscalated { attempt }, Some((program, args))) => {
            let outcome = classified(program, args, reply);
            if outcome is Success {
                StageView::Finished(Ok(()))
            } else {
                StageView::Finished(
                    Err("重启需要管理员授权，提权未完成："@ + description(outcome)),
                )
            }
        },
        (StageView::RunEscalated { attempt }, None) => nothing_left(Seq::empty()),
        (StageView::Finished(result), _) => StageView::Finished(result),
    }
}

/// There is no command left, for these reasons.
fn no_command_left(failures: &Vec<String>) -> (r: RestartStage)
    ensures
        r.deep_view() == nothing_left(failures.deep_view()),
{
    RestartStage::Finished(
        Err(
            text::concat3(
                "没有可用的重启命令（已尝试：",
                text::join(failures, "；").as_str(),
                "）",
            ),
        ),
    )
}

/// The first stage of restarting.
pub fn begin_restart() -> (r: RestartStage)
    ensures
        r.deep_view() == (StageView::Run { attempt: 0, failures: Seq::empty() }),
{
    let failures: Vec<String> = Vec::new();
    assert(failures.deep_view() =~= Seq::empty());
    RestartStage::Run { attempt: 0, failures }
}

/// The command at a place in the list.
fn attempt_command(platform: Platform, attempt: usize) -> (r: Option<CommandLine>)
    ensures
        match r {
            Some(line) => attempt < attempts(platform).len() && (
                line.program@,
                line.args.deep_view(),
            ) == attempts(platform)[attempt as int],
            None => attempt >= attempts(platform).len(),
        },
{
    let all: Vec<(&'static str, Vec<&'static str>)> = restart_attempts(platform);
    assert(all.deep_view().len() == all@.len());
    if attempt < all.len() {
        assert(all.deep_view()[attempt as int] == all@[attempt as int].deep_view());
        let (program, args) = &all[attempt];
        Some(CommandLine { program: (*program).to_owned(), args: owned_args(args.as_slice()) })
    } else {
        None
    }
}

/// The command `line` with the rights of root, if it can have them.
fn escalated_command(platform: Platform, root: bool, line: &CommandLine) -> (r: Option<CommandLine>)
    ensures
        match r {
            Some(more) => escalation(platform, root, line.program@, line.args.deep_view()) == Some(
                (more.program@, more.args.deep_view()),
            ),
            None => escalation(platform, root, line.program@, line.args.deep_view()) is None,
        },
{
    let mut args: Vec<&str> = Vec::new();
    let mut i: usize = 0;
    while i < line.args.len()
        invariant
            i <= line.args@.len(),
            args.deep_view() == line.args.deep_view().take(i as int),
        decreases line.args@.len() - i,
    {
        let ghost before = args.deep_view();
        let arg: &str = line.args[i].as_str();
        args.push(arg);
        assert(args.deep_view() =~= before.push(arg@));
        assert(args.deep_view() =~= line.args.deep_view().take(i as int + 1));
        i = i + 1;
    }
    assert(line.args.deep_view().take(i as int) =~= line.args.deep_view());
    match escalate_restart(platform, root, line.program.as_str(), args.as_slice()) {
        Some((program, args)) => Some(CommandLine { program: program.to_owned(), args }),
        None => None,
    }
}

/// The command that `stage` runs.
pub fn restart_command(platform: Platform, root: bool, stage: &RestartStage) -> (r: Option<
    CommandLine,
>)
    ensures
        match r {
            Some(line) => command_at(platform, root, stage.deep_view()) == Some(
                (line.program@, line.args.deep_view()),
            ),
            None => command_at(platform, root, stage.deep_view()) is None,
        },
{
    match stage {
        RestartStage::Run { attempt, failures } => attempt_command(platform, *attempt),
        RestartStage::RunEscalated { attempt } => match attempt_command(platform, *attempt) {
            Some(line) => escalated_command(platform, root, &line),
            None => None,
        },
        RestartStage::Finished(_) => None,
    }
}

/// What follows `stage` in restarting, once its command has ended with `reply`.
pub fn run_restart(platform: Platform, root: bool, stage: RestartStage, reply: CommandReply) -> (r:
    RestartStage)
    ensures
        r.deep_view() == next_restart_stage(
            platform,
            root,
            stage.deep_view(),
            reply.deep_view(),
        ),
{
    let current: Option<CommandLine> = restart_command(platform, root, &stage);
    match stage {
        RestartStage::Run { attempt, failures } => {
            let Some(line) = current else {
                return no_command_left(&failures);
            };
            let outcome: RestartAttemptOutcome = classify(
                line.program.as_str(),
                &line.args,
                reply,
            );
            let more: Option<CommandLine> = escalated_command(platform, root, &line);
            match next_restart_step(&outcome, more.is_some()) {
                RestartStep::Done => RestartStage::Finished(Ok(())),
                RestartStep::Next => {
                    let ghost before = failures.deep_view();
                    let mut failures: Vec<String> = failures;
                    failures.push(outcome.describe());
                    assert(failures.deep_view() =~= before.push(description(outcome.deep_view())));
                    let count: usize = restart_attempts(platform).len();
                    if attempt + 1 < count {
                        RestartStage::Run { attempt: attempt + 1, failures }
                    } else {
                        no_command_left(&failures)
                    }
                },
                RestartStep::Escalate => RestartStage::RunEscalated { attempt },
                RestartStep::Stop => RestartStage::Finished(
                    Err(
                        text::concat3(
                            "重启失败：",
                            outcome.describe().as_str(),
                            "（可能是没有权限或取消了授权）",
                        ),
                    ),
                ),
            }
        },
        RestartStage::RunEscalated { attempt } => {
            let Some(line) = current else {
                let failures: Vec<String> = Vec::new();
                assert(failures.deep_view() =~= Seq::empty());
                return no_command_left(&failures);
            };
            match classify(line.program.as_str(), &line.args, reply) {
                RestartAttemptOutcome::Success => RestartStage::Finished(Ok(())),
                other => RestartStage::Finished(
                    Err(
                        text::concat(
                            "重启需要管理员授权，提权未完成：",
                            other.describe().as_str(),
                        ),
                    ),
                ),
            }
        },
        RestartStage::Finished(result) => RestartStage::Finished(result),
    }
}

// ---------------------------------------------------------------------------
// Laws
// ---------------------------------------------------------------------------

/// Where a command ran and failed and there are no further rights to ask for, or
/// where they were asked for and the command did not succeed, restarting ends
/// with an error: no other command is run.
pub proof fn law_declined_restart_is_not_forced(
    platform: Platform,
    root: bool,
    stage: StageView,
    reply: command::ReplyView,
)
    requires
        command_at(platform, root, stage) is Some,
        ({
            let (program, args) = command_at(platform, root, stage)->0;
            let outcome = classified(program, args, reply);
            ||| stage is RunEscalated && !(outcome is Success)
            ||| stage is Run && outcome is Failed && escalation(platform, root, program, args) is None
        }),
    ensures
        next_restart_stage(platform, root, stage, reply) matches StageView::Finished(result)
            && result is Err,
{
}

/// Restarting ends well at a stage just where its command succeeds.
pub proof fn law_restart_succeeds_with_its_command(
    platform: Platform,
    root: bool,
    stage: StageView,
    reply: command::ReplyView,
)
    requires
        !(stage is Finished),
    ensures
        next_restart_stage(platform, root, stage, reply) == StageView::Finished(Ok(()))
            <==> command_at(platform, root, stage) is Some && (reply matches command::ReplyView::Exited { success, .. } && success),
{
}

/// The stage to which restarting has come after the replies, from `stage` on.
pub open spec fn restart_end(
    platform: Platform,
    root: bool,
    stage: StageView,
    replies: Seq<command::ReplyView>,
) -> StageView
    decreases replies.len(),
{
    if replies.len() == 0 {
        stage
    } else {
        restart_end(
            platform,
            root,
            next_restart_stage(platform, root, stage, replies[0]),
            replies.skip(1),
        )
    }
}

/// How many more commands restarting may run from a stage on.
pub open spec fn commands_left(platform: Platform, stage: StageView) -> nat {
    match stage {
        StageView::Run { attempt, failures } => if attempt < attempts(platform).len() {
            (attempts(platform).len() - attempt + 1) as nat
        } else {
            1
        },
        StageView::RunEscalated { .. } => 1,
        StageView::Finished(_) => 0,
    }
}

/// Restarting ends after as many commands as are on the list and one more, which
/// is the one with the rights of root.
pub proof fn law_restart_ends(
    platform: Platform,
    root: bool,
    stage: StageView,
    replies: Seq<command::ReplyView>,
)
    requires
        replies.len() >= commands_left(platform, stage),
    ensures
        restart_end(platform, root, stage, replies) is Finished,
    decreases replies.len(),
{
    if replies.len() > 0 {
        law_restart_ends(
            platform,
            root,
            next_restart_stage(platform, root, stage, replies[0]),
            replies.skip(1),
        );
    }
}

/// Where every command is missing, restarting ends with the list of the reasons.
pub proof fn law_missing_commands_are_listed(root: bool, first: Seq<char>, second: Seq<char>)
    ensures
        ({
            let missing = |i: int, error: Seq<char>|
                shown_command(attempts(Platform::Linux)[i].0, attempts(Platform::Linux)[i].1)
                    + "："@ + error;
            restart_end(
                Platform::Linux,
                root,
                StageView::Run { attempt: 0, failures: Seq::empty() },
                seq![command::ReplyView::NotFound(first), command::ReplyView::NotFound(second)],
            ) == nothing_left(seq![missing(0, first), missing(1, second)])
        }),
{
    reveal_with_fuel(restart_end, 3);
    let missing = |i: int, error: Seq<char>|
        shown_command(attempts(Platform::Linux)[i].0, attempts(Platform::Linux)[i].1) + "："@
            + error;
    assert(Seq::<Seq<char>>::empty().push(missing(0, first)).push(missing(1, second)) =~= seq![
        missing(0, first),
        missing(1, second),
    ]);
}

// ---------------------------------------------------------------------------
// Requests
// ---------------------------------------------------------------------------

/// What the main window is told of a restart.
#[derive(Debug, PartialEq, Eq)]
pub struct RestartResult {
    pub ok: bool,
    pub message: String,
}

/// Whether a restart was asked for and has not failed.
#[derive(Debug, PartialEq, Eq)]
pub struct RestartRequests {
    pub pending: bool,
}

impl RestartRequests {
    /// Nothing was asked for.
    pub fn new() -> (r: Self)
        ensures
            !r.pending,
    {
        RestartRequests { pending: false }
    }

    /// Asks for a restart. Says whether it is to be run: it is not while another
    /// is under way.
    pub fn spawn_restart(&mut self) -> (r: bool)
        ensures
            r == !old(self).pending,
            final(self).pending,
    {
        let run: bool = !self.pending;
        self.pending = true;
        run
    }

    /// Notes how the restart ended, and gives what the main window is told. After
    /// a failure another may be asked for.
    pub fn finish_restart(&mut self, result: Result<(), String>) -> (r: RestartResult)
        ensures
            r.ok == (result is Ok),
            r.message@ == match command::outcome(result) {
                Ok(_) => "已提交重启，系统即将重启"@,
                Err(error) => error,
            },
            final(self).pending == (result is Ok && old(self).pending),
    {
        match result {
            Ok(_) => RestartResult { ok: true, message: "已提交重启，系统即将重启".to_owned() },
            Err(error) => {
                self.pending = false;
                RestartResult { ok: false, message: error }
            },
        }
    }
}

// ---------------------------------------------------------------------------
// Further laws
// ---------------------------------------------------------------------------

/// After success nothing more is done; where the command is missing, the next is tried;
/// where it failed, more rights are asked for if they can be, and else all is over.
pub proof fn law_step_follows_the_outcome(outcome: OutcomeView, can_escalate: bool)
    ensures
        step_after(outcome, can_escalate) == RestartStep::Done <==> outcome is Success,
        step_after(outcome, can_escalate) == RestartStep::Next <==> outcome is Missing,
        step_after(outcome, can_escalate) == RestartStep::Escalate <==> outcome is Failed
            && can_escalate,
        step_after(outcome, can_escalate) == RestartStep::Stop <==> outcome is Failed
            && !can_escalate,
{
}

/// An attempt succeeded just where its command ran and ended with success; the command is
/// missing just where there is no such program; anything else is a failure.
pub proof fn law_outcome_follows_the_reply(
    program: Seq<char>,
    args: Seq<Seq<char>>,
    reply: command::ReplyView,
)
    ensures
        classified(program, args, reply) is Success <==> (
        reply matches command::ReplyView::Exited { success, .. } && success),
        classified(program, args, reply) is Missing <==> reply is NotFound,
        classified(program, args, reply) is Failed <==> reply is Unstarted || (
        reply matches command::ReplyView::Exited { success, .. } && !success),
{
}

/// What is said of an attempt names the command and why it did not succeed: the exit code,
/// and what it wrote, if it wrote anything.
pub proof fn law_outcome_says_why(
    program: Seq<char>,
    args: Seq<Seq<char>>,
    code: Option<i32>,
    stderr: Seq<char>,
    error: Seq<char>,
)
    ensures
        ({
            let line = program + " "@ + text::joined(args, " "@);
            let shown = match code {
                Some(code) => number::signed_numeral(code as int),
                None => "未知"@,
            };
            let failed = line + " 失败（退出码 "@ + shown + "）"@;
            &&& description(
                classified(
                    program,
                    args,
                    command::ReplyView::Exited { success: false, code, stderr },
                ),
            ) == if detail(stderr).len() == 0 {
                failed
            } else {
                failed + "："@ + detail(stderr)
            }
            &&& description(classified(program, args, command::ReplyView::NotFound(error))) == line
                + "："@ + error
            &&& description(classified(program, args, command::ReplyView::Unstarted(error))) == line
                + " 无法执行: "@ + error
        }),
        description(OutcomeView::Success) == "已提交重启"@,
        description(OutcomeView::Missing(error)) == error,
        description(OutcomeView::Failed(error)) == error,
{
}

/// What a command wrote, line by line: a line without white space around it, unless nothing
/// is left of it, and a blank before what the other lines give, unless they give nothing.
pub proof fn law_detail_goes_by_lines(line: Seq<char>, rest: Seq<char>)
    requires
        !line.contains('\n'),
    ensures
        detail(line) == text::trimmed(line),
        ({
            let first = text::trimmed(text::without_return(line));
            detail(line.push('\n') + rest) == if first.len() == 0 {
                detail(rest)
            } else if detail(rest).len() == 0 {
                first
            } else {
                first + " "@ + detail(rest)
            }
        }),
{
    let trim = |line: Seq<char>| text::trimmed(line);
    let wanted = |line: Seq<char>| line.len() > 0;
    let first = text::trimmed(text::without_return(line));
    text::law_line_feed_ends_a_line(line, rest);
    text::law_text_without_line_feed_is_one_line(line);
    let behind = text::text_lines(rest).map_values(trim);
    let all = text::text_lines(line.push('\n') + rest).map_values(trim);
    assert(all =~= seq![first] + behind);
    Seq::filter_distributes_over_add(seq![first], behind, wanted);
    lemma_filter_one(first, wanted);
    lemma_filter_one(text::trimmed(line), wanted);
    let kept = behind.filter(wanted);
    lemma_kept_lines_show(behind, wanted);
    if first.len() == 0 {
        assert(all.filter(wanted) =~= kept);
    } else {
        assert(all.filter(wanted) =~= seq![first] + kept);
        text::law_join_puts_separator_between(seq![first], kept, " "@);
        if kept.len() == 0 {
            assert(seq![first] + kept =~= seq![first]);
        }
    }
    if line.len() == 0 {
        assert(text::text_lines(line).map_values(trim) =~= Seq::<Seq<char>>::empty());
        assert(Seq::<Seq<char>>::empty().filter(wanted) =~= Seq::<Seq<char>>::empty()) by {
            reveal(Seq::filter);
        }
        assert(text::trimmed(line) =~= Seq::<char>::empty());
    } else {
        assert(text::text_lines(line).map_values(trim) =~= seq![text::trimmed(line)]);
        assert(text::trimmed(line).len() == 0 ==> text::trimmed(line) =~= Seq::<char>::empty());
    }
}

/// Of one, that one is kept or none.
proof fn lemma_filter_one(x: Seq<char>, wanted: spec_fn(Seq<char>) -> bool)
    ensures
        seq![x].filter(wanted) == if wanted(x) {
            seq![x]
        } else {
            Seq::empty()
        },
{
    reveal(Seq::filter);
    reveal_with_fuel(Seq::filter, 3);
    assert(seq![x].drop_last() =~= Seq::empty());
    assert(seq![x].filter(wanted) =~= if wanted(x) {
        seq![x]
    } else {
        Seq::empty()
    });
}

/// Where lines are kept that are not empty, their join is not.
proof fn lemma_kept_lines_show(lines: Seq<Seq<char>>, wanted: spec_fn(Seq<char>) -> bool)
    requires
        wanted == (|line: Seq<char>| line.len() > 0),
    ensures
        lines.filter(wanted).len() > 0 <==> text::joined(lines.filter(wanted), " "@).len() > 0,
    decreases lines.len(),
{
    reveal(Seq::filter);
    if lines.len() > 0 {
        lemma_kept_lines_show(lines.drop_last(), wanted);
        let before = lines.drop_last().filter(wanted);
        if wanted(lines.last()) {
            let kept = before.push(lines.last());
            assert(kept.drop_last() =~= before);
            assert(lines.filter(wanted) == kept);
        }
    }
}

/// More rights are there to be asked for on Linux alone, and not by root: then the same
/// command is run through `pkexec`.
pub proof fn law_escalation_runs_the_same_command(
    platform: Platform,
    root: bool,
    program: Seq<char>,
    args: Seq<Seq<char>>,
)
    ensures
        escalation(platform, root, program, args) is Some <==> platform == Platform::Linux && !root,
        escalation(platform, root, program, args) matches Some((runner, handed)) ==> runner
            == "pkexec"@ && handed == seq![program] + args,
{
}

/// The commands are tried from the first on: a missing one is followed by the next, with the
/// reason noted; a failed one by the same with more rights, where they can be asked for;
/// a successful one by nothing.
pub proof fn law_restart_goes_through_the_commands(
    platform: Platform,
    root: bool,
    attempt: nat,
    failures: Seq<Seq<char>>,
    reply: command::ReplyView,
)
    requires
        attempt < attempts(platform).len(),
    ensures
        ({
            let stage = StageView::Run { attempt, failures };
            let (program, args) = attempts(platform)[attempt as int];
            let outcome = classified(program, args, reply);
            let next = next_restart_stage(platform, root, stage, reply);
            let escalated = StageView::RunEscalated { attempt };
            &&& command_at(platform, root, stage) == Some((program, args))
            &&& command_at(platform, root, escalated) == escalation(platform, root, program, args)
            &&& outcome is Success ==> next == StageView::Finished(Ok(()))
            &&& outcome is Missing && attempt + 1 < attempts(platform).len() ==> next == (
            StageView::Run {
                attempt: (attempt + 1) as nat,
                failures: failures.push(description(outcome)),
            })
            &&& outcome is Missing && attempt + 1 == attempts(platform).len() ==> next
                == StageView::Finished(
                Err(
                    "没有可用的重启命令（已尝试："@ + text::joined(
                        failures.push(description(outcome)),
                        "；"@,
                    ) + "）"@,
                ),
            )
            &&& outcome is Failed && platform == Platform::Linux && !root ==> next == escalated
            &&& outcome is Failed && !(platform == Platform::Linux && !root) ==> next
                == StageView::Finished(
                Err("重启失败："@ + description(outcome) + "（可能是没有权限或取消了授权）"@),
            )
        }),
{
}

/// With more rights, the command decides: its success is that of the restart, and anything
/// else is an error that says why.
pub proof fn law_escalated_command_decides(attempt: nat, reply: command::ReplyView)
    requires
        attempt < attempts(Platform::Linux).len(),
    ensures
        ({
            let stage = StageView::RunEscalated { attempt };
            let (program, args) = attempts(Platform::Linux)[attempt as int];
            let outcome = classified("pkexec"@, seq![program] + args, reply);
            next_restart_stage(Platform::Linux, false, stage, reply) == if outcome is Success {
                StageView::Finished(Ok(()))
            } else {
                StageView::Finished(
                    Err("重启需要管理员授权，提权未完成："@ + description(outcome)),
                )
            }
        }),
{
}

/// Each platform has its commands, in this order.
pub proof fn law_platforms_have_their_commands()
    ensures
        attempts(Platform::Linux) == seq![
            ("systemctl"@, seq!["reboot"@]),
            ("loginctl"@, seq!["reboot"@]),
        ],
        attempts(Platform::Windows) == seq![("shutdown"@, seq!["/r"@, "/t"@, "0"@])],
        attempts(Platform::MacOs) == seq![
            (
                "osascript"@,
                seq![
                    "-e"@,
                    "do shell script \"/sbin/shutdown -r now\" with administrator privileges"@,
                ],
            ),
        ],
{
}

/// A place behind the last command runs nothing, and neither does a restart that has come to
/// its end; that stays there.
pub proof fn law_restart_runs_only_its_commands(
    platform: Platform,
    root: bool,
    attempt: nat,
    failures: Seq<Seq<char>>,
    result: Result<(), Seq<char>>,
    reply: command::ReplyView,
)
    ensures
        attempt >= attempts(platform).len() ==> command_at(
            platform,
            root,
            StageView::Run { attempt, failures },
        ) is None && command_at(platform, root, StageView::RunEscalated { attempt }) is None,
        command_at(platform, root, StageView::Finished(result)) is None,
        next_restart_stage(platform, root, StageView::Finished(result), reply)
            == StageView::Finished(result),
{
}

} // verus!
