//! Writing the template of a system: a copy under another name takes the place
//! of the file that rEFInd reads, and is then compared with the template.
use vstd::prelude::*;
use vstd::string::*;

use crate::command;
use crate::command::Platform;
use crate::digest;
use crate::number;
use crate::text;
use crate::variables;
use crate::variables::BootSystem;

verus! {

// ---------------------------------------------------------------------------
// Names
// ---------------------------------------------------------------------------

/// The name of the file that is filled before it takes the place of the file
/// `name`, for the process `pid` at the time `unique`.
pub open spec fn temporary(name: Option<Seq<char>>, pid: nat, unique: nat) -> Seq<char> {
    "."@ + (match name {
        Some(name) => name,
        None => "target"@,
    }) + "."@ + number::numeral(pid) + "."@ + number::numeral(unique) + ".tmp"@
}

/// The name of the file, in the same directory, that is filled before it takes
/// the place of the file `file_name`.
pub fn temporary_target(file_name: Option<&str>, pid: u32, unique: u128) -> (r: String)
    ensures
        r@ == temporary(file_name.deep_view(), pid as nat, unique as nat),
{
    let mut out: String = ".".to_owned();
    match file_name {
        Some(name) => out.append(name),
        None => out.append("target"),
    }
    out.append(".");
    out.append(number::decimal(pid as u128).as_str());
    out.append(".");
    out.append(number::decimal(unique).as_str());
    out.append(".tmp");
    out
}

/// Two texts without a slash have none together.
proof fn lemma_no_slash(a: Seq<char>, b: Seq<char>)
    requires
        !a.contains('/'),
        !b.contains('/'),
    ensures
        !(a + b).contains('/'),
{
    assert forall|i: int| 0 <= i < (a + b).len() implies (a + b)[i] != '/' by {
        if i < a.len() {
            assert(a.contains(a[i]));
        } else {
            assert(b.contains(b[i - a.len()]));
        }
    }
}

/// The file that is filled lies in the directory of the file that it is to
/// replace, and is neither that file nor any template, whatever the process and
/// the time.
pub proof fn law_temporary_is_another_file(pid: nat, unique: nat, system: BootSystem)
    ensures
        !temporary(Some(variables::TARGET_NAME@), pid, unique).contains('/'),
        temporary(Some(variables::TARGET_NAME@), pid, unique) != variables::TARGET_NAME@,
        temporary(Some(variables::TARGET_NAME@), pid, unique) != system.template(),
        system.template() != variables::TARGET_NAME@,
{
    reveal_strlit(".");
    reveal_strlit("PreviousBoot");
    reveal_strlit("PreviousBoot-linux");
    reveal_strlit("PreviousBoot-windows");
    reveal_strlit("PreviousBoot-mac");
    let name = temporary(Some(variables::TARGET_NAME@), pid, unique);
    assert(name[0] == '.');
    assert(variables::TARGET_NAME@[0] == 'P');
    assert(system.template()[0] == 'P');
    assert(variables::TARGET_NAME@.len() == 12);
    assert(!name.contains('/')) by {
        reveal_strlit(".tmp");
        number::law_numeral_holds_digits(pid);
        number::law_numeral_holds_digits(unique);
        lemma_no_slash("."@, variables::TARGET_NAME@);
        lemma_no_slash("."@ + variables::TARGET_NAME@, "."@);
        lemma_no_slash("."@ + variables::TARGET_NAME@ + "."@, number::numeral(pid));
        let head = "."@ + variables::TARGET_NAME@ + "."@ + number::numeral(pid);
        lemma_no_slash(head, "."@);
        lemma_no_slash(head + "."@, number::numeral(unique));
        lemma_no_slash(head + "."@ + number::numeral(unique), ".tmp"@);
    }
    assert(system.template().len() > 12);
}

// ---------------------------------------------------------------------------
// Replacing a file
// ---------------------------------------------------------------------------

/// What is to be done next in replacing a file.
#[derive(Debug, PartialEq, Eq)]
pub enum CopyStage {
    /// Fill the temporary file.
    Fill,
    /// Have it written to the disk.
    Sync,
    /// Let it take the place of the file.
    Replace,
    /// Remove it, for this went wrong.
    RemoveTemporary(String),
    /// Nothing more: all has ended so.
    Finished(Result<(), String>),
}

/// What a `CopyStage` says.
pub enum CopyView {
    Fill,
    Sync,
    Replace,
    RemoveTemporary(Seq<char>),
    Finished(Result<(), Seq<char>>),
}

impl DeepView for CopyStage {
    type V = CopyView;

    open spec fn deep_view(&self) -> CopyView {
        match *self {
            CopyStage::Fill => CopyView::Fill,
            CopyStage::Sync => CopyView::Sync,
            CopyStage::Replace => CopyView::Replace,
            CopyStage::RemoveTemporary(error) => CopyView::RemoveTemporary(error@),
            CopyStage::Finished(result) => CopyView::Finished(command::outcome(result)),
        }
    }
}

/// What follows a stage in replacing a file, once it has ended with `reply`.
/// Where `sync` holds, the file is written to the disk before it is put in
/// place.
pub open spec fn next_copy_stage(
    sync: bool,
    stage: CopyView,
    reply: Result<(), Seq<char>>,
) -> CopyView {
    match (stage, reply) {
        (CopyView::RemoveTemporary(error), _) => CopyView::Finished(Err(error)),
        (CopyView::Finished(result), _) => CopyView::Finished(result),
        (_, Err(error)) => CopyView::RemoveTemporary(error),
        (CopyView::Fill, Ok(_)) => if sync {
            CopyView::Sync
        } else {
            CopyView::Replace
        },
        (CopyView::Sync, Ok(_)) => CopyView::Replace,
        (CopyView::Replace, Ok(_)) => CopyView::Finished(Ok(())),
    }
}

/// What follows `stage` in replacing a file, once it has ended with `reply`.
/// The reply to removing the temporary file does not matter.
pub fn atomic_copy(sync: bool, stage: CopyStage, reply: Result<(), String>) -> (r: CopyStage)
    ensures
        r.deep_view() == next_copy_stage(sync, stage.deep_view(), command::outcome(reply)),
{
    match stage {
        CopyStage::RemoveTemporary(error) => CopyStage::Finished(Err(error)),
        CopyStage::Finished(result) => CopyStage::Finished(result),
        CopyStage::Fill => match reply {
            Err(error) => CopyStage::RemoveTemporary(error),
            Ok(_) => if sync {
                CopyStage::Sync
            } else {
                CopyStage::Replace
            },
        },
        CopyStage::Sync => match reply {
            Err(error) => CopyStage::RemoveTemporary(error),
            Ok(_) => CopyStage::Replace,
        },
        CopyStage::Replace => match reply {
            Err(error) => CopyStage::RemoveTemporary(error),
            Ok(_) => CopyStage::Finished(Ok(())),
        },
    }
}

/// The stages through which replacing a file goes from `stage` on, given the
/// replies to them.
pub open spec fn copy_stages(
    sync: bool,
    stage: CopyView,
    replies: Seq<Result<(), Seq<char>>>,
) -> Seq<CopyView>
    decreases replies.len(),
{
    if stage is Finished || replies.len() == 0 {
        seq![stage]
    } else {
        seq![stage] + copy_stages(sync, next_copy_stage(sync, stage, replies[0]), replies.skip(1))
    }
}

/// The file is replaced as the last step of a run in which all went well; where
/// a step goes wrong, the temporary file is removed and the error of that step
/// is the result.
pub proof fn law_replacing_is_all_or_nothing(replies: Seq<Result<(), Seq<char>>>)
    requires
        replies.len() >= 4,
    ensures
        copy_stages(true, CopyView::Fill, replies) == match (replies[0], replies[1], replies[2]) {
            (Err(e), _, _) => seq![
                CopyView::Fill,
                CopyView::RemoveTemporary(e),
                CopyView::Finished(Err(e)),
            ],
            (Ok(_), Err(e), _) => seq![
                CopyView::Fill,
                CopyView::Sync,
                CopyView::RemoveTemporary(e),
                CopyView::Finished(Err(e)),
            ],
            (Ok(_), Ok(_), Err(e)) => seq![
                CopyView::Fill,
                CopyView::Sync,
                CopyView::Replace,
                CopyView::RemoveTemporary(e),
                CopyView::Finished(Err(e)),
            ],
            (Ok(_), Ok(_), Ok(_)) => seq![
                CopyView::Fill,
                CopyView::Sync,
                CopyView::Replace,
                CopyView::Finished(Ok(())),
            ],
        },
{
    reveal_with_fuel(copy_stages, 5);
    let stages = copy_stages(true, CopyView::Fill, replies);
    match (replies[0], replies[1], replies[2]) {
        (Err(e), _, _) => {
            assert(stages =~= seq![
                CopyView::Fill,
                CopyView::RemoveTemporary(e),
                CopyView::Finished(Err(e)),
            ]);
        },
        (Ok(_), Err(e), _) => {
            assert(stages =~= seq![
                CopyView::Fill,
                CopyView::Sync,
                CopyView::RemoveTemporary(e),
                CopyView::Finished(Err(e)),
            ]);
        },
        (Ok(_), Ok(_), Err(e)) => {
            assert(stages =~= seq![
                CopyView::Fill,
                CopyView::Sync,
                CopyView::Replace,
                CopyView::RemoveTemporary(e),
                CopyView::Finished(Err(e)),
            ]);
        },
        (Ok(_), Ok(_), Ok(_)) => {
            assert(stages =~= seq![
                CopyView::Fill,
                CopyView::Sync,
                CopyView::Replace,
                CopyView::Finished(Ok(())),
            ]);
        },
    }
}

/// What the file that is to be replaced holds after the replies, from `stage` on,
/// if it held `old` and the temporary file is filled with `new`.
pub open spec fn file_after(
    sync: bool,
    old: Seq<u8>,
    new: Seq<u8>,
    stage: CopyView,
    replies: Seq<Result<(), Seq<char>>>,
) -> Seq<u8>
    decreases replies.len(),
{
    if stage is Finished || replies.len() == 0 {
        old
    } else {
        let held = if stage is Replace && replies[0] is Ok {
            new
        } else {
            old
        };
        file_after(sync, held, new, next_copy_stage(sync, stage, replies[0]), replies.skip(1))
    }
}

/// Where replacing a file has ended well, the file holds what is new; where it has
/// ended with an error, it holds what it held.
pub proof fn law_file_is_new_or_as_it_was(
    sync: bool,
    old: Seq<u8>,
    new: Seq<u8>,
    stage: CopyView,
    replies: Seq<Result<(), Seq<char>>>,
)
    requires
        !(stage is Finished),
    ensures
        copy_stages(sync, stage, replies).last() matches CopyView::Finished(result) ==> file_after(
            sync,
            old,
            new,
            stage,
            replies,
        ) == if result is Ok {
            new
        } else {
            old
        },
    decreases replies.len(),
{
    if replies.len() > 0 {
        let next = next_copy_stage(sync, stage, replies[0]);
        let rest = copy_stages(sync, next, replies.skip(1));
        reveal_with_fuel(copy_stages, 2);
        reveal_with_fuel(file_after, 2);
        assert(rest.len() > 0);
        assert(copy_stages(sync, stage, replies).last() == rest.last());
        if !(next is Finished) {
            law_file_is_new_or_as_it_was(sync, old, new, next, replies.skip(1));
        }
    }
}

// ---------------------------------------------------------------------------
// Writing a template
// ---------------------------------------------------------------------------

/// What is done to the files of a directory, by their names.
#[derive(Debug, PartialEq, Eq)]
pub enum FileAction {
    /// See whether this is a file.
    Check(String),
    /// Copy one to the other.
    Copy { from: String, to: String },
    /// Have this written to the disk.
    Sync(String),
    /// Let the one take the place of the other.
    Rename { from: String, to: String },
    /// Remove this.
    Remove(String),
    /// Read both.
    Compare { left: String, right: String },
    /// Nothing.
    Nothing,
}

/// What a `FileAction` says.
pub enum ActionView {
    Check(Seq<char>),
    Copy { from: Seq<char>, to: Seq<char> },
    Sync(Seq<char>),
    Rename { from: Seq<char>, to: Seq<char> },
    Remove(Seq<char>),
    Compare { left: Seq<char>, right: Seq<char> },
    Nothing,
}

impl DeepView for FileAction {
    type V = ActionView;

    open spec fn deep_view(&self) -> ActionView {
        match *self {
            FileAction::Check(file) => ActionView::Check(file@),
            FileAction::Copy { from, to } => ActionView::Copy { from: from@, to: to@ },
            FileAction::Sync(file) => ActionView::Sync(file@),
            FileAction::Rename { from, to } => ActionView::Rename { from: from@, to: to@ },
            FileAction::Remove(file) => ActionView::Remove(file@),
            FileAction::Compare { left, right } => ActionView::Compare {
                left: left@,
                right: right@,
            },
            FileAction::Nothing => ActionView::Nothing,
        }
    }
}

/// The names of the files that an action changes.
pub open spec fn changed_by(action: ActionView) -> Set<Seq<char>> {
    match action {
        ActionView::Copy { from, to } => set![to],
        ActionView::Rename { from, to } => set![from, to],
        ActionView::Remove(file) => set![file],
        _ => Set::empty(),
    }
}

/// What is to be done next in writing the template of a system.
#[derive(Debug, PartialEq, Eq)]
pub enum SwitchStage {
    /// See whether the template is there.
    CheckSource,
    /// Replace the file that rEFInd reads by a copy.
    Copying(CopyStage),
    /// Compare it with the template.
    Verify,
    /// Nothing more: all has ended so.
    Finished(Result<(), String>),
}

/// What a `SwitchStage` says.
pub enum SwitchView {
    CheckSource,
    Copying(CopyView),
    Verify,
    Finished(Result<(), Seq<char>>),
}

impl DeepView for SwitchStage {
    type V = SwitchView;

    open spec fn deep_view(&self) -> SwitchView {
        match *self {
            SwitchStage::CheckSource => SwitchView::CheckSource,
            SwitchStage::Copying(stage) => SwitchView::Copying(stage.deep_view()),
            SwitchStage::Verify => SwitchView::Verify,
            SwitchStage::Finished(result) => SwitchView::Finished(command::outcome(result)),
        }
    }
}

/// What came of a stage.
#[derive(Debug, PartialEq, Eq)]
pub enum SwitchReply {
    /// Whether the template is there.
    Found(bool),
    /// How a step of the copy ended.
    Step(Result<(), String>),
    /// The contents of the template and of the file that rEFInd reads, as far
    /// as they could be read.
    Contents { source: Option<Vec<u8>>, target: Option<Vec<u8>> },
}

/// What a `SwitchReply` says.
pub enum SwitchReplyView {
    Found(bool),
    Step(Result<(), Seq<char>>),
    Contents { source: Option<Seq<u8>>, target: Option<Seq<u8>> },
}

impl DeepView for SwitchReply {
    type V = SwitchReplyView;

    open spec fn deep_view(&self) -> SwitchReplyView {
        match *self {
            SwitchReply::Found(found) => SwitchReplyView::Found(found),
            SwitchReply::Step(result) => SwitchReplyView::Step(command::outcome(result)),
            SwitchReply::Contents { source, target } => SwitchReplyView::Contents {
                source: source.deep_view(),
                target: target.deep_view(),
            },
        }
    }
}

/// What is done to the files at a stage. `temporary` is the name of the file
/// that is filled.
pub open spec fn action_at(
    system: BootSystem,
    temporary: Seq<char>,
    stage: SwitchView,
) -> ActionView {
    match stage {
        SwitchView::CheckSource => ActionView::Check(system.template()),
        SwitchView::Copying(CopyView::Fill) => ActionView::Copy {
            from: system.template(),
            to: temporary,
        },
        SwitchView::Copying(CopyView::Sync) => ActionView::Sync(temporary),
        SwitchView::Copying(CopyView::Replace) => ActionView::Rename {
            from: temporary,
            to: variables::TARGET_NAME@,
        },
        SwitchView::Copying(CopyView::RemoveTemporary(_)) => ActionView::Remove(temporary),
        SwitchView::Copying(CopyView::Finished(_)) => ActionView::Nothing,
        SwitchView::Verify => ActionView::Compare {
            left: system.template(),
            right: variables::TARGET_NAME@,
        },
        SwitchView::Finished(_) => ActionView::Nothing,
    }
}

/// What follows once the copy has come to a stage.
pub open spec fn after_copy(stage: CopyView) -> SwitchView {
    match stage {
        CopyView::Finished(Ok(_)) => SwitchView::Verify,
        CopyView::Finished(Err(error)) => SwitchView::Finished(Err("写入失败: "@ + error)),
        _ => SwitchView::Copying(stage),
    }
}

/// What follows a stage in writing a template, once `reply` has come of it.
/// `source` and `target` are the paths of the template and of the file that
/// rEFInd reads. A reply that does not belong to the stage changes nothing.
pub open spec fn next_switch_stage(
    source: Seq<char>,
    target: Seq<char>,
    stage: SwitchView,
    reply: SwitchReplyView,
) -> SwitchView {
    match (stage, reply) {
        (SwitchView::CheckSource, SwitchReplyView::Found(found)) => if found {
            SwitchView::Copying(CopyView::Fill)
        } else {
            SwitchView::Finished(Err("变量文件不存在: "@ + source))
        },
        (SwitchView::Copying(copy), SwitchReplyView::Step(result)) => after_copy(
            next_copy_stage(true, copy, result),
        ),
        (SwitchView::Verify, SwitchReplyView::Contents { source, target: read }) => if digest::same_digest(
            source,
            read,
        ) {
            SwitchView::Finished(Ok(()))
        } else {
            SwitchView::Finished(Err("写入失败: 写入校验失败: "@ + target))
        },
        _ => stage,
    }
}

/// What is done to the files of the directory at `stage` of writing the template
/// of `system`.
pub fn file_action(system: BootSystem, temporary: &str, stage: &SwitchStage) -> (r: FileAction)
    ensures
        r.deep_view() == action_at(system, temporary@, stage.deep_view()),
{
    let source: String = system.source_name().to_owned();
    let target: String = variables::TARGET_NAME.to_owned();
    match stage {
        SwitchStage::CheckSource => FileAction::Check(source),
        SwitchStage::Copying(copy) => match copy {
            CopyStage::Fill => FileAction::Copy { from: source, to: temporary.to_owned() },
            CopyStage::Sync => FileAction::Sync(temporary.to_owned()),
            CopyStage::Replace => FileAction::Rename { from: temporary.to_owned(), to: target },
            CopyStage::RemoveTemporary(_) => FileAction::Remove(temporary.to_owned()),
            CopyStage::Finished(_) => FileAction::Nothing,
        },
        SwitchStage::Verify => FileAction::Compare { left: source, right: target },
        SwitchStage::Finished(_) => FileAction::Nothing,
    }
}

/// What follows `stage` in writing the template of `system` in `directory`, once
/// `reply` has come of it.
pub fn write_template(
    platform: Platform,
    directory: &str,
    system: BootSystem,
    stage: SwitchStage,
    reply: SwitchReply,
) -> (r: SwitchStage)
    ensures
        r.deep_view() == next_switch_stage(
            variables::template_in(platform, directory@, system),
            variables::target_in(platform, directory@),
            stage.deep_view(),
            reply.deep_view(),
        ),
{
    let source: String = variables::template_path(platform, directory, system);
    let target: String = variables::target_path(platform, directory);
    match (stage, reply) {
        (SwitchStage::CheckSource, SwitchReply::Found(found)) => if found {
            SwitchStage::Copying(CopyStage::Fill)
        } else {
            SwitchStage::Finished(Err(text::concat("变量文件不存在: ", source.as_str())))
        },
        (SwitchStage::Copying(copy), SwitchReply::Step(result)) => match atomic_copy(
            true,
            copy,
            result,
        ) {
            CopyStage::Finished(Ok(_)) => SwitchStage::Verify,
            CopyStage::Finished(Err(error)) => SwitchStage::Finished(
                Err(text::concat("写入失败: ", error.as_str())),
            ),
            other => SwitchStage::Copying(other),
        },
        (SwitchStage::Verify, SwitchReply::Contents { source: template, target: read }) => {
            if digest::hashes_match(&template, &read) {
                SwitchStage::Finished(Ok(()))
            } else {
                SwitchStage::Finished(Err(text::concat("写入失败: 写入校验失败: ", target.as_str())))
            }
        },
        (other, _) => other,
    }
}

// ---------------------------------------------------------------------------
// Laws
// ---------------------------------------------------------------------------

/// Writing a template changes no template: neither its own nor another.
pub proof fn law_templates_are_never_changed(
    system: BootSystem,
    other: BootSystem,
    pid: nat,
    unique: nat,
    stage: SwitchView,
)
    ensures
        !changed_by(
            action_at(system, temporary(Some(variables::TARGET_NAME@), pid, unique), stage),
        ).contains(other.template()),
{
    law_temporary_is_another_file(pid, unique, other);
}

/// The file that rEFInd reads is changed by one step alone, in which the filled
/// file takes its place.
pub proof fn law_target_is_replaced_at_once(
    system: BootSystem,
    pid: nat,
    unique: nat,
    stage: SwitchView,
)
    ensures
        ({
            let name = temporary(Some(variables::TARGET_NAME@), pid, unique);
            let action = action_at(system, name, stage);
            changed_by(action).contains(variables::TARGET_NAME@) ==> action
                == (ActionView::Rename { from: name, to: variables::TARGET_NAME@ })
        }),
{
    law_temporary_is_another_file(pid, unique, system);
}

/// The stage to which writing a template has come after the replies, from `stage`
/// on.
pub open spec fn switch_end(
    source: Seq<char>,
    target: Seq<char>,
    stage: SwitchView,
    replies: Seq<SwitchReplyView>,
) -> SwitchView
    decreases replies.len(),
{
    if replies.len() == 0 {
        stage
    } else {
        switch_end(
            source,
            target,
            next_switch_stage(source, target, stage, replies[0]),
            replies.skip(1),
        )
    }
}

/// Writing has ended well only where the contents of the template and of the
/// file that rEFInd reads were compared and have the same digest.
pub proof fn law_success_was_verified(
    source: Seq<char>,
    target: Seq<char>,
    stage: SwitchView,
    replies: Seq<SwitchReplyView>,
)
    requires
        !(stage is Finished),
        switch_end(source, target, stage, replies) == SwitchView::Finished(Ok(())),
    ensures
        exists|i: int|
            0 <= i < replies.len() && (#[trigger] replies[i] matches SwitchReplyView::Contents {
                source: template,
                target: read,
            } && digest::same_digest(template, read)),
    decreases replies.len(),
{
    if replies.len() > 0 {
        let next = next_switch_stage(source, target, stage, replies[0]);
        if next is Finished {
            lemma_finished_stays(source, target, next, replies.skip(1));
            assert(stage is Verify);
            let first = replies[0];
            assert(first is Contents);
        } else {
            law_success_was_verified(source, target, next, replies.skip(1));
            let rest = replies.skip(1);
            let i = choose|i: int|
                0 <= i < rest.len() && (#[trigger] rest[i] matches SwitchReplyView::Contents {
                    source: template,
                    target: read,
                } && digest::same_digest(template, read));
            assert(replies[i + 1] == rest[i]);
        }
    }
}

/// What has ended stays so.
proof fn lemma_finished_stays(
    source: Seq<char>,
    target: Seq<char>,
    stage: SwitchView,
    replies: Seq<SwitchReplyView>,
)
    requires
        stage is Finished,
    ensures
        switch_end(source, target, stage, replies) == stage,
    decreases replies.len(),
{
    if replies.len() > 0 {
        lemma_finished_stays(source, target, stage, replies.skip(1));
    }
}

/// Where the template is there, every step goes well and the file that rEFInd
/// reads then holds what the template holds, writing ends well.
pub proof fn law_copying_a_template_succeeds(
    source: Seq<char>,
    target: Seq<char>,
    contents: Seq<u8>,
)
    ensures
        switch_end(
            source,
            target,
            SwitchView::CheckSource,
            seq![
                SwitchReplyView::Found(true),
                SwitchReplyView::Step(Ok(())),
                SwitchReplyView::Step(Ok(())),
                SwitchReplyView::Step(Ok(())),
                SwitchReplyView::Contents { source: Some(contents), target: Some(contents) },
            ],
        ) == SwitchView::Finished(Ok(())),
{
    reveal_with_fuel(switch_end, 6);
}

/// A system whose template was written and compared is the one that the next boot
/// follows, as long as both files hold what was compared.
pub proof fn law_switched_system_is_active(
    platform: Platform,
    directory: Seq<char>,
    system: BootSystem,
    probe: variables::ProbeView,
    read: Option<Seq<u8>>,
)
    requires
        probe.exists,
        next_switch_stage(
            variables::template_in(platform, directory, system),
            variables::target_in(platform, directory),
            SwitchView::Verify,
            SwitchReplyView::Contents { source: probe.contents, target: read },
        ) == SwitchView::Finished(Ok(())),
    ensures
        variables::inspected(platform, directory, system, probe, read).active,
{
}

/// What the files of a directory hold once an action has succeeded.
pub open spec fn done_to(files: Map<Seq<char>, Seq<u8>>, action: ActionView) -> Map<
    Seq<char>,
    Seq<u8>,
> {
    match action {
        ActionView::Copy { from, to } => files.insert(to, files[from]),
        ActionView::Rename { from, to } => files.remove(from).insert(to, files[from]),
        ActionView::Remove(file) => files.remove(file),
        _ => files,
    }
}

/// Writing the template of a system, where every step succeeds, leaves in the file that
/// rEFInd reads what the template of that very system holds, and changes no other file:
/// the temporary one is gone.
pub proof fn law_template_of_the_system_is_written(
    system: BootSystem,
    pid: nat,
    unique: nat,
    files: Map<Seq<char>, Seq<u8>>,
)
    requires
        files.dom().contains(system.template()),
        !files.dom().contains(temporary(Some("PreviousBoot"@), pid, unique)),
    ensures
        ({
            let name = temporary(Some("PreviousBoot"@), pid, unique);
            let filled = done_to(
                files,
                action_at(system, name, SwitchView::Copying(CopyView::Fill)),
            );
            let synced = done_to(
                filled,
                action_at(system, name, SwitchView::Copying(CopyView::Sync)),
            );
            let replaced = done_to(
                synced,
                action_at(system, name, SwitchView::Copying(CopyView::Replace)),
            );
            replaced == files.insert("PreviousBoot"@, files[system.template()])
        }),
{
    law_temporary_is_another_file(pid, unique, system);
    let name = temporary(Some("PreviousBoot"@), pid, unique);
    let filled = done_to(files, action_at(system, name, SwitchView::Copying(CopyView::Fill)));
    let replaced = done_to(
        filled,
        action_at(system, name, SwitchView::Copying(CopyView::Replace)),
    );
    assert(replaced =~= files.insert("PreviousBoot"@, files[system.template()]));
}

/// What was filled and went wrong is removed, and the files are as they were.
pub proof fn law_failed_write_leaves_no_trace(
    system: BootSystem,
    pid: nat,
    unique: nat,
    files: Map<Seq<char>, Seq<u8>>,
    error: Seq<char>,
)
    requires
        files.dom().contains(system.template()),
        !files.dom().contains(temporary(Some("PreviousBoot"@), pid, unique)),
    ensures
        ({
            let name = temporary(Some("PreviousBoot"@), pid, unique);
            let filled = done_to(
                files,
                action_at(system, name, SwitchView::Copying(CopyView::Fill)),
            );
            done_to(
                filled,
                action_at(system, name, SwitchView::Copying(CopyView::RemoveTemporary(error))),
            ) == files
        }),
{
    law_temporary_is_another_file(pid, unique, system);
    let name = temporary(Some("PreviousBoot"@), pid, unique);
    let filled = done_to(files, action_at(system, name, SwitchView::Copying(CopyView::Fill)));
    assert(done_to(
        filled,
        action_at(system, name, SwitchView::Copying(CopyView::RemoveTemporary(error))),
    ) =~= files);
}

/// It is the template of the system that is looked for first, and that is compared at the
/// end with the file that rEFInd reads; what has ended does nothing.
pub proof fn law_template_of_the_system_is_compared(
    system: BootSystem,
    name: Seq<char>,
    result: Result<(), Seq<char>>,
)
    ensures
        action_at(system, name, SwitchView::CheckSource) == ActionView::Check(system.template()),
        action_at(system, name, SwitchView::Verify) == (ActionView::Compare {
            left: system.template(),
            right: "PreviousBoot"@,
        }),
        action_at(system, name, SwitchView::Copying(CopyView::Sync)) == ActionView::Sync(name),
        action_at(system, name, SwitchView::Finished(result)) is Nothing,
{
}

/// A template that is not there is an error; one that is there is copied. A copy that
/// failed is an error, and one that was made is compared: all has ended well just where
/// both files could be read and have the same SHA-256 digest.
pub proof fn law_write_ends_as_its_steps_do(
    source: Seq<char>,
    target: Seq<char>,
    error: Seq<char>,
    template: Option<Seq<u8>>,
    read: Option<Seq<u8>>,
)
    ensures
        next_switch_stage(source, target, SwitchView::CheckSource, SwitchReplyView::Found(true))
            == SwitchView::Copying(CopyView::Fill),
        next_switch_stage(source, target, SwitchView::CheckSource, SwitchReplyView::Found(false))
            == SwitchView::Finished(Err("变量文件不存在: "@ + source)),
        next_switch_stage(
            source,
            target,
            SwitchView::Copying(CopyView::Replace),
            SwitchReplyView::Step(Ok(())),
        ) == SwitchView::Verify,
        forall|reply: Result<(), Seq<char>>| #[trigger]
            next_switch_stage(
                source,
                target,
                SwitchView::Copying(CopyView::RemoveTemporary(error)),
                SwitchReplyView::Step(reply),
            ) == SwitchView::Finished(Err("写入失败: "@ + error)),
        next_switch_stage(
            source,
            target,
            SwitchView::Verify,
            SwitchReplyView::Contents { source: template, target: read },
        ) == if template is Some && read is Some && digest::sha256(template->0) == digest::sha256(
            read->0,
        ) {
            SwitchView::Finished(Ok(()))
        } else {
            SwitchView::Finished(Err("写入失败: 写入校验失败: "@ + target))
        },
{
}

/// The name of the temporary file begins with a dot and the name of the file that it is to
/// replace, and tells processes and times apart.
pub proof fn law_temporary_names_are_distinct(
    name: Seq<char>,
    pid: nat,
    unique: nat,
    other: nat,
)
    ensures
        text::begins_with(temporary(Some(name), pid, unique), "."@ + name + "."@),
        text::finishes_with(temporary(Some(name), pid, unique), ".tmp"@),
        temporary(None, pid, unique) == temporary(Some("target"@), pid, unique),
        temporary(Some(name), pid, unique) == temporary(Some(name), pid, other) ==> unique == other,
{
    let front = "."@ + name + "."@;
    let head = front + number::numeral(pid) + "."@;
    let path = temporary(Some(name), pid, unique);
    assert(path =~= front + (number::numeral(pid) + "."@ + number::numeral(unique) + ".tmp"@));
    text::law_beginning_is_what_is_put_in_front(
        path,
        front,
        number::numeral(pid) + "."@ + number::numeral(unique) + ".tmp"@,
    );
    text::law_ending_is_what_is_put_behind(path, ".tmp"@, head + number::numeral(unique));
    if path == temporary(Some(name), pid, other) {
        let again = temporary(Some(name), pid, other);
        let n = head.len() as int;
        let m = path.len() - ".tmp"@.len();
        assert(path.subrange(n, m) =~= number::numeral(unique));
        assert(again.subrange(n, m) =~= number::numeral(other));
        number::law_numerals_are_distinct(unique, other);
    }
}

/// The template's copy is written to the disk before it is put in place, and compared after
/// that; a step that fails has the copy removed, and its error is the result.
pub proof fn law_copy_is_on_the_disk_before_it_replaces(
    source: Seq<char>,
    target: Seq<char>,
    error: Seq<char>,
    result: Result<(), Seq<char>>,
)
    ensures
        ({
            let next = |stage: CopyView, result: Result<(), Seq<char>>|
                next_switch_stage(
                    source,
                    target,
                    SwitchView::Copying(stage),
                    SwitchReplyView::Step(result),
                );
            let removing = SwitchView::Copying(CopyView::RemoveTemporary(error));
            &&& next(CopyView::Fill, Ok(())) == SwitchView::Copying(CopyView::Sync)
            &&& next(CopyView::Sync, Ok(())) == SwitchView::Copying(CopyView::Replace)
            &&& next(CopyView::Replace, Ok(())) is Verify
            &&& next(CopyView::Fill, Err(error)) == removing
            &&& next(CopyView::Sync, Err(error)) == removing
            &&& next(CopyView::Replace, Err(error)) == removing
            &&& next(CopyView::RemoveTemporary(error), result) == SwitchView::Finished(
                Err("写入失败: "@ + error),
            )
        }),
{
}

/// A stage goes on only by a reply of its own kind; a write that has come to its end stays
/// there.
pub proof fn law_write_waits_for_its_reply(
    source: Seq<char>,
    target: Seq<char>,
    stage: SwitchView,
    reply: SwitchReplyView,
)
    requires
        stage is CheckSource ==> !(reply is Found),
        stage is Copying ==> !(reply is Step),
        stage is Verify ==> !(reply is Contents),
    ensures
        next_switch_stage(source, target, stage, reply) == stage,
{
}

} // verus!
