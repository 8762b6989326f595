//! Mounted partitions: the commands that mount, remount and unmount them, and
//! the order in which a partition is made writable and read-only again.
use vstd::prelude::*;
use vstd::string::*;

use crate::command;
use crate::command::{CommandLine, CommandReply, Platform};
use crate::number;
use crate::text;

verus! {

/// A mounted partition on which the variables lie.
#[derive(Debug, PartialEq, Eq)]
pub struct ActiveMount {
    pub device: String,
    pub mountpoint: String,
    /// Whether the switcher itself mounted it.
    pub owned: bool,
}

/// What an `ActiveMount` says.
pub struct MountView {
    pub device: Seq<char>,
    pub mountpoint: Seq<char>,
    pub owned: bool,
}

impl DeepView for ActiveMount {
    type V = MountView;

    open spec fn deep_view(&self) -> MountView {
        MountView { device: self.device@, mountpoint: self.mountpoint@, owned: self.owned }
    }
}

impl Clone for ActiveMount {
    fn clone(&self) -> (r: Self)
        ensures
            r == *self,
    {
        ActiveMount {
            device: self.device.clone(),
            mountpoint: self.mountpoint.clone(),
            owned: self.owned,
        }
    }
}

// ---------------------------------------------------------------------------
// Options and commands
// ---------------------------------------------------------------------------

/// The options of a mount: the mode, and to whom the files are to belong.
pub open spec fn options(mode: Seq<char>, ids: Option<(nat, nat)>) -> Seq<char> {
    match ids {
        Some((uid, gid)) => mode + ",uid="@ + number::numeral(uid) + ",gid="@ + number::numeral(gid),
        None => mode,
    }
}

/// The options of a remount.
pub open spec fn options_again(mode: Seq<char>, ids: Option<(nat, nat)>) -> Seq<char> {
    "remount,"@ + options(mode, ids)
}

/// The options with which a partition is mounted in `mode` (`ro` or `rw`) for
/// the user and group `ids`.
pub fn mount_options(mode: &str, ids: Option<(u32, u32)>) -> (r: String)
    ensures
        r@ == options(mode@, crate::users::ids_view(ids)),
{
    match ids {
        Some((uid, gid)) => {
            let mut out: String = mode.to_owned();
            out.append(",uid=");
            out.append(number::decimal(uid as u128).as_str());
            out.append(",gid=");
            out.append(number::decimal(gid as u128).as_str());
            out
        },
        None => mode.to_owned(),
    }
}

/// The options with which a mounted partition is mounted again in `mode`.
pub fn remount_options(mode: &str, ids: Option<(u32, u32)>) -> (r: String)
    ensures
        r@ == options_again(mode@, crate::users::ids_view(ids)),
{
    text::concat("remount,", mount_options(mode, ids).as_str())
}

/// The command that mounts the partition `mount` again in `mode`.
pub open spec fn remount_line(
    platform: Platform,
    root: bool,
    ids: Option<(nat, nat)>,
    mount: MountView,
    mode: Seq<char>,
) -> command::CommandView {
    let head = command::privileged(platform, root, "mount"@);
    command::CommandView {
        program: head.program,
        args: head.args + seq!["-o"@, options_again(mode, ids), mount.device, mount.mountpoint],
    }
}

/// The command that unmounts what is mounted at `mountpoint`.
pub open spec fn unmount_line(
    platform: Platform,
    root: bool,
    mountpoint: Seq<char>,
) -> command::CommandView {
    command::with_arg(command::privileged(platform, root, "umount"@), mountpoint)
}

/// The command that mounts `device` read-only at `mountpoint`.
pub open spec fn mount_line(
    platform: Platform,
    root: bool,
    ids: Option<(nat, nat)>,
    filesystem: Seq<char>,
    device: Seq<char>,
    mountpoint: Seq<char>,
) -> command::CommandView {
    let head = command::privileged(platform, root, "mount"@);
    command::CommandView {
        program: head.program,
        args: head.args + seq![
            "-o"@,
            options("ro"@, ids),
            "-t"@,
            filesystem,
            device,
            mountpoint,
        ],
    }
}

/// What the reply to a remount means: the error is what the command wrote.
pub open spec fn remounted(reply: command::ReplyView) -> Result<(), Seq<char>> {
    match reply {
        command::ReplyView::Exited { success, code, stderr } => if success {
            Ok(())
        } else {
            Err(text::trimmed(stderr))
        },
        command::ReplyView::NotFound(error) => Err(error),
        command::ReplyView::Unstarted(error) => Err(error),
    }
}

/// What the reply to an unmount means.
pub open spec fn unmounted(reply: command::ReplyView) -> Result<(), Seq<char>> {
    match reply {
        command::ReplyView::Exited { success, code, stderr } => if success {
            Ok(())
        } else {
            Err("umount failed"@)
        },
        command::ReplyView::NotFound(error) => Err(error),
        command::ReplyView::Unstarted(error) => Err(error),
    }
}

/// The command that unmounts what is mounted at `mountpoint`.
pub fn unmount_command(platform: Platform, root: bool, mountpoint: &str) -> (r: CommandLine)
    ensures
        r.deep_view() == unmount_line(platform, root, mountpoint@),
{
    let mut line: CommandLine = command::mount_command(platform, root, "umount");
    line.arg(mountpoint);
    line
}

/// The command that mounts the partition `device`, with its `filesystem`,
/// read-only at `mountpoint`.
pub fn mount_partition_command(
    platform: Platform,
    root: bool,
    ids: Option<(u32, u32)>,
    filesystem: &str,
    device: &str,
    mountpoint: &str,
) -> (r: CommandLine)
    ensures
        r.deep_view() == mount_line(
            platform,
            root,
            crate::users::ids_view(ids),
            filesystem@,
            device@,
            mountpoint@,
        ),
{
    let mut line: CommandLine = command::mount_command(platform, root, "mount");
    let ghost head = line.deep_view();
    let mode: String = mount_options("ro", ids);
    line.arg("-o");
    line.arg(mode.as_str());
    line.arg("-t");
    line.arg(filesystem);
    line.arg(device);
    line.arg(mountpoint);
    assert(line.deep_view().args =~= head.args + seq![
        "-o"@,
        mode@,
        "-t"@,
        filesystem@,
        device@,
        mountpoint@,
    ]);
    line
}

impl ActiveMount {
    /// The command that unmounts the partition: none, unless the switcher
    /// itself mounted it.
    pub fn unmount(&self, platform: Platform, root: bool) -> (r: Option<CommandLine>)
        ensures
            r is Some <==> self.owned,
            r matches Some(line) ==> line.deep_view() == unmount_line(
                platform,
                root,
                self.mountpoint@,
            ),
    {
        if !self.owned {
            return None;
        }
        Some(unmount_command(platform, root, self.mountpoint.as_str()))
    }

    /// The command that mounts the partition again in `mode`.
    pub fn remount(
        &self,
        platform: Platform,
        root: bool,
        ids: Option<(u32, u32)>,
        mode: &str,
    ) -> (r: CommandLine)
        ensures
            r.deep_view() == remount_line(
                platform,
                root,
                crate::users::ids_view(ids),
                self.deep_view(),
                mode@,
            ),
    {
        let mut line: CommandLine = command::mount_command(platform, root, "mount");
        let ghost head = line.deep_view();
        let again: String = remount_options(mode, ids);
        line.arg("-o");
        line.arg(again.as_str());
        line.arg(self.device.as_str());
        line.arg(self.mountpoint.as_str());
        assert(line.deep_view().args =~= head.args + seq![
            "-o"@,
            again@,
            self.device@,
            self.mountpoint@,
        ]);
        line
    }
}

/// What the reply to a remount means.
pub fn finish_remount(reply: CommandReply) -> (r: Result<(), String>)
    ensures
        command::outcome(r) == remounted(reply.deep_view()),
{
    match reply {
        CommandReply::Exited { success, code, stderr } => if success {
            Ok(())
        } else {
            Err(text::trim(stderr.as_str()))
        },
        CommandReply::NotFound(error) => Err(error),
        CommandReply::Unstarted(error) => Err(error),
    }
}

/// What the reply to an unmount means.
pub fn finish_unmount(reply: CommandReply) -> (r: Result<(), String>)
    ensures
        command::outcome(r) == unmounted(reply.deep_view()),
{
    match reply {
        CommandReply::Exited { success, code, stderr } => if success {
            Ok(())
        } else {
            Err("umount failed".to_owned())
        },
        CommandReply::NotFound(error) => Err(error),
        CommandReply::Unstarted(error) => Err(error),
    }
}

// ---------------------------------------------------------------------------
// Giving a partition up
// ---------------------------------------------------------------------------

/// What is to be done next in giving a partition up.
#[derive(Debug, PartialEq, Eq)]
pub enum UnmountStage {
    /// Unmount it.
    Unmount,
    /// Remove the directory at which it was mounted.
    RemoveMountpoint,
    /// Nothing more: all has ended so.
    Finished(Result<(), String>),
}

/// What an `UnmountStage` says.
pub enum UnmountView {
    Unmount,
    RemoveMountpoint,
    Finished(Result<(), Seq<char>>),
}

impl DeepView for UnmountStage {
    type V = UnmountView;

    open spec fn deep_view(&self) -> UnmountView {
        match *self {
            UnmountStage::Unmount => UnmountView::Unmount,
            UnmountStage::RemoveMountpoint => UnmountView::RemoveMountpoint,
            UnmountStage::Finished(result) => UnmountView::Finished(command::outcome(result)),
        }
    }
}

/// Where giving a partition up begins: one that the switcher did not mount is left
/// alone.
pub open spec fn first_unmount_stage(owned: bool) -> UnmountView {
    if owned {
        UnmountView::Unmount
    } else {
        UnmountView::Finished(Ok(()))
    }
}

/// What follows a stage, once it has ended with `reply`.
pub open spec fn next_unmount_stage(stage: UnmountView, reply: Result<(), Seq<char>>) -> UnmountView {
    match stage {
        UnmountView::Unmount => match reply {
            Ok(_) => UnmountView::RemoveMountpoint,
            Err(error) => UnmountView::Finished(Err(error)),
        },
        UnmountView::RemoveMountpoint => UnmountView::Finished(Ok(())),
        UnmountView::Finished(result) => UnmountView::Finished(result),
    }
}

/// Where giving up the partition `mount` begins.
pub fn begin_unmount(mount: &ActiveMount) -> (r: UnmountStage)
    ensures
        r.deep_view() == first_unmount_stage(mount.owned),
{
    if mount.owned {
        UnmountStage::Unmount
    } else {
        UnmountStage::Finished(Ok(()))
    }
}

/// What follows `stage`, once it has ended with `reply`. The reply to removing the
/// directory does not matter.
pub fn run_unmount(stage: UnmountStage, reply: Result<(), String>) -> (r: UnmountStage)
    ensures
        r.deep_view() == next_unmount_stage(stage.deep_view(), command::outcome(reply)),
{
    match stage {
        UnmountStage::Unmount => match reply {
            Ok(_) => UnmountStage::RemoveMountpoint,
            Err(error) => UnmountStage::Finished(Err(error)),
        },
        UnmountStage::RemoveMountpoint => UnmountStage::Finished(Ok(())),
        UnmountStage::Finished(result) => UnmountStage::Finished(result),
    }
}

/// The stages through which giving a partition up goes from `stage` on, given the
/// replies to them.
pub open spec fn unmount_stages(stage: UnmountView, replies: Seq<Result<(), Seq<char>>>) -> Seq<
    UnmountView,
>
    decreases replies.len(),
{
    if stage is Finished || replies.len() == 0 {
        seq![stage]
    } else {
        seq![stage] + unmount_stages(next_unmount_stage(stage, replies[0]), replies.skip(1))
    }
}

/// The directory at which a partition was mounted is removed just where the
/// switcher mounted it and unmounting it succeeded; the result is that of
/// unmounting.
pub proof fn law_mountpoint_is_removed_after_unmount(
    owned: bool,
    unmounted: Result<(), Seq<char>>,
    removed: Result<(), Seq<char>>,
)
    ensures
        unmount_stages(first_unmount_stage(owned), seq![unmounted, removed]) == match (
            owned,
            unmounted,
        ) {
            (false, _) => seq![UnmountView::Finished(Ok(()))],
            (true, Err(error)) => seq![UnmountView::Unmount, UnmountView::Finished(Err(error))],
            (true, Ok(_)) => seq![
                UnmountView::Unmount,
                UnmountView::RemoveMountpoint,
                UnmountView::Finished(Ok(())),
            ],
        },
{
    reveal_with_fuel(unmount_stages, 3);
    let stages = unmount_stages(first_unmount_stage(owned), seq![unmounted, removed]);
    match (owned, unmounted) {
        (false, _) => {},
        (true, Err(error)) => {
            assert(stages =~= seq![UnmountView::Unmount, UnmountView::Finished(Err(error))]);
        },
        (true, Ok(_)) => {
            assert(stages =~= seq![
                UnmountView::Unmount,
                UnmountView::RemoveMountpoint,
                UnmountView::Finished(Ok(())),
            ]);
        },
    }
}

// ---------------------------------------------------------------------------
// Writing to a partition
// ---------------------------------------------------------------------------

/// What is to be done next in writing to a partition.
#[derive(Debug, PartialEq, Eq)]
pub enum WriteStage {
    /// Mount the partition again for writing.
    RemountWritable,
    /// Write.
    Operate,
    /// Mount the partition again for reading only; the writing has ended so.
    RemountReadOnly(Result<(), String>),
    /// Nothing more: all has ended so.
    Finished(Result<(), String>),
}

/// What a `WriteStage` says.
pub enum WriteView {
    RemountWritable,
    Operate,
    RemountReadOnly(Result<(), Seq<char>>),
    Finished(Result<(), Seq<char>>),
}

impl DeepView for WriteStage {
    type V = WriteView;

    open spec fn deep_view(&self) -> WriteView {
        match *self {
            WriteStage::RemountWritable => WriteView::RemountWritable,
            WriteStage::Operate => WriteView::Operate,
            WriteStage::RemountReadOnly(result) => WriteView::RemountReadOnly(
                command::outcome(result),
            ),
            WriteStage::Finished(result) => WriteView::Finished(command::outcome(result)),
        }
    }
}

/// Where writing begins.
pub open spec fn first_write_stage(mounted: bool) -> WriteView {
    if mounted {
        WriteView::RemountWritable
    } else {
        WriteView::Operate
    }
}

/// What follows a stage, once it has ended with `reply`.
pub open spec fn next_write_stage(
    mounted: bool,
    stage: WriteView,
    reply: Result<(), Seq<char>>,
) -> WriteView {
    match stage {
        WriteView::RemountWritable => match reply {
            Ok(_) => WriteView::Operate,
            Err(error) => WriteView::Finished(Err("无法将分区重新挂载为可写: "@ + error)),
        },
        WriteView::Operate => if mounted {
            WriteView::RemountReadOnly(reply)
        } else {
            WriteView::Finished(reply)
        },
        WriteView::RemountReadOnly(result) => WriteView::Finished(result),
        WriteView::Finished(result) => WriteView::Finished(result),
    }
}

/// Where writing begins: a partition in `active_mount` is first made writable.
pub fn begin_write(active_mount: Option<&ActiveMount>) -> (r: WriteStage)
    ensures
        r.deep_view() == first_write_stage(active_mount is Some),
{
    match active_mount {
        Some(_) => WriteStage::RemountWritable,
        None => WriteStage::Operate,
    }
}

/// What follows `stage`, once it has ended with `reply`. The reply to mounting
/// for reading only does not matter.
pub fn write_with_mount(
    active_mount: Option<&ActiveMount>,
    stage: WriteStage,
    reply: Result<(), String>,
) -> (r: WriteStage)
    ensures
        r.deep_view() == next_write_stage(
            active_mount is Some,
            stage.deep_view(),
            command::outcome(reply),
        ),
{
    match stage {
        WriteStage::RemountWritable => match reply {
            Ok(_) => WriteStage::Operate,
            Err(error) => WriteStage::Finished(
                Err(text::concat("无法将分区重新挂载为可写: ", error.as_str())),
            ),
        },
        WriteStage::Operate => match active_mount {
            Some(_) => WriteStage::RemountReadOnly(reply),
            None => WriteStage::Finished(reply),
        },
        WriteStage::RemountReadOnly(result) => WriteStage::Finished(result),
        WriteStage::Finished(result) => WriteStage::Finished(result),
    }
}

/// The command that a stage of writing runs, if it runs one.
pub open spec fn write_line(
    platform: Platform,
    root: bool,
    ids: Option<(nat, nat)>,
    mount: MountView,
    stage: WriteView,
) -> Option<command::CommandView> {
    match stage {
        WriteView::RemountWritable => Some(remount_line(platform, root, ids, mount, "rw"@)),
        WriteView::RemountReadOnly(_) => Some(remount_line(platform, root, ids, mount, "ro"@)),
        _ => None,
    }
}

/// The command that `stage` of writing to the partition `mount` runs, if it runs
/// one.
pub fn write_command(
    platform: Platform,
    root: bool,
    ids: Option<(u32, u32)>,
    mount: &ActiveMount,
    stage: &WriteStage,
) -> (r: Option<CommandLine>)
    ensures
        r.deep_view() == write_line(
            platform,
            root,
            crate::users::ids_view(ids),
            mount.deep_view(),
            stage.deep_view(),
        ),
{
    match stage {
        WriteStage::RemountWritable => Some(mount.remount(platform, root, ids, "rw")),
        WriteStage::RemountReadOnly(_) => Some(mount.remount(platform, root, ids, "ro")),
        _ => None,
    }
}

/// The stages through which writing goes from `stage` on, given the replies to
/// them.
pub open spec fn write_stages(
    mounted: bool,
    stage: WriteView,
    replies: Seq<Result<(), Seq<char>>>,
) -> Seq<WriteView>
    decreases replies.len(),
{
    if stage is Finished || replies.len() == 0 {
        seq![stage]
    } else {
        seq![stage] + write_stages(
            mounted,
            next_write_stage(mounted, stage, replies[0]),
            replies.skip(1),
        )
    }
}

/// Whatever the replies, a mounted partition is written only once it is
/// writable, and then it is made read-only again before all has ended; the
/// result is that of the writing.
pub proof fn law_mounted_write_restores_read_only(replies: Seq<Result<(), Seq<char>>>)
    requires
        replies.len() >= 3,
    ensures
        write_stages(true, first_write_stage(true), replies) == match replies[0] {
            Ok(_) => seq![
                WriteView::RemountWritable,
                WriteView::Operate,
                WriteView::RemountReadOnly(replies[1]),
                WriteView::Finished(replies[1]),
            ],
            Err(error) => seq![
                WriteView::RemountWritable,
                WriteView::Finished(Err("无法将分区重新挂载为可写: "@ + error)),
            ],
        },
{
    reveal_with_fuel(write_stages, 4);
    let stages = write_stages(true, first_write_stage(true), replies);
    if replies[0] is Ok {
        assert(stages =~= seq![
            WriteView::RemountWritable,
            WriteView::Operate,
            WriteView::RemountReadOnly(replies[1]),
            WriteView::Finished(replies[1]),
        ]);
    } else {
        assert(stages =~= seq![
            WriteView::RemountWritable,
            WriteView::Finished(Err("无法将分区重新挂载为可写: "@ + replies[0]->Err_0)),
        ]);
    }
}

/// Where nothing has to be remounted, the writing is all there is.
pub proof fn law_plain_write_is_one_step(replies: Seq<Result<(), Seq<char>>>)
    requires
        replies.len() >= 1,
    ensures
        write_stages(false, first_write_stage(false), replies) == seq![
            WriteView::Operate,
            WriteView::Finished(replies[0]),
        ],
{
    reveal_with_fuel(write_stages, 2);
    assert(write_stages(false, first_write_stage(false), replies) =~= seq![
        WriteView::Operate,
        WriteView::Finished(replies[0]),
    ]);
}

/// The options of a mount are its mode, followed by the user and the group to whom
/// the files are to belong, if they are known; those of a remount say so in front.
pub proof fn law_options_hold_mode_and_owner(mode: Seq<char>, uid: nat, gid: nat)
    ensures
        options(mode, None) == mode,
        options(mode, Some((uid, gid))) == mode + ",uid="@ + number::numeral(uid) + ",gid="@
            + number::numeral(gid),
        options_again(mode, None) == "remount,"@ + mode,
        options_again(mode, Some((uid, gid))) == "remount,"@ + options(mode, Some((uid, gid))),
{
}

/// The commands hand over the options, then the device and the place, behind what
/// runs them with the rights of root.
pub proof fn law_mount_commands_name_device_and_place(
    platform: Platform,
    root: bool,
    ids: Option<(nat, nat)>,
    mount: MountView,
    filesystem: Seq<char>,
    mode: Seq<char>,
)
    ensures
        ({
            let head = command::privileged(platform, root, "mount"@);
            let line = remount_line(platform, root, ids, mount, mode);
            &&& line.program == head.program
            &&& line.args == head.args + seq![
                "-o"@,
                options_again(mode, ids),
                mount.device,
                mount.mountpoint,
            ]
        }),
        ({
            let head = command::privileged(platform, root, "mount"@);
            let line = mount_line(platform, root, ids, filesystem, mount.device, mount.mountpoint);
            &&& line.program == head.program
            &&& line.args == head.args + seq![
                "-o"@,
                options("ro"@, ids),
                "-t"@,
                filesystem,
                mount.device,
                mount.mountpoint,
            ]
        }),
        ({
            let head = command::privileged(platform, root, "umount"@);
            let line = unmount_line(platform, root, mount.mountpoint);
            &&& line.program == head.program
            &&& line.args == head.args.push(mount.mountpoint)
        }),
{
}

/// Mounting again or unmounting succeeded just where the command ran and ended with
/// success. What is said of a failure is what the command wrote, or why it could not
/// be run.
pub proof fn law_only_a_successful_command_succeeds(reply: command::ReplyView)
    ensures
        remounted(reply) is Ok <==> (reply matches command::ReplyView::Exited { success, .. }
            && success),
        unmounted(reply) is Ok <==> (reply matches command::ReplyView::Exited { success, .. }
            && success),
        reply matches command::ReplyView::Exited { success, stderr, .. } ==> !success ==> remounted(
            reply,
        ) == Err::<(), Seq<char>>(text::trimmed(stderr)) && unmounted(reply) == Err::<
            (),
            Seq<char>,
        >("umount failed"@),
        reply matches command::ReplyView::NotFound(error) ==> remounted(reply) == Err::<
            (),
            Seq<char>,
        >(error) && unmounted(reply) == Err::<(), Seq<char>>(error),
        reply matches command::ReplyView::Unstarted(error) ==> remounted(reply) == Err::<
            (),
            Seq<char>,
        >(error) && unmounted(reply) == Err::<(), Seq<char>>(error),
{
}

/// Before a write the partition is mounted again for reading and writing, after it
/// for reading only, and the write itself mounts nothing.
pub proof fn law_stages_of_writing_have_their_modes(
    platform: Platform,
    root: bool,
    ids: Option<(nat, nat)>,
    mount: MountView,
    result: Result<(), Seq<char>>,
)
    ensures
        write_line(platform, root, ids, mount, WriteView::RemountWritable) == Some(
            remount_line(platform, root, ids, mount, "rw"@),
        ),
        write_line(platform, root, ids, mount, WriteView::RemountReadOnly(result)) == Some(
            remount_line(platform, root, ids, mount, "ro"@),
        ),
        write_line(platform, root, ids, mount, WriteView::Operate) is None,
        write_line(platform, root, ids, mount, WriteView::Finished(result)) is None,
{
}

/// Only a partition that the switcher mounted is unmounted; if that succeeds, the directory
/// goes too, whether or not it can be removed, and else the error is the result.
pub proof fn law_own_partition_is_given_up(
    owned: bool,
    error: Seq<char>,
    reply: Result<(), Seq<char>>,
    result: Result<(), Seq<char>>,
)
    ensures
        first_unmount_stage(owned) is Unmount <==> owned,
        first_unmount_stage(false) == UnmountView::Finished(Ok(())),
        next_unmount_stage(UnmountView::Unmount, Ok(())) is RemoveMountpoint,
        next_unmount_stage(UnmountView::Unmount, Err(error)) == UnmountView::Finished(Err(error)),
        next_unmount_stage(UnmountView::RemoveMountpoint, reply) == UnmountView::Finished(Ok(())),
        next_unmount_stage(UnmountView::Finished(result), reply) == UnmountView::Finished(result),
{
}

/// A write begins by making the partition writable, where one is mounted; a failure in that
/// ends it. What came of the write is the result, and first the partition is made
/// read-only again, whether or not that succeeds.
pub proof fn law_write_leaves_the_partition_read_only(
    mounted: bool,
    error: Seq<char>,
    reply: Result<(), Seq<char>>,
    result: Result<(), Seq<char>>,
)
    ensures
        first_write_stage(mounted) == if mounted {
            WriteView::RemountWritable
        } else {
            WriteView::Operate
        },
        next_write_stage(mounted, WriteView::RemountWritable, Ok(())) is Operate,
        next_write_stage(mounted, WriteView::RemountWritable, Err(error)) == WriteView::Finished(
            Err("无法将分区重新挂载为可写: "@ + error),
        ),
        next_write_stage(true, WriteView::Operate, reply) == WriteView::RemountReadOnly(reply),
        next_write_stage(false, WriteView::Operate, reply) == WriteView::Finished(reply),
        next_write_stage(mounted, WriteView::RemountReadOnly(result), reply)
            == WriteView::Finished(result),
        next_write_stage(mounted, WriteView::Finished(result), reply) == WriteView::Finished(
            result,
        ),
{
}

} // verus!
