//! What the switcher knows, and what it shows of it.
use vstd::prelude::*;
use vstd::string::*;

use crate::command;
use crate::command::Platform;
use crate::mount;
use crate::mount::ActiveMount;
use crate::scan;
use crate::scan::{ScanError, ScanResult};
use crate::text;
use crate::variables;
use crate::variables::{BootSystem, VariableInfo};

verus! {

/// What the switcher knows.
#[derive(Debug, PartialEq, Eq)]
pub struct AppState {
    /// The directory of variables.
    pub vars_dir: Option<String>,
    /// The directory that was asked for.
    pub explicit_dir: Option<String>,
    /// The partition on which the variables lie, if it must be remounted or
    /// unmounted.
    pub active_mount: Option<ActiveMount>,
    pub variables: Vec<VariableInfo>,
    pub message: String,
    pub error: Option<String>,
}

/// What an `AppState` says.
pub struct StateView {
    pub vars_dir: Option<Seq<char>>,
    pub explicit_dir: Option<Seq<char>>,
    pub active_mount: Option<mount::MountView>,
    pub variables: Seq<variables::VariableView>,
    pub message: Seq<char>,
    pub error: Option<Seq<char>>,
}

impl DeepView for AppState {
    type V = StateView;

    open spec fn deep_view(&self) -> StateView {
        StateView {
            vars_dir: self.vars_dir.deep_view(),
            explicit_dir: self.explicit_dir.deep_view(),
            active_mount: self.active_mount.deep_view(),
            variables: self.variables.deep_view(),
            message: self.message@,
            error: self.error.deep_view(),
        }
    }
}

/// What is shown of an `AppState`.
#[derive(Debug, PartialEq, Eq)]
pub struct AppStatus {
    pub vars_dir: Option<String>,
    /// Whether the switcher itself mounted the partition.
    pub temporary_mount: bool,
    pub variables: Vec<VariableInfo>,
    pub message: String,
    pub error: Option<String>,
}

/// What an `AppStatus` says.
pub struct StatusView {
    pub vars_dir: Option<Seq<char>>,
    pub temporary_mount: bool,
    pub variables: Seq<variables::VariableView>,
    pub message: Seq<char>,
    pub error: Option<Seq<char>>,
}

impl DeepView for AppStatus {
    type V = StatusView;

    open spec fn deep_view(&self) -> StatusView {
        StatusView {
            vars_dir: self.vars_dir.deep_view(),
            temporary_mount: self.temporary_mount,
            variables: self.variables.deep_view(),
            message: self.message@,
            error: self.error.deep_view(),
        }
    }
}

/// Nothing is known.
pub open spec fn blank_state() -> StateView {
    StateView {
        vars_dir: None,
        explicit_dir: None,
        active_mount: None,
        variables: Seq::empty(),
        message: Seq::empty(),
        error: None,
    }
}

impl Default for AppState {
    fn default() -> (r: Self)
        ensures
            r.deep_view() == blank_state(),
    {
        let variables: Vec<VariableInfo> = Vec::new();
        assert(variables.deep_view() =~= Seq::empty());
        AppState {
            vars_dir: None,
            explicit_dir: None,
            active_mount: None,
            variables,
            message: String::new(),
            error: None,
        }
    }
}

/// The switcher itself mounted the partition.
pub open spec fn owned(active_mount: Option<mount::MountView>) -> bool {
    active_mount is Some && active_mount->0.owned
}

/// What is shown of a state.
pub open spec fn snapshot(state: StateView) -> StatusView {
    StatusView {
        vars_dir: match state.vars_dir {
            Some(vars_dir) => Some(variables::shown_path(vars_dir)),
            None => None,
        },
        temporary_mount: owned(state.active_mount),
        variables: state.variables,
        message: state.message,
        error: state.error,
    }
}

/// A copy of a text that may be missing.
pub fn copy_text(text: &Option<String>) -> (r: Option<String>)
    ensures
        r == *text,
{
    match text {
        Some(text) => Some(text.clone()),
        None => None,
    }
}

/// A copy of a partition that may be missing.
fn copy_mount(mount: &Option<ActiveMount>) -> (r: Option<ActiveMount>)
    ensures
        r == *mount,
{
    match mount {
        Some(mount) => Some(mount.clone()),
        None => None,
    }
}

/// Whether the switcher itself mounted the partition.
pub fn is_owned(active_mount: &Option<ActiveMount>) -> (r: bool)
    ensures
        r == owned(active_mount.deep_view()),
{
    match active_mount {
        Some(mount) => mount.owned,
        None => false,
    }
}

/// The directory as it is shown.
fn shown_directory(vars_dir: &Option<String>) -> (r: Option<String>)
    ensures
        r.deep_view() == match vars_dir.deep_view() {
            Some(vars_dir) => Some(variables::shown_path(vars_dir)),
            None => None,
        },
{
    match vars_dir {
        Some(vars_dir) => Some(variables::display_path(vars_dir.as_str())),
        None => None,
    }
}

/// What is shown of `state`.
pub fn state_snapshot(state: &AppState) -> (r: AppStatus)
    ensures
        r.deep_view() == snapshot(state.deep_view()),
{
    AppStatus {
        vars_dir: shown_directory(&state.vars_dir),
        temporary_mount: is_owned(&state.active_mount),
        variables: variables::copy_variables(&state.variables),
        message: state.message.clone(),
        error: copy_text(&state.error),
    }
}

// ---------------------------------------------------------------------------
// Refreshing
// ---------------------------------------------------------------------------

/// The first system that the next boot follows.
pub open spec fn first_active(all: Seq<variables::VariableView>) -> Option<variables::VariableView>
    decreases all.len(),
{
    if all.len() == 0 {
        None
    } else if all[0].active {
        Some(all[0])
    } else {
        first_active(all.skip(1))
    }
}

/// What is said of the next boot.
pub open spec fn next_boot(all: Seq<variables::VariableView>) -> Seq<char> {
    match first_active(all) {
        Some(found) => "下次启动："@ + found.display_name,
        None => "已连接 rEFInd；PreviousBoot 未匹配模板"@,
    }
}

/// What is said of the next boot, from what is known of the systems.
pub fn next_boot_message(all: &Vec<VariableInfo>) -> (r: String)
    ensures
        r@ == next_boot(all.deep_view()),
{
    let ghost views = all.deep_view();
    let mut i: usize = 0;
    assert(views.skip(0) =~= views);
    while i < all.len()
        invariant
            i <= all@.len(),
            views == all.deep_view(),
            first_active(views) == first_active(views.skip(i as int)),
        decreases all@.len() - i,
    {
        assert(views.skip(i as int)[0] == all@[i as int].deep_view());
        assert(views.skip(i as int).skip(1) =~= views.skip(i as int + 1));
        if all[i].active {
            return text::concat("下次启动：", all[i].display_name.as_str());
        }
        i = i + 1;
    }
    "已连接 rEFInd；PreviousBoot 未匹配模板".to_owned()
}

/// What a result of a scan says.
pub open spec fn scan_view(result: Result<ScanResult, ScanError>) -> Result<
    scan::ScanView,
    scan::ErrorView,
> {
    match result {
        Ok(found) => Ok(found.deep_view()),
        Err(error) => Err(error.deep_view()),
    }
}

/// What is known after a scan. Where it failed, the partition that was known
/// stays.
pub open spec fn refreshed(
    state: StateView,
    result: Result<scan::ScanView, scan::ErrorView>,
) -> StateView {
    match result {
        Ok(found) => StateView {
            vars_dir: Some(found.vars_dir),
            explicit_dir: state.explicit_dir,
            active_mount: found.active_mount,
            variables: found.variables,
            message: next_boot(found.variables),
            error: None,
        },
        Err(error) => StateView {
            vars_dir: None,
            explicit_dir: state.explicit_dir,
            active_mount: state.active_mount,
            variables: Seq::empty(),
            message: "未找到可用的 rEFInd 变量目录"@,
            error: Some(scan::error_text(error)),
        },
    }
}

/// What is shown after a scan.
pub open spec fn refresh_status(result: Result<scan::ScanView, scan::ErrorView>) -> StatusView {
    match result {
        Ok(found) => StatusView {
            vars_dir: Some(variables::shown_path(found.vars_dir)),
            temporary_mount: owned(found.active_mount),
            variables: found.variables,
            message: next_boot(found.variables),
            error: None,
        },
        Err(error) => StatusView {
            vars_dir: None,
            temporary_mount: false,
            variables: Seq::empty(),
            message: "未找到可用的 rEFInd 变量目录"@,
            error: Some(scan::error_text(error)),
        },
    }
}

/// Begins a refresh: gives the directory that was asked for, and the partition
/// that was in use, which is then no longer known.
pub fn begin_refresh(state: &mut AppState) -> (r: (Option<String>, Option<ActiveMount>))
    ensures
        r.0.deep_view() == old(state).deep_view().explicit_dir,
        r.1.deep_view() == old(state).deep_view().active_mount,
        final(state).deep_view() == (StateView { active_mount: None, ..old(state).deep_view() }),
{
    let explicit_dir: Option<String> = copy_text(&state.explicit_dir);
    let old_mount: Option<ActiveMount> = state.active_mount.take();
    (explicit_dir, old_mount)
}

/// Ends a refresh with the result of a scan, and gives what is then shown.
pub fn refresh_and_update(state: &mut AppState, result: Result<ScanResult, ScanError>) -> (r:
    AppStatus)
    ensures
        final(state).deep_view() == refreshed(old(state).deep_view(), scan_view(result)),
        r.deep_view() == refresh_status(scan_view(result)),
{
    match result {
        Ok(found) => {
            let message: String = next_boot_message(&found.variables);
            let status: AppStatus = AppStatus {
                vars_dir: Some(variables::display_path(found.vars_dir.as_str())),
                temporary_mount: is_owned(&found.active_mount),
                variables: variables::copy_variables(&found.variables),
                message: message.clone(),
                error: None,
            };
            state.vars_dir = Some(found.vars_dir);
            state.active_mount = found.active_mount;
            state.variables = found.variables;
            state.message = message;
            state.error = None;
            status
        },
        Err(error) => {
            let shown: String = error.message();
            let status: AppStatus = AppStatus {
                vars_dir: None,
                temporary_mount: false,
                variables: Vec::new(),
                message: "未找到可用的 rEFInd 变量目录".to_owned(),
                error: Some(shown.clone()),
            };
            assert(status.variables.deep_view() =~= Seq::empty());
            state.vars_dir = None;
            state.variables = Vec::new();
            assert(state.variables.deep_view() =~= Seq::empty());
            state.message = "未找到可用的 rEFInd 变量目录".to_owned();
            state.error = Some(shown);
            status
        },
    }
}

/// Notes in `status` that the menu could not be rebuilt, unless it holds an
/// error already.
pub fn note_menu_error(status: &mut AppStatus, error: String)
    ensures
        final(status).deep_view() == (StatusView {
            error: match old(status).deep_view().error {
                Some(known) => Some(known),
                None => Some(error@),
            },
            ..old(status).deep_view()
        }),
{
    if status.error.is_none() {
        status.error = Some(error);
    }
}

/// Sets the directory that is asked for. A blank path asks for none.
pub fn set_vars_dir(state: &mut AppState, path: Option<String>)
    ensures
        final(state).deep_view() == (StateView {
            explicit_dir: match path.deep_view() {
                Some(path) if text::trimmed(path).len() > 0 => Some(path),
                _ => None,
            },
            ..old(state).deep_view()
        }),
{
    let mut directory: Option<String> = None;
    if let Some(path) = path {
        if !text::trim(path.as_str()).as_str().is_empty() {
            directory = Some(path);
        }
    }
    state.explicit_dir = directory;
}

// ---------------------------------------------------------------------------
// Switching
// ---------------------------------------------------------------------------

/// What comes of asking for a system.
#[derive(Debug, PartialEq, Eq)]
pub enum SwitchDecision {
    /// There is no such system; this is shown.
    Unknown(AppStatus),
    /// There is no directory of variables; it is to be looked for.
    NotReady,
    /// The template of the system is to be written in this directory.
    Write { system: BootSystem, directory: String, active_mount: Option<ActiveMount> },
}

/// What a `SwitchDecision` says.
pub enum DecisionView {
    Unknown(StatusView),
    NotReady,
    Write { system: BootSystem, directory: Seq<char>, active_mount: Option<mount::MountView> },
}

impl DeepView for SwitchDecision {
    type V = DecisionView;

    open spec fn deep_view(&self) -> DecisionView {
        match *self {
            SwitchDecision::Unknown(status) => DecisionView::Unknown(status.deep_view()),
            SwitchDecision::NotReady => DecisionView::NotReady,
            SwitchDecision::Write { system, directory, active_mount } => DecisionView::Write {
                system,
                directory: directory@,
                active_mount: active_mount.deep_view(),
            },
        }
    }
}

/// The system with a key.
pub open spec fn system_of(key: Seq<char>) -> Option<BootSystem> {
    if key == BootSystem::Linux.key() {
        Some(BootSystem::Linux)
    } else if key == BootSystem::Windows.key() {
        Some(BootSystem::Windows)
    } else if key == BootSystem::MacOs.key() {
        Some(BootSystem::MacOs)
    } else {
        None
    }
}

/// What comes of asking for the system with a key.
pub open spec fn decision(state: StateView, key: Seq<char>) -> DecisionView {
    match (system_of(key), state.vars_dir) {
        (None, _) => DecisionView::Unknown(
            StatusView { error: Some("未知系统: "@ + key), ..snapshot(state) },
        ),
        (Some(_), None) => DecisionView::NotReady,
        (Some(system), Some(directory)) => DecisionView::Write {
            system,
            directory,
            active_mount: state.active_mount,
        },
    }
}

/// What comes of asking for the system with the key `system`.
pub fn switch_and_update(state: &AppState, system: &str) -> (r: SwitchDecision)
    ensures
        r.deep_view() == decision(state.deep_view(), system@),
{
    match BootSystem::find(system) {
        None => {
            assert(BootSystem::Linux.key() != system@);
            assert(BootSystem::Windows.key() != system@);
            assert(BootSystem::MacOs.key() != system@);
            let mut status: AppStatus = state_snapshot(state);
            status.error = Some(text::concat("未知系统: ", system));
            SwitchDecision::Unknown(status)
        },
        Some(found) => {
            proof {
                variables::law_systems_are_distinct(found, BootSystem::Linux);
                variables::law_systems_are_distinct(found, BootSystem::Windows);
                variables::law_systems_are_distinct(found, BootSystem::MacOs);
            }
            match &state.vars_dir {
                None => SwitchDecision::NotReady,
                Some(directory) => SwitchDecision::Write {
                    system: found,
                    directory: directory.clone(),
                    active_mount: copy_mount(&state.active_mount),
                },
            }
        },
    }
}

/// What is shown where a system was asked for and there was no directory of
/// variables.
pub fn not_ready_status(state: &AppState) -> (r: AppStatus)
    ensures
        r.deep_view() == (StatusView {
            error: Some("变量目录尚未就绪"@),
            ..snapshot(state.deep_view())
        }),
{
    let mut status: AppStatus = state_snapshot(state);
    status.error = Some("变量目录尚未就绪".to_owned());
    status
}

/// Notes that something failed, and gives what is then shown. The directory is
/// shown as it is known.
pub fn update_failure_status(state: &mut AppState, message: &str, error: String) -> (r: AppStatus)
    ensures
        final(state).deep_view() == (StateView {
            message: message@,
            error: Some(error@),
            ..old(state).deep_view()
        }),
        r.deep_view() == (StatusView {
            vars_dir: old(state).deep_view().vars_dir,
            temporary_mount: owned(old(state).deep_view().active_mount),
            variables: old(state).deep_view().variables,
            message: message@,
            error: Some(error@),
        }),
{
    let status: AppStatus = AppStatus {
        vars_dir: copy_text(&state.vars_dir),
        temporary_mount: is_owned(&state.active_mount),
        variables: variables::copy_variables(&state.variables),
        message: message.to_owned(),
        error: Some(error.clone()),
    };
    state.message = message.to_owned();
    state.error = Some(error);
    status
}

/// What is said where switching to a system failed.
fn switch_failure_message(system: BootSystem) -> (r: String)
    ensures
        r@ == "切换 "@ + system.title() + " 失败"@,
{
    text::concat3("切换 ", system.display_name(), " 失败")
}

/// What follows once the template of a system was to be written.
#[derive(Debug, PartialEq, Eq)]
pub enum SwitchFollowUp {
    /// Refresh: the system boots next.
    Refresh,
    /// Note the failure, under this message.
    Fail { message: String, error: String },
}

/// What a `SwitchFollowUp` says.
pub enum FollowUpView {
    Refresh,
    Fail { message: Seq<char>, error: Seq<char> },
}

impl DeepView for SwitchFollowUp {
    type V = FollowUpView;

    open spec fn deep_view(&self) -> FollowUpView {
        match *self {
            SwitchFollowUp::Refresh => FollowUpView::Refresh,
            SwitchFollowUp::Fail { message, error } => FollowUpView::Fail {
                message: message@,
                error: error@,
            },
        }
    }
}

/// What follows once the template of a system was to be written.
pub open spec fn follow_up(system: BootSystem, result: Result<(), Seq<char>>) -> FollowUpView {
    match result {
        Ok(_) => FollowUpView::Refresh,
        Err(error) => FollowUpView::Fail {
            message: "切换 "@ + system.title() + " 失败"@,
            error,
        },
    }
}

/// What follows once writing the template of `system` has ended with `result`.
pub fn finish_switch(system: BootSystem, result: Result<(), String>) -> (r: SwitchFollowUp)
    ensures
        r.deep_view() == follow_up(system, command::outcome(result)),
{
    match result {
        Ok(_) => SwitchFollowUp::Refresh,
        Err(error) => SwitchFollowUp::Fail { message: switch_failure_message(system), error },
    }
}

// ---------------------------------------------------------------------------
// Unmounting
// ---------------------------------------------------------------------------

/// Takes the partition out of `state`, if the switcher itself mounted it.
pub fn take_temporary_mount(state: &mut AppState) -> (r: Option<ActiveMount>)
    ensures
        owned(old(state).deep_view().active_mount) ==> {
            &&& r.deep_view() == old(state).deep_view().active_mount
            &&& final(state).deep_view() == (StateView {
                active_mount: None,
                ..old(state).deep_view()
            })
        },
        !owned(old(state).deep_view().active_mount) ==> {
            &&& r is None
            &&& *final(state) == *old(state)
        },
{
    if is_owned(&state.active_mount) {
        state.active_mount.take()
    } else {
        None
    }
}

/// What is shown where the switcher has mounted nothing.
pub fn no_temporary_mount_status(state: &AppState) -> (r: AppStatus)
    ensures
        r.deep_view() == (StatusView {
            message: "没有应用创建的临时挂载"@,
            error: None,
            ..snapshot(state.deep_view())
        }),
{
    let mut status: AppStatus = state_snapshot(state);
    status.message = "没有应用创建的临时挂载".to_owned();
    status.error = None;
    status
}

/// What is known once the partition `mount` was to be unmounted: if that
/// failed, it is still in use.
pub open spec fn after_unmount(
    state: StateView,
    mount: mount::MountView,
    result: Result<(), Seq<char>>,
) -> StateView {
    match result {
        Ok(_) => StateView {
            vars_dir: None,
            explicit_dir: state.explicit_dir,
            active_mount: state.active_mount,
            variables: Seq::empty(),
            message: "已卸载应用创建的临时挂载"@,
            error: None,
        },
        Err(_) => StateView { active_mount: Some(mount), ..state },
    }
}

/// What is shown once the partition `mount` was to be unmounted.
pub open spec fn unmount_status(
    state: StateView,
    mount: mount::MountView,
    result: Result<(), Seq<char>>,
) -> StatusView {
    match result {
        Ok(_) => StatusView {
            vars_dir: None,
            temporary_mount: false,
            variables: Seq::empty(),
            message: "已卸载应用创建的临时挂载"@,
            error: None,
        },
        Err(error) => StatusView {
            message: "卸载临时挂载失败"@,
            error: Some("无法卸载 "@ + mount.mountpoint + ": "@ + error),
            ..snapshot(after_unmount(state, mount, Err(error)))
        },
    }
}

/// Notes what came of unmounting `mount`, which was taken out of `state`, and
/// gives what is then shown.
pub fn unmount_temporary(
    state: &mut AppState,
    mount: ActiveMount,
    result: Result<(), String>,
) -> (r: AppStatus)
    ensures
        final(state).deep_view() == after_unmount(
            old(state).deep_view(),
            mount.deep_view(),
            command::outcome(result),
        ),
        r.deep_view() == unmount_status(
            old(state).deep_view(),
            mount.deep_view(),
            command::outcome(result),
        ),
{
    match result {
        Ok(_) => {
            state.vars_dir = None;
            state.variables = Vec::new();
            assert(state.variables.deep_view() =~= Seq::empty());
            state.message = "已卸载应用创建的临时挂载".to_owned();
            state.error = None;
            let status: AppStatus = AppStatus {
                vars_dir: None,
                temporary_mount: false,
                variables: Vec::new(),
                message: state.message.clone(),
                error: None,
            };
            assert(status.variables.deep_view() =~= Seq::empty());
            status
        },
        Err(error) => {
            let mut shown: String = text::concat("无法卸载 ", mount.mountpoint.as_str());
            shown.append(": ");
            shown.append(error.as_str());
            state.active_mount = Some(mount);
            let mut status: AppStatus = state_snapshot(state);
            status.message = "卸载临时挂载失败".to_owned();
            status.error = Some(shown);
            status
        },
    }
}

// ---------------------------------------------------------------------------
// Laws
// ---------------------------------------------------------------------------

/// What a refresh shows is what is shown of the state from then on. Where it
/// failed, that is so because a refresh begins by giving up the partition.
pub proof fn law_refresh_shows_the_state(
    state: StateView,
    result: Result<scan::ScanView, scan::ErrorView>,
)
    ensures
        snapshot(refreshed(StateView { active_mount: None, ..state }, result)) == refresh_status(
            result,
        ),
{
}

/// A refresh does not forget the directory that was asked for.
pub proof fn law_refresh_keeps_the_request(
    state: StateView,
    result: Result<scan::ScanView, scan::ErrorView>,
)
    ensures
        refreshed(state, result).explicit_dir == state.explicit_dir,
{
}

/// A state shows an error, or systems and a directory, but never both after a
/// refresh.
pub proof fn law_refresh_shows_error_or_directory(
    state: StateView,
    result: Result<scan::ScanView, scan::ErrorView>,
)
    ensures
        refreshed(state, result).error is Some <==> result is Err,
        refreshed(state, result).vars_dir is Some <==> result is Ok,
{
}

/// Where unmounting fails, all is as it was before the partition was taken out.
pub proof fn law_failed_unmount_changes_nothing(
    state: StateView,
    mount: mount::MountView,
    error: Seq<char>,
)
    requires
        state.active_mount == Some(mount),
        mount.owned,
    ensures
        after_unmount(StateView { active_mount: None, ..state }, mount, Err(error)) == state,
        unmount_status(StateView { active_mount: None, ..state }, mount, Err(error)).temporary_mount,
{
}

/// Once the partition is unmounted, what is shown is what is known.
pub proof fn law_unmount_shows_the_state(state: StateView, mount: mount::MountView)
    ensures
        ({
            let before = StateView { active_mount: None, ..state };
            snapshot(after_unmount(before, mount, Ok(()))) == unmount_status(
                before,
                mount,
                Ok(()),
            )
        }),
{
}

/// Where the file that rEFInd reads agrees with the template of one system and of
/// no other, that system is the one that is said to boot next.
pub proof fn law_followed_system_is_announced(
    platform: Platform,
    directory: Seq<char>,
    system: BootSystem,
    linux: variables::ProbeView,
    windows: variables::ProbeView,
    macos: variables::ProbeView,
    target: Option<Seq<u8>>,
)
    requires
        variables::inspected(platform, directory, BootSystem::Linux, linux, target).active <==> system
            == BootSystem::Linux,
        variables::inspected(platform, directory, BootSystem::Windows, windows, target).active <==> system
            == BootSystem::Windows,
        variables::inspected(platform, directory, BootSystem::MacOs, macos, target).active <==> system
            == BootSystem::MacOs,
    ensures
        next_boot(variables::all_inspected(platform, directory, linux, windows, macos, target)) == "下次启动："@
            + system.title(),
{
    let all = variables::all_inspected(platform, directory, linux, windows, macos, target);
    reveal_with_fuel(first_active, 4);
    assert(all.skip(1)[0] == all[1]);
    assert(all.skip(1).skip(1)[0] == all[2]);
}

/// Where the file that rEFInd reads agrees with no template, that is said.
pub proof fn law_no_followed_system_is_said(all: Seq<variables::VariableView>)
    requires
        forall|i: int| 0 <= i < all.len() ==> !(#[trigger] all[i]).active,
    ensures
        next_boot(all) == "已连接 rEFInd；PreviousBoot 未匹配模板"@,
    decreases all.len(),
{
    if all.len() > 0 {
        assert(!all[0].active);
        assert forall|i: int| 0 <= i < all.skip(1).len() implies !(#[trigger] all.skip(
            1,
        )[i]).active by {
            assert(all.skip(1)[i] == all[i + 1]);
        }
        law_no_followed_system_is_said(all.skip(1));
    }
}

/// Where something is to be written, it is the template of the system that was asked for,
/// in the directory that is known, on the partition that is known. Asking for a system by
/// its key leads to writing wherever a directory is known, and to looking for one where
/// none is; any other key is unknown, and nothing is written.
pub proof fn law_asked_system_is_written(state: StateView, key: Seq<char>, asked: BootSystem)
    ensures
        decision(state, key) matches DecisionView::Write { system, directory, active_mount } ==> {
            &&& system.key() == key
            &&& state.vars_dir == Some(directory)
            &&& active_mount == state.active_mount
        },
        state.vars_dir is Some ==> decision(state, asked.key()) == (DecisionView::Write {
            system: asked,
            directory: state.vars_dir->0,
            active_mount: state.active_mount,
        }),
        state.vars_dir is None ==> decision(state, asked.key()) is NotReady,
        decision(state, key) is Unknown <==> key != "linux"@ && key != "windows"@ && key
            != "macos"@,
        decision(state, key) matches DecisionView::Unknown(shown) ==> {
            &&& shown.error == Some("未知系统: "@ + key)
            &&& shown.vars_dir == snapshot(state).vars_dir
            &&& shown.temporary_mount == snapshot(state).temporary_mount
            &&& shown.variables == state.variables
            &&& shown.message == state.message
        },
{
    variables::law_systems_are_distinct(asked, BootSystem::Linux);
    variables::law_systems_are_distinct(asked, BootSystem::Windows);
    variables::law_systems_are_distinct(asked, BootSystem::MacOs);
}

/// The system with a key is the one that has it, and there is one for the key of each.
pub proof fn law_system_is_found_by_its_key(key: Seq<char>, system: BootSystem)
    ensures
        system_of(key) matches Some(found) ==> found.key() == key,
        system_of(system.key()) == Some(system),
        system_of(key) is None <==> key != "linux"@ && key != "windows"@ && key != "macos"@,
{
    variables::law_systems_are_distinct(system, BootSystem::Linux);
    variables::law_systems_are_distinct(system, BootSystem::Windows);
    variables::law_systems_are_distinct(system, BootSystem::MacOs);
}

/// What is shown is what is known: the directory as it is shown to a user, whether the
/// switcher itself mounted the partition, the systems, the message and the error.
pub proof fn law_snapshot_shows_what_is_known(state: StateView)
    ensures
        snapshot(state).vars_dir is Some <==> state.vars_dir is Some,
        state.vars_dir matches Some(directory) ==> snapshot(state).vars_dir == Some(
            variables::shown_path(directory),
        ),
        snapshot(state).temporary_mount <==> (state.active_mount matches Some(mount)
            && mount.owned),
        snapshot(state).variables == state.variables,
        snapshot(state).message == state.message,
        snapshot(state).error == state.error,
{
}

/// A refresh takes over what a scan has found: directory, partition and systems; where the
/// scan failed, it says why, and no directory and no system is known.
pub proof fn law_refresh_takes_over_what_was_found(
    state: StateView,
    found: scan::ScanView,
    error: scan::ErrorView,
)
    ensures
        ({
            let after = refreshed(state, Ok(found));
            &&& after.vars_dir == Some(found.vars_dir)
            &&& after.active_mount == found.active_mount
            &&& after.variables == found.variables
            &&& after.message == next_boot(found.variables)
            &&& after.error is None
        }),
        ({
            let after = refreshed(state, Err(error));
            &&& after.vars_dir is None
            &&& after.active_mount == state.active_mount
            &&& after.variables.len() == 0
            &&& after.message == "未找到可用的 rEFInd 变量目录"@
            &&& after.error == Some(scan::error_text(error))
        }),
{
}

/// What is said of the next boot names the first system that is active.
pub proof fn law_first_active_system_is_announced(all: Seq<variables::VariableView>, i: int)
    requires
        0 <= i < all.len(),
        all[i].active,
        forall|j: int| 0 <= j < i ==> !(#[trigger] all[j]).active,
    ensures
        next_boot(all) == "下次启动："@ + all[i].display_name,
    decreases i,
{
    if i > 0 {
        let rest = all.skip(1);
        assert(!all[0].active);
        assert forall|j: int| 0 <= j < i - 1 implies !(#[trigger] rest[j]).active by {
            assert(rest[j] == all[j + 1]);
        }
        assert(rest[i - 1] == all[i]);
        law_first_active_system_is_announced(rest, i - 1);
    }
}

/// After a write that succeeded the state is refreshed; after one that failed, the failure
/// is noted, with the system in the message and the error as it came.
pub proof fn law_failed_write_is_noted(system: BootSystem, error: Seq<char>)
    ensures
        follow_up(system, Ok(())) is Refresh,
        follow_up(system, Err(error)) == (FollowUpView::Fail {
            message: "切换 "@ + system.title() + " 失败"@,
            error,
        }),
{
}

/// Once the partition is unmounted, no directory and no system is known, and that is said;
/// where unmounting failed, all stays known, and what is shown says which partition, and
/// why.
pub proof fn law_unmount_forgets_or_keeps(
    state: StateView,
    mount: mount::MountView,
    error: Seq<char>,
)
    ensures
        ({
            let after = after_unmount(state, mount, Ok(()));
            &&& after.vars_dir is None && after.variables.len() == 0 && after.error is None
            &&& after.message == "已卸载应用创建的临时挂载"@
            &&& after.active_mount == state.active_mount
            &&& after.explicit_dir == state.explicit_dir
        }),
        ({
            let after = after_unmount(state, mount, Err(error));
            &&& after.active_mount == Some(mount)
            &&& after.vars_dir == state.vars_dir && after.variables == state.variables
            &&& after.message == state.message && after.error == state.error
        }),
        ({
            let shown = unmount_status(state, mount, Err(error));
            &&& shown.message == "卸载临时挂载失败"@
            &&& shown.error == Some("无法卸载 "@ + mount.mountpoint + ": "@ + error)
            &&& shown.temporary_mount == mount.owned
            &&& shown.variables == state.variables
        }),
{
}

} // verus!
