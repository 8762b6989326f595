//! Starting with the session: in which way it is done, what the system says of
//! it, and what the user is told.
use vstd::prelude::*;
use vstd::string::*;

use crate::command;
use crate::command::{CommandLine, CommandReply, Platform};
use crate::text;
use crate::unix_path;

verus! {

// ---------------------------------------------------------------------------
// State
// ---------------------------------------------------------------------------

/// What the system says of starting with the session.
#[derive(Clone, Copy, Debug, PartialEq, Eq, Structural)]
pub enum AutostartState {
    Enabled,
    /// It is registered, and the user has yet to approve it.
    RequiresApproval,
    Disabled,
    /// The system does not say.
    Unavailable,
}

impl AutostartState {
    /// The name of this state.
    pub open spec fn name(self) -> Seq<char> {
        match self {
            AutostartState::Enabled => "enabled"@,
            AutostartState::RequiresApproval => "requires-approval"@,
            AutostartState::Disabled => "disabled"@,
            AutostartState::Unavailable => "unavailable"@,
        }
    }

    /// It was turned on.
    pub open spec fn on(self) -> bool {
        self == AutostartState::Enabled || self == AutostartState::RequiresApproval
    }

    /// What the user is told of this state.
    pub open spec fn advice(self) -> Option<Seq<char>> {
        match self {
            AutostartState::RequiresApproval => Some(
                "已注册登录项，请在「系统设置 → 通用 → 登录项与扩展」中允许本应用"@,
            ),
            AutostartState::Unavailable => Some(
                "无法通过系统登录项接口管理开机启动（需以 .app 形式运行），可在「系统设置 → 通用 → 登录项与扩展」中手动添加"@,
            ),
            _ => None,
        }
    }

    /// The name of this state.
    pub fn as_str(self) -> (r: &'static str)
        ensures
            r@ == self.name(),
    {
        match self {
            AutostartState::Enabled => "enabled",
            AutostartState::RequiresApproval => "requires-approval",
            AutostartState::Disabled => "disabled",
            AutostartState::Unavailable => "unavailable",
        }
    }

    /// Whether it was turned on.
    pub fn is_on(self) -> (r: bool)
        ensures
            r == self.on(),
    {
        match self {
            AutostartState::Enabled => true,
            AutostartState::RequiresApproval => true,
            _ => false,
        }
    }

    /// What the user is told of this state.
    pub fn hint(self) -> (r: Option<&'static str>)
        ensures
            r.deep_view() == self.advice(),
    {
        match self {
            AutostartState::RequiresApproval => Some(
                "已注册登录项，请在「系统设置 → 通用 → 登录项与扩展」中允许本应用",
            ),
            AutostartState::Unavailable => Some(
                "无法通过系统登录项接口管理开机启动（需以 .app 形式运行），可在「系统设置 → 通用 → 登录项与扩展」中手动添加",
            ),
            _ => None,
        }
    }
}

/// What the user is told of `state`.
fn owned_hint(state: AutostartState) -> (r: Option<String>)
    ensures
        r.deep_view() == state.advice(),
{
    match state.hint() {
        Some(hint) => Some(hint.to_owned()),
        None => None,
    }
}

// ---------------------------------------------------------------------------
// The app bundle of macOS
// ---------------------------------------------------------------------------

/// A name with the extension of an app bundle, in whatever case.
pub open spec fn bundle_name(name: Seq<char>) -> bool {
    let n = name.len() as int;
    &&& n >= 5
    &&& name[n - 4] == '.'
    &&& name[n - 3] == 'a' || name[n - 3] == 'A'
    &&& name[n - 2] == 'p' || name[n - 2] == 'P'
    &&& name[n - 1] == 'p' || name[n - 1] == 'P'
}

/// The bundle in which an executable lies, three directories up, if that has the
/// name of one.
pub open spec fn bundle_of(executable: Seq<char>) -> Option<Seq<char>> {
    let all = unix_path::components(executable);
    let n = all.len() as int;
    if n > 3 && bundle_name(all[n - 4]) {
        Some(unix_path::path_of(all.take(n - 3)))
    } else {
        None
    }
}

/// Whether `name` has the extension of an app bundle, in whatever case.
fn has_bundle_extension(name: &str) -> (r: bool)
    ensures
        r == bundle_name(name@),
{
    let chars: Vec<char> = text::to_chars(name);
    let n: usize = chars.len();
    n >= 5 && chars[n - 4] == '.' && (chars[n - 3] == 'a' || chars[n - 3] == 'A') && (chars[n - 2]
        == 'p' || chars[n - 2] == 'P') && (chars[n - 1] == 'p' || chars[n - 1] == 'P')
}

/// The bundle in which `executable`, an absolute path, lies, going by its name.
pub fn app_bundle_path(executable: &str) -> (r: Option<String>)
    ensures
        r.deep_view() == bundle_of(executable@),
{
    let all: Vec<String> = unix_path::split_path(executable);
    let n: usize = all.len();
    if n <= 3 {
        return None;
    }
    assert(all.deep_view()[n - 4] == all@[n - 4]@);
    if !has_bundle_extension(all[n - 4].as_str()) {
        return None;
    }
    let mut up: Vec<String> = Vec::new();
    let mut i: usize = 0;
    while i < n - 3
        invariant
            n == all@.len(),
            3 < n,
            i <= n - 3,
            up.deep_view() == all.deep_view().take(i as int),
        decreases n - i,
    {
        let ghost before = up.deep_view();
        up.push(all[i].clone());
        assert(up.deep_view() =~= before.push(all@[i as int]@));
        assert(up.deep_view() =~= all.deep_view().take(i as int + 1));
        i = i + 1;
    }
    Some(unix_path::build_path(&up))
}

/// Whether the switcher runs from an app bundle: `bundle` is what the path of the
/// executable says, `contents` whether there is a directory `Contents` in it.
pub fn running_from_app_bundle(bundle: &Option<String>, contents: bool) -> (r: bool)
    ensures
        r == (bundle is Some && contents),
{
    bundle.is_some() && contents
}

/// The command that tells whether a bundle has a valid signature.
pub open spec fn signature_line(bundle: Seq<char>) -> command::CommandView {
    command::with_arg(
        command::with_arg(command::bare("/usr/bin/codesign"@), "--verify"@),
        bundle,
    )
}

/// The command that tells whether `bundle` has a valid signature.
pub fn signature_command(bundle: &str) -> (r: CommandLine)
    ensures
        r.deep_view() == signature_line(bundle@),
{
    let args: Vec<String> = Vec::new();
    assert(args.deep_view() =~= Seq::empty());
    let mut line: CommandLine = CommandLine { program: "/usr/bin/codesign".to_owned(), args };
    line.arg("--verify");
    line.arg(bundle);
    line
}

/// Whether the app bundle has a valid signature, from how the command that tells
/// so ended, if there is a bundle.
pub fn app_bundle_is_signed(in_bundle: bool, reply: &CommandReply) -> (r: bool)
    ensures
        r == (in_bundle && (reply.deep_view() matches command::ReplyView::Exited { success, .. }
            && success)),
{
    match reply {
        CommandReply::Exited { success, code, stderr } => in_bundle && *success,
        _ => false,
    }
}

// ---------------------------------------------------------------------------
// The ways of doing it
// ---------------------------------------------------------------------------

/// How macOS starts the switcher with the session.
#[derive(Clone, Copy, Debug, PartialEq, Eq, Structural)]
pub enum AutostartBackend {
    /// By a login item, which the user manages in the system's settings. It takes
    /// macOS 13 and an app that is signed.
    LoginItem,
    /// By a file among the launch agents.
    LaunchAgent,
}

/// What decides how macOS starts the switcher.
#[derive(Clone, Copy, Debug, PartialEq, Eq, Structural)]
pub struct MacEnvironment {
    /// The system has login items.
    pub supported: bool,
    /// The switcher runs from an app bundle.
    pub in_bundle: bool,
    /// The bundle is signed.
    pub signed: bool,
}

/// How macOS starts the switcher.
pub open spec fn backend_for(supported: bool, in_bundle: bool, signed: bool) -> AutostartBackend {
    if supported && in_bundle && signed {
        AutostartBackend::LoginItem
    } else {
        AutostartBackend::LaunchAgent
    }
}

/// How macOS starts the switcher in an environment.
pub open spec fn backend_in(mac: MacEnvironment) -> AutostartBackend {
    backend_for(mac.supported, mac.in_bundle, mac.signed)
}

/// How macOS starts the switcher: by a login item just where the system has them
/// and the switcher runs from a bundle that is signed.
pub fn autostart_backend_for(supported: bool, in_bundle: bool, signed: bool) -> (r:
    AutostartBackend)
    ensures
        r == backend_for(supported, in_bundle, signed),
{
    if supported && in_bundle && signed {
        AutostartBackend::LoginItem
    } else {
        AutostartBackend::LaunchAgent
    }
}

/// How macOS starts the switcher in the environment `mac`.
pub fn autostart_backend(mac: MacEnvironment) -> (r: AutostartBackend)
    ensures
        r == backend_in(mac),
{
    autostart_backend_for(mac.supported, mac.in_bundle, mac.signed)
}

/// How the switcher is started with the session.
#[derive(Clone, Copy, Debug, PartialEq, Eq, Structural)]
pub enum AutostartMethod {
    /// By a login item.
    LoginItem,
    /// By what the system's launcher offers: a launch agent, or a registry key.
    Launcher,
    /// By a desktop file in the home directory.
    DesktopFile,
}

/// How the switcher is started on a platform.
pub open spec fn method_on(platform: Platform, mac: MacEnvironment) -> AutostartMethod {
    match platform {
        Platform::Linux => AutostartMethod::DesktopFile,
        Platform::Windows => AutostartMethod::Launcher,
        Platform::MacOs => match backend_in(mac) {
            AutostartBackend::LoginItem => AutostartMethod::LoginItem,
            AutostartBackend::LaunchAgent => AutostartMethod::Launcher,
        },
    }
}

/// How the switcher is started on `platform`; `mac` matters on macOS alone.
pub fn autostart_method(platform: Platform, mac: MacEnvironment) -> (r: AutostartMethod)
    ensures
        r == method_on(platform, mac),
{
    match platform {
        Platform::Linux => AutostartMethod::DesktopFile,
        Platform::Windows => AutostartMethod::Launcher,
        Platform::MacOs => match autostart_backend(mac) {
            AutostartBackend::LoginItem => AutostartMethod::LoginItem,
            AutostartBackend::LaunchAgent => AutostartMethod::Launcher,
        },
    }
}

// ---------------------------------------------------------------------------
// What the user is told
// ---------------------------------------------------------------------------

/// Why registering a login item last failed, if it did.
#[derive(Debug, PartialEq, Eq)]
pub struct LoginItemNotice {
    pub error: Option<String>,
}

impl LoginItemNotice {
    /// It has not failed.
    pub fn new() -> (r: Self)
        ensures
            r.error is None,
    {
        LoginItemNotice { error: None }
    }
}

/// Why registering a login item last failed, if it did.
pub fn login_item_failure(notice: &LoginItemNotice) -> (r: Option<String>)
    ensures
        r == notice.error,
{
    match &notice.error {
        Some(error) => Some(error.clone()),
        None => None,
    }
}

/// Notes why registering a login item failed.
pub fn note_login_item_failure(notice: &mut LoginItemNotice, error: &str)
    ensures
        final(notice).error.deep_view() == Some(error@),
{
    notice.error = Some(error.to_owned());
}

/// Notes that registering a login item succeeded.
pub fn clear_login_item_failure(notice: &mut LoginItemNotice)
    ensures
        final(notice).error is None,
{
    notice.error = None;
}

/// Why a launch agent stands for a login item.
pub open spec fn agent_advice(supported: bool, in_bundle: bool) -> Seq<char> {
    if !supported {
        "当前系统版本低于 macOS 13，已改用兼容方式（~/Library/LaunchAgents）实现开机启动"@
    } else if !in_bundle {
        "当前未以 .app 形式运行，已改用兼容方式（~/Library/LaunchAgents）实现开机启动"@
    } else {
        "当前应用没有代码签名，系统登录项接口不可用，已改用兼容方式（~/Library/LaunchAgents）实现开机启动；使用签名版本后可在「系统设置 → 通用 → 登录项与扩展」中管理"@
    }
}

/// Why a launch agent stands for a login item.
pub fn launch_agent_hint(supported: bool, in_bundle: bool) -> (r: String)
    ensures
        r@ == agent_advice(supported, in_bundle),
{
    if !supported {
        "当前系统版本低于 macOS 13，已改用兼容方式（~/Library/LaunchAgents）实现开机启动".to_owned()
    } else if !in_bundle {
        "当前未以 .app 形式运行，已改用兼容方式（~/Library/LaunchAgents）实现开机启动".to_owned()
    } else {
        "当前应用没有代码签名，系统登录项接口不可用，已改用兼容方式（~/Library/LaunchAgents）实现开机启动；使用签名版本后可在「系统设置 → 通用 → 登录项与扩展」中管理".to_owned()
    }
}

/// What the user of macOS is told. What can be acted on comes first.
pub open spec fn mac_advice(
    state: AutostartState,
    backend: AutostartBackend,
    login_item_error: Option<Seq<char>>,
    compatibility_hint: Seq<char>,
) -> Option<Seq<char>> {
    if state == AutostartState::RequiresApproval {
        state.advice()
    } else if login_item_error is Some {
        Some(
            "系统登录项注册失败（"@ + login_item_error->0
                + "），已改用兼容方式（~/Library/LaunchAgents）实现开机启动"@,
        )
    } else if state.on() && backend == AutostartBackend::LaunchAgent {
        Some(compatibility_hint)
    } else {
        state.advice()
    }
}

/// What the user of macOS is told.
pub fn macos_autostart_hint(
    state: AutostartState,
    backend: AutostartBackend,
    login_item_error: Option<String>,
    compatibility_hint: String,
) -> (r: Option<String>)
    ensures
        r.deep_view() == mac_advice(
            state,
            backend,
            login_item_error.deep_view(),
            compatibility_hint@,
        ),
{
    if state == AutostartState::RequiresApproval {
        return owned_hint(state);
    }
    if let Some(error) = login_item_error {
        return Some(
            text::concat3(
                "系统登录项注册失败（",
                error.as_str(),
                "），已改用兼容方式（~/Library/LaunchAgents）实现开机启动",
            ),
        );
    }
    if state.is_on() && backend == AutostartBackend::LaunchAgent {
        return Some(compatibility_hint);
    }
    owned_hint(state)
}

/// What the user is told on a platform.
pub open spec fn advice_on(
    platform: Platform,
    state: AutostartState,
    mac: MacEnvironment,
    login_item_error: Option<Seq<char>>,
) -> Option<Seq<char>> {
    if platform == Platform::MacOs {
        mac_advice(
            state,
            backend_in(mac),
            login_item_error,
            agent_advice(mac.supported, mac.in_bundle),
        )
    } else {
        state.advice()
    }
}

/// What the user is told on `platform`; `mac` and `notice` matter on macOS alone.
pub fn autostart_hint(
    platform: Platform,
    state: AutostartState,
    mac: MacEnvironment,
    notice: &LoginItemNotice,
) -> (r: Option<String>)
    ensures
        r.deep_view() == advice_on(platform, state, mac, notice.error.deep_view()),
{
    if platform == Platform::MacOs {
        macos_autostart_hint(
            state,
            autostart_backend(mac),
            login_item_failure(notice),
            launch_agent_hint(mac.supported, mac.in_bundle),
        )
    } else {
        owned_hint(state)
    }
}

/// The reason for which registering a login item failed is told to the user,
/// unless there is something for them to approve.
pub proof fn law_login_item_failure_is_told(
    state: AutostartState,
    mac: MacEnvironment,
    error: Seq<char>,
)
    requires
        state != AutostartState::RequiresApproval,
    ensures
        advice_on(Platform::MacOs, state, mac, Some(error)) is Some,
        text::occurs_in(error, advice_on(Platform::MacOs, state, mac, Some(error))->0),
{
    let before = "系统登录项注册失败（"@;
    let after = "），已改用兼容方式（~/Library/LaunchAgents）实现开机启动"@;
    let told = before + error + after;
    assert(told.subrange(before.len() as int, (before.len() + error.len()) as int) =~= error);
    assert(text::occurs_at(error, told, before.len() as int));
}

/// Where the user has something to approve, that is what they are told, whatever
/// else could be said.
pub proof fn law_approval_is_asked_for(
    platform: Platform,
    mac: MacEnvironment,
    login_item_error: Option<Seq<char>>,
)
    ensures
        advice_on(platform, AutostartState::RequiresApproval, mac, login_item_error)
            == AutostartState::RequiresApproval.advice(),
        AutostartState::RequiresApproval.advice() is Some,
{
}

/// Where a login item stands and nothing went wrong, the user is told nothing
/// beyond what the state itself says.
pub proof fn law_login_item_needs_no_excuse(state: AutostartState, mac: MacEnvironment)
    requires
        backend_in(mac) == AutostartBackend::LoginItem,
    ensures
        advice_on(Platform::MacOs, state, mac, None) == state.advice(),
{
}

// ---------------------------------------------------------------------------
// The system's launcher
// ---------------------------------------------------------------------------

/// What is done, in words.
pub open spec fn deed(enabled: bool) -> Seq<char> {
    if enabled {
        "开启"@
    } else {
        "关闭"@
    }
}

/// What is done, in words.
pub fn deed_text(enabled: bool) -> (r: &'static str)
    ensures
        r@ == deed(enabled),
{
    if enabled {
        "开启"
    } else {
        "关闭"
    }
}

/// What the launcher says, which may fail to say.
pub open spec fn launcher_state(probe: Result<bool, Seq<char>>) -> AutostartState {
    match probe {
        Ok(true) => AutostartState::Enabled,
        Ok(false) => AutostartState::Disabled,
        Err(_) => AutostartState::Unavailable,
    }
}

/// The state from what the launcher says.
pub fn legacy_autostart_state(probe: Result<bool, String>) -> (r: AutostartState)
    ensures
        r == launcher_state(command::outcome(probe)),
{
    match probe {
        Ok(enabled) => if enabled {
            AutostartState::Enabled
        } else {
            AutostartState::Disabled
        },
        Err(_) => AutostartState::Unavailable,
    }
}

/// What comes of turning it on or off with the launcher.
pub open spec fn launcher_set(
    enabled: bool,
    result: Result<(), Seq<char>>,
    probe: Result<bool, Seq<char>>,
) -> Result<AutostartState, Seq<char>> {
    match result {
        Err(error) => Err("无法"@ + deed(enabled) + "开机启动: "@ + error),
        Ok(_) => Ok(launcher_state(probe)),
    }
}

/// What comes of turning it on or off with the launcher, which said `result`, and
/// then says `probe` of the state.
pub fn legacy_autostart_set(
    enabled: bool,
    result: Result<(), String>,
    probe: Result<bool, String>,
) -> (r: Result<AutostartState, String>)
    ensures
        command::outcome(r) == launcher_set(
            enabled,
            command::outcome(result),
            command::outcome(probe),
        ),
{
    match result {
        Err(error) => {
            let mut message: String = text::concat3("无法", deed_text(enabled), "开机启动: ");
            message.append(error.as_str());
            Err(message)
        },
        Ok(_) => Ok(legacy_autostart_state(probe)),
    }
}

/// What follows once a login item was to be set: the result, or nothing where the
/// launcher is to be used in its place.
pub fn macos_autostart_set(
    notice: &mut LoginItemNotice,
    result: Result<AutostartState, String>,
) -> (r: Option<AutostartState>)
    ensures
        match command::outcome(result) {
            Ok(state) => r == Some(state) && final(notice).error is None,
            Err(error) => r is None && final(notice).error.deep_view() == Some(error),
        },
{
    match result {
        Ok(state) => {
            clear_login_item_failure(notice);
            Some(state)
        },
        Err(error) => {
            note_login_item_failure(notice, error.as_str());
            None
        },
    }
}

// ---------------------------------------------------------------------------
// At startup
// ---------------------------------------------------------------------------

/// It is to be turned on again: it is wanted, and the system has lost it.
pub open spec fn to_be_restored(desired: bool, state: AutostartState) -> bool {
    desired && state == AutostartState::Disabled
}

/// Whether it is to be turned on again at startup.
pub fn startup_autostart_sync(desired: bool, state: AutostartState) -> (r: bool)
    ensures
        r == to_be_restored(desired, state),
{
    desired && state == AutostartState::Disabled
}

/// Whether launch agents of earlier versions are to be removed at startup: only
/// where a login item does their work.
pub fn cleanup_legacy_autostart(
    platform: Platform,
    backend: AutostartBackend,
    state: AutostartState,
) -> (r: bool)
    ensures
        r == (platform == Platform::MacOs && backend == AutostartBackend::LoginItem && state
            == AutostartState::Enabled),
{
    platform == Platform::MacOs && backend == AutostartBackend::LoginItem && state
        == AutostartState::Enabled
}

/// `s` with `to` in place of each of the characters `from`.
pub open spec fn with_char(s: Seq<char>, from: Set<char>, to: char) -> Seq<char> {
    s.map_values(
        |c: char|
            if from.contains(c) {
                to
            } else {
                c
            },
    )
}

/// `name` with a hyphen in place of each space and, if `slashes`, of each slash.
fn hyphenated(name: &str, slashes: bool) -> (r: String)
    ensures
        r@ == with_char(
            name@,
            if slashes {
                set![' ', '/']
            } else {
                set![' ']
            },
            '-',
        ),
{
    let chars: Vec<char> = text::to_chars(name);
    let ghost from: Set<char> = if slashes {
        set![' ', '/']
    } else {
        set![' ']
    };
    let mut out: String = String::new();
    let mut i: usize = 0;
    assert(out@ =~= with_char(chars@.take(0), from, '-'));
    while i < chars.len()
        invariant
            i <= chars@.len(),
            from == (if slashes {
                set![' ', '/']
            } else {
                set![' ']
            }),
            out@ == with_char(chars@.take(i as int), from, '-'),
        decreases chars@.len() - i,
    {
        let c: char = chars[i];
        if c == ' ' || (slashes && c == '/') {
            out.push('-');
        } else {
            out.push(c);
        }
        assert(out@ =~= with_char(chars@.take(i as int + 1), from, '-'));
        i = i + 1;
    }
    assert(chars@.take(i as int) =~= name@);
    out
}

/// The files of launch agents that earlier versions wrote.
pub open spec fn agent_files(name: Seq<char>, identifier: Seq<char>) -> Seq<Seq<char>> {
    seq![
        name + ".plist"@,
        with_char(name, set![' '], '-') + ".plist"@,
        identifier + ".plist"@,
    ]
}

/// The files of launch agents that earlier versions wrote for the app `name` with
/// the identifier `identifier`.
pub fn legacy_launch_agents(name: &str, identifier: &str) -> (r: Vec<String>)
    ensures
        r.deep_view() == agent_files(name@, identifier@),
{
    let mut out: Vec<String> = Vec::new();
    out.push(text::concat(name, ".plist"));
    out.push(text::concat(hyphenated(name, false).as_str(), ".plist"));
    out.push(text::concat(identifier, ".plist"));
    assert(out.deep_view() =~= agent_files(name@, identifier@));
    out
}

/// Whether a launch agent with these contents is one of the switcher's own, and
/// is to be removed.
pub fn remove_legacy_launch_agents(contents: &str, name: &str) -> (r: bool)
    ensures
        r == (text::occurs_in("refind-switcher"@, contents@) || text::occurs_in(name@, contents@)),
{
    text::contains(contents, "refind-switcher") || text::contains(contents, name)
}

/// The command that unloads a launch agent.
pub open spec fn unload_line(path: Seq<char>) -> command::CommandView {
    command::with_arg(
        command::with_arg(command::with_arg(command::bare("launchctl"@), "unload"@), "--"@),
        path,
    )
}

/// The command that unloads the launch agent at `path`.
pub fn unload_command(path: &str) -> (r: CommandLine)
    ensures
        r.deep_view() == unload_line(path@),
{
    let args: Vec<String> = Vec::new();
    assert(args.deep_view() =~= Seq::empty());
    let mut line: CommandLine = CommandLine { program: "launchctl".to_owned(), args };
    line.arg("unload");
    line.arg("--");
    line.arg(path);
    line
}

// ---------------------------------------------------------------------------
// Names of desktop files
// ---------------------------------------------------------------------------

/// The name of the desktop file of an app.
pub open spec fn desktop_name(name: Seq<char>) -> Seq<char> {
    with_char(name, set![' ', '/'], '-') + ".desktop"@
}

/// The name of the desktop file of the app `name`.
pub fn desktop_file_name(name: &str) -> (r: String)
    ensures
        r@ == desktop_name(name@),
{
    text::concat(hyphenated(name, true).as_str(), ".desktop")
}

/// The name of a desktop file holds no slash: it names a file in its directory.
pub proof fn law_desktop_name_has_no_slash(name: Seq<char>)
    ensures
        !desktop_name(name).contains('/'),
{
    reveal_strlit(".desktop");
    let all = desktop_name(name);
    assert forall|i: int| 0 <= i < all.len() implies all[i] != '/' by {
        if i < name.len() {
            assert(all[i] == with_char(name, set![' ', '/'], '-')[i]);
        } else {
            assert(all[i] == ".desktop"@[i - name.len()]);
        }
    }
}

// ---------------------------------------------------------------------------
// Further laws
// ---------------------------------------------------------------------------

/// Each state has its name; it is on where it is enabled or awaits approval; and something
/// is told of it just where the user can act.
pub proof fn law_states_speak_for_themselves(state: AutostartState)
    ensures
        AutostartState::Enabled.name() == "enabled"@,
        AutostartState::RequiresApproval.name() == "requires-approval"@,
        AutostartState::Disabled.name() == "disabled"@,
        AutostartState::Unavailable.name() == "unavailable"@,
        state.on() <==> state == AutostartState::Enabled || state
            == AutostartState::RequiresApproval,
        state.advice() is Some <==> state == AutostartState::RequiresApproval || state
            == AutostartState::Unavailable,
        AutostartState::RequiresApproval.advice() == Some(
            "已注册登录项，请在「系统设置 → 通用 → 登录项与扩展」中允许本应用"@,
        ),
        AutostartState::Unavailable.advice() == Some(
            "无法通过系统登录项接口管理开机启动（需以 .app 形式运行），可在「系统设置 → 通用 → 登录项与扩展」中手动添加"@,
        ),
{
}

/// A login item is used just where the system has them, the switcher runs from a bundle and
/// that is signed; on Linux a desktop file is used, and anywhere else the launcher.
pub proof fn law_method_follows_the_environment(
    platform: Platform,
    mac: MacEnvironment,
    supported: bool,
    in_bundle: bool,
    signed: bool,
)
    ensures
        backend_for(supported, in_bundle, signed) == AutostartBackend::LoginItem <==> supported
            && in_bundle && signed,
        backend_in(mac) == AutostartBackend::LoginItem <==> mac.supported && mac.in_bundle
            && mac.signed,
        method_on(platform, mac) == AutostartMethod::DesktopFile <==> platform == Platform::Linux,
        method_on(platform, mac) == AutostartMethod::LoginItem <==> platform == Platform::MacOs
            && mac.supported && mac.in_bundle && mac.signed,
{
}

/// Where a launch agent does the work of a login item and is on, the user is told why: the
/// system is too old, or the switcher runs from no bundle, or that is not signed, in this
/// order. Where it is off, nothing is said of that.
pub proof fn law_launch_agent_is_explained(state: AutostartState, mac: MacEnvironment)
    requires
        backend_in(mac) == AutostartBackend::LaunchAgent,
    ensures
        state == AutostartState::Enabled ==> advice_on(Platform::MacOs, state, mac, None) == Some(
            if !mac.supported {
                "当前系统版本低于 macOS 13，已改用兼容方式（~/Library/LaunchAgents）实现开机启动"@
            } else if !mac.in_bundle {
                "当前未以 .app 形式运行，已改用兼容方式（~/Library/LaunchAgents）实现开机启动"@
            } else {
                "当前应用没有代码签名，系统登录项接口不可用，已改用兼容方式（~/Library/LaunchAgents）实现开机启动；使用签名版本后可在「系统设置 → 通用 → 登录项与扩展」中管理"@
            },
        ),
        !state.on() ==> advice_on(Platform::MacOs, state, mac, None) == state.advice(),
{
}

/// What is told of a failed login item names the reason between fixed words; away from
/// macOS, only the state is spoken of.
pub proof fn law_failure_is_told_in_these_words(
    platform: Platform,
    state: AutostartState,
    mac: MacEnvironment,
    backend: AutostartBackend,
    error: Option<Seq<char>>,
    reason: Seq<char>,
    hint: Seq<char>,
)
    ensures
        state != AutostartState::RequiresApproval ==> mac_advice(state, backend, Some(reason), hint)
            == Some(
            "系统登录项注册失败（"@ + reason
                + "），已改用兼容方式（~/Library/LaunchAgents）实现开机启动"@,
        ),
        state == AutostartState::Enabled && backend == AutostartBackend::LaunchAgent ==> mac_advice(
            state,
            backend,
            None,
            hint,
        ) == Some(hint),
        backend == AutostartBackend::LoginItem ==> mac_advice(state, backend, None, hint)
            == state.advice(),
        platform != Platform::MacOs ==> advice_on(platform, state, mac, error) == state.advice(),
{
}

/// The name of a bundle is something, a dot, and the three letters in whatever case.
pub proof fn law_bundle_names_end_with_their_extension(
    stem: Seq<char>,
    a: char,
    b: char,
    c: char,
    name: Seq<char>,
)
    ensures
        bundle_name(stem + seq!['.', a, b, c]) <==> stem.len() > 0 && (a == 'a' || a == 'A') && (b
            == 'p' || b == 'P') && (c == 'p' || c == 'P'),
        bundle_name(name) ==> name[name.len() - 4] == '.',
{
}

/// An executable lies in a bundle just where the directory three above it has the name of
/// one, whatever the names between; the bundle is that directory.
pub proof fn law_bundle_is_three_above(
    bundle: Seq<char>,
    contents: Seq<char>,
    macos: Seq<char>,
    program: Seq<char>,
)
    requires
        contents.len() > 0 && !contents.contains('/') && unix_path::is_name(contents),
        macos.len() > 0 && !macos.contains('/') && unix_path::is_name(macos),
        program.len() > 0 && !program.contains('/') && unix_path::is_name(program),
    ensures
        ({
            let executable = unix_path::below(
                unix_path::below(unix_path::below(bundle, contents), macos),
                program,
            );
            let all = unix_path::components(bundle);
            bundle_of(executable) == if all.len() > 0 && bundle_name(all.last()) {
                Some(unix_path::path_of(all))
            } else {
                None
            }
        }),
{
    let one = unix_path::below(bundle, contents);
    let two = unix_path::below(one, macos);
    let three = unix_path::below(two, program);
    unix_path::law_joined_name_lies_below(bundle, contents);
    unix_path::law_joined_name_lies_below(one, macos);
    unix_path::law_joined_name_lies_below(two, program);
    let all = unix_path::components(bundle);
    let more = unix_path::components(three);
    assert(more =~= all.push(contents).push(macos).push(program));
    assert(more.take(more.len() - 3) =~= all);
}

/// The launcher's answer is the state, and where it gives none, there is none to be had.
/// Turning it on or off has the launcher's state as its result, or its error.
pub proof fn law_launcher_is_believed(
    enabled: bool,
    probe: Result<bool, Seq<char>>,
    error: Seq<char>,
)
    ensures
        launcher_state(Ok(true)) == AutostartState::Enabled,
        launcher_state(Ok(false)) == AutostartState::Disabled,
        launcher_state(Err(error)) == AutostartState::Unavailable,
        launcher_set(enabled, Ok(()), probe) == Ok::<AutostartState, Seq<char>>(
            launcher_state(probe),
        ),
        launcher_set(true, Err(error), probe) == Err::<AutostartState, Seq<char>>(
            "无法"@ + "开启"@ + "开机启动: "@ + error,
        ),
        launcher_set(false, Err(error), probe) == Err::<AutostartState, Seq<char>>(
            "无法"@ + "关闭"@ + "开机启动: "@ + error,
        ),
{
}

/// It is turned on again just where it is wanted and the system says that it is off.
pub proof fn law_only_what_was_lost_is_restored(desired: bool, state: AutostartState)
    ensures
        to_be_restored(desired, state) <==> desired && state == AutostartState::Disabled,
{
}

/// Replacing characters changes just those, each for one.
pub proof fn law_replacing_changes_the_named_characters(s: Seq<char>, from: Set<char>, to: char)
    ensures
        with_char(s, from, to).len() == s.len(),
        forall|i: int|
            0 <= i < s.len() ==> #[trigger] with_char(s, from, to)[i] == if from.contains(s[i]) {
                to
            } else {
                s[i]
            },
{
}

/// The desktop file is named after the app, with hyphens for spaces and slashes; earlier
/// launch agents after the app, the app with hyphens for spaces, or its identifier.
pub proof fn law_files_are_named_after_the_app(name: Seq<char>, identifier: Seq<char>)
    ensures
        desktop_name(name) == with_char(name, set![' ', '/'], '-') + ".desktop"@,
        agent_files(name, identifier).len() == 3,
        agent_files(name, identifier)[0] == name + ".plist"@,
        agent_files(name, identifier)[1] == with_char(name, set![' '], '-') + ".plist"@,
        agent_files(name, identifier)[2] == identifier + ".plist"@,
{
}

/// The commands hand over the bundle, or the file, as their last argument.
pub proof fn law_commands_name_what_they_are_for(path: Seq<char>)
    ensures
        signature_line(path).program == "/usr/bin/codesign"@,
        signature_line(path).args == seq!["--verify"@, path],
        unload_line(path).program == "launchctl"@,
        unload_line(path).args == seq!["unload"@, "--"@, path],
{
    assert(signature_line(path).args =~= seq!["--verify"@, path]);
    assert(unload_line(path).args =~= seq!["unload"@, "--"@, path]);
}

} // verus!
