//! The settings of the switcher: their values, how they change, and how they are
//! kept.
use vstd::prelude::*;
use vstd::string::*;

use crate::autostart;
use crate::autostart::{AutostartState, LoginItemNotice, MacEnvironment};
use crate::command;
use crate::command::Platform;
use crate::switch;
use crate::switch::CopyStage;
use crate::text;

verus! {

// ---------------------------------------------------------------------------
// Values
// ---------------------------------------------------------------------------

/// What closing the main window does.
#[derive(Clone, Copy, Debug, PartialEq, Eq, Structural)]
pub enum CloseAction {
    /// The switcher stays in the tray.
    Tray,
    /// The switcher ends.
    Quit,
}

impl CloseAction {
    /// The name of this action.
    pub open spec fn name(self) -> Seq<char> {
        match self {
            CloseAction::Tray => "tray"@,
            CloseAction::Quit => "quit"@,
        }
    }

    /// The action with a name.
    pub open spec fn named(name: Seq<char>) -> Option<CloseAction> {
        if name == "tray"@ {
            Some(CloseAction::Tray)
        } else if name == "quit"@ {
            Some(CloseAction::Quit)
        } else {
            None
        }
    }

    /// The name of this action.
    pub fn as_str(self) -> (r: &'static str)
        ensures
            r@ == self.name(),
    {
        match self {
            CloseAction::Tray => "tray",
            CloseAction::Quit => "quit",
        }
    }

    /// The action with the name `value`.
    pub fn parse(value: &str) -> (r: Option<CloseAction>)
        ensures
            r == CloseAction::named(value@),
    {
        if text::same_text(value, "tray") {
            Some(CloseAction::Tray)
        } else if text::same_text(value, "quit") {
            Some(CloseAction::Quit)
        } else {
            None
        }
    }
}

/// The name of an action is read as that action, and no other text is.
pub proof fn law_close_action_is_read_back(action: CloseAction, name: Seq<char>)
    ensures
        CloseAction::named(name) == Some(action) <==> name == action.name(),
{
    reveal_strlit("tray");
    reveal_strlit("quit");
    assert("tray"@[0] != "quit"@[0]);
}

/// The settings.
#[derive(Clone, Copy, Debug, PartialEq, Eq, Structural)]
pub struct Settings {
    /// Start with the session.
    pub autostart: bool,
    /// Start without showing the main window.
    pub start_in_tray: bool,
    /// Stay out of the taskbar and the dock.
    pub hide_from_dock_taskbar: bool,
    /// What closing the main window does.
    pub close_action: CloseAction,
}

/// The settings of someone who has chosen nothing.
pub open spec fn initial_settings() -> Settings {
    Settings {
        autostart: false,
        start_in_tray: false,
        hide_from_dock_taskbar: true,
        close_action: CloseAction::Tray,
    }
}

impl Default for Settings {
    fn default() -> (r: Self)
        ensures
            r == initial_settings(),
    {
        Settings {
            autostart: false,
            start_in_tray: false,
            hide_from_dock_taskbar: true,
            close_action: CloseAction::Tray,
        }
    }
}

// ---------------------------------------------------------------------------
// What is shown
// ---------------------------------------------------------------------------

/// The settings as the main window shows them.
#[derive(Debug, PartialEq, Eq)]
pub struct SettingsView {
    pub settings: Settings,
    pub autostart_state: &'static str,
    pub autostart_hint: Option<String>,
}

/// What a `SettingsView` says.
pub struct ShownSettings {
    pub settings: Settings,
    pub autostart_state: Seq<char>,
    pub autostart_hint: Option<Seq<char>>,
}

impl DeepView for SettingsView {
    type V = ShownSettings;

    open spec fn deep_view(&self) -> ShownSettings {
        ShownSettings {
            settings: self.settings,
            autostart_state: self.autostart_state@,
            autostart_hint: self.autostart_hint.deep_view(),
        }
    }
}

/// The settings as the main window shows them.
pub open spec fn shown_settings(
    settings: Settings,
    state: AutostartState,
    platform: Platform,
    mac: MacEnvironment,
    login_item_error: Option<Seq<char>>,
) -> ShownSettings {
    ShownSettings {
        settings,
        autostart_state: state.name(),
        autostart_hint: autostart::advice_on(platform, state, mac, login_item_error),
    }
}

impl SettingsView {
    /// The settings as the main window shows them on `platform`; `mac` and
    /// `notice` matter on macOS alone.
    pub fn new(
        settings: Settings,
        state: AutostartState,
        platform: Platform,
        mac: MacEnvironment,
        notice: &LoginItemNotice,
    ) -> (r: Self)
        ensures
            r.deep_view() == shown_settings(
                settings,
                state,
                platform,
                mac,
                notice.error.deep_view(),
            ),
    {
        SettingsView {
            settings,
            autostart_state: state.as_str(),
            autostart_hint: autostart::autostart_hint(platform, state, mac, notice),
        }
    }
}

/// The settings with what the system says of starting with the session.
pub open spec fn with_state(settings: Settings, state: AutostartState) -> Settings {
    Settings { autostart: state.on(), ..settings }
}

/// The settings to be shown, given the state of starting with the session, and
/// whether they differ from those that are kept and must be saved.
pub fn view_settings(stored: Settings, state: AutostartState) -> (r: (Settings, bool))
    ensures
        r.0 == with_state(stored, state),
        r.1 == (r.0 != stored),
{
    let on: bool = state.is_on();
    let mut settings: Settings = stored;
    settings.autostart = on;
    (settings, stored.autostart != on)
}

/// What is shown of starting with the session is what the system says, whatever
/// was kept; nothing else is changed; and what is shown needs no second change.
pub proof fn law_shown_autostart_is_the_systems(stored: Settings, state: AutostartState)
    ensures
        with_state(stored, state).autostart == state.on(),
        with_state(stored, state).start_in_tray == stored.start_in_tray,
        with_state(stored, state).hide_from_dock_taskbar == stored.hide_from_dock_taskbar,
        with_state(stored, state).close_action == stored.close_action,
        with_state(with_state(stored, state), state) == with_state(stored, state),
{
}

// ---------------------------------------------------------------------------
// Changes
// ---------------------------------------------------------------------------

/// Whether it is to be turned on, where the tray's menu asks for the other of
/// what is kept.
pub fn toggle_autostart_setting(stored: Settings) -> (r: bool)
    ensures
        r == !stored.autostart,
{
    !stored.autostart
}

/// The settings once starting with the session has come to `state`.
pub fn set_autostart(stored: Settings, state: AutostartState) -> (r: Settings)
    ensures
        r == with_state(stored, state),
{
    view_settings(stored, state).0
}

/// The settings with another value for showing the main window at the start.
pub fn set_start_in_tray(stored: Settings, enabled: bool) -> (r: Settings)
    ensures
        r == (Settings { start_in_tray: enabled, ..stored }),
{
    let mut settings: Settings = stored;
    settings.start_in_tray = enabled;
    settings
}

/// The settings with another value for staying out of the taskbar and the dock.
pub fn set_hide_from_dock_taskbar(stored: Settings, enabled: bool) -> (r: Settings)
    ensures
        r == (Settings { hide_from_dock_taskbar: enabled, ..stored }),
{
    let mut settings: Settings = stored;
    settings.hide_from_dock_taskbar = enabled;
    settings
}

/// The settings with another action for closing the main window, if `action`
/// names one, with white space around it or without.
pub open spec fn with_close_action(stored: Settings, action: Seq<char>) -> Option<Settings> {
    match CloseAction::named(text::trimmed(action)) {
        Some(close_action) => Some(Settings { close_action, ..stored }),
        None => None,
    }
}

/// The settings with the action that `action` names, if it names one.
pub fn update_close_action_setting(stored: Settings, action: &str) -> (r: Option<Settings>)
    ensures
        r == with_close_action(stored, action@),
{
    match CloseAction::parse(text::trim(action).as_str()) {
        Some(close_action) => {
            let mut settings: Settings = stored;
            settings.close_action = close_action;
            Some(settings)
        },
        None => None,
    }
}

/// The settings with the action that `action` names, or what is wrong with it.
pub fn set_close_action(stored: Settings, action: &str) -> (r: Result<Settings, String>)
    ensures
        command::outcome(r) == match with_close_action(stored, action@) {
            Some(settings) => Ok(settings),
            None => Err("未知的关闭行为: "@ + action@),
        },
{
    match update_close_action_setting(stored, action) {
        Some(settings) => Ok(settings),
        None => Err(text::concat("未知的关闭行为: ", action)),
    }
}

/// What the tray's menu changes.
#[derive(Clone, Copy, Debug, PartialEq, Eq, Structural)]
pub struct TrayChange {
    /// The settings to be saved.
    pub settings: Settings,
    /// Whether the taskbar and the dock are to be updated.
    pub visibility: bool,
}

/// What an entry of the tray's menu changes, if it is one of those that do.
pub open spec fn tray_change(
    stored: Settings,
    action: Seq<char>,
    enabled: bool,
) -> Option<TrayChange> {
    if action == "setting-start-in-tray"@ {
        Some(
            TrayChange {
                settings: Settings { start_in_tray: enabled, ..stored },
                visibility: false,
            },
        )
    } else if action == "setting-hide-from-dock-taskbar"@ {
        Some(
            TrayChange {
                settings: Settings { hide_from_dock_taskbar: enabled, ..stored },
                visibility: true,
            },
        )
    } else {
        None
    }
}

/// What the entry `action` of the tray's menu changes.
pub fn update_tray_setting(stored: Settings, action: &str, enabled: bool) -> (r: Option<TrayChange>)
    ensures
        r == tray_change(stored, action@, enabled),
{
    if text::same_text(action, "setting-start-in-tray") {
        Some(TrayChange { settings: set_start_in_tray(stored, enabled), visibility: false })
    } else if text::same_text(action, "setting-hide-from-dock-taskbar") {
        Some(
            TrayChange {
                settings: set_hide_from_dock_taskbar(stored, enabled),
                visibility: true,
            },
        )
    } else {
        None
    }
}

/// What the check entry of the tray's menu with an identifier changes, once it is
/// chosen: it gives its setting the other value.
pub open spec fn tray_toggle(stored: Settings, action: Seq<char>) -> Option<TrayChange> {
    if action == "setting-start-in-tray"@ {
        tray_change(stored, action, !stored.start_in_tray)
    } else if action == "setting-hide-from-dock-taskbar"@ {
        tray_change(stored, action, !stored.hide_from_dock_taskbar)
    } else {
        None
    }
}

/// What the check entry `action` of the tray's menu changes, once it is chosen.
pub fn toggle_tray_setting(stored: Settings, action: &str) -> (r: Option<TrayChange>)
    ensures
        r == tray_toggle(stored, action@),
        action@ == "setting-start-in-tray"@ ==> r == tray_change(
            stored,
            action@,
            !stored.start_in_tray,
        ),
        action@ == "setting-hide-from-dock-taskbar"@ ==> r == tray_change(
            stored,
            action@,
            !stored.hide_from_dock_taskbar,
        ),
        action@ != "setting-start-in-tray"@ && action@ != "setting-hide-from-dock-taskbar"@
            ==> r is None,
{
    proof {
        lemma_tray_settings_differ();
    }
    if text::same_text(action, "setting-start-in-tray") {
        update_tray_setting(stored, action, !stored.start_in_tray)
    } else if text::same_text(action, "setting-hide-from-dock-taskbar") {
        update_tray_setting(stored, action, !stored.hide_from_dock_taskbar)
    } else {
        None
    }
}

/// The two entries have different identifiers.
proof fn lemma_tray_settings_differ()
    ensures
        "setting-start-in-tray"@ != "setting-hide-from-dock-taskbar"@,
{
    reveal_strlit("setting-start-in-tray");
    reveal_strlit("setting-hide-from-dock-taskbar");
    assert("setting-start-in-tray"@.len() != "setting-hide-from-dock-taskbar"@.len());
}

/// Choosing a check entry flips its setting and keeps the others; choosing it
/// again brings the first settings back.
pub proof fn law_tray_toggle_flips_one_setting(stored: Settings, action: Seq<char>)
    ensures
        action == "setting-start-in-tray"@ ==> tray_toggle(stored, action) == Some(
            TrayChange {
                settings: Settings { start_in_tray: !stored.start_in_tray, ..stored },
                visibility: false,
            },
        ),
        action == "setting-hide-from-dock-taskbar"@ ==> tray_toggle(stored, action) == Some(
            TrayChange {
                settings: Settings {
                    hide_from_dock_taskbar: !stored.hide_from_dock_taskbar,
                    ..stored
                },
                visibility: true,
            },
        ),
        tray_toggle(stored, action) matches Some(change) ==> (tray_toggle(
            change.settings,
            action,
        ) matches Some(back) && back.settings == stored),
{
    lemma_tray_settings_differ();
}

/// What is to be done next in a change that the tray's menu makes.
#[derive(Debug, PartialEq, Eq)]
pub enum ChangeStage {
    /// Hide the switcher from the taskbar and the dock, or show it there, then
    /// save the settings.
    Apply(TrayChange),
    /// Save the settings; applying them has ended so.
    Save { settings: Settings, applied: Result<(), String> },
    /// Rebuild the menu and tell the main window; the change has ended so.
    Publish(Result<(), String>),
    /// Nothing more: all has ended so.
    Finished(Result<(), String>),
}

/// What a `ChangeStage` says.
pub enum ChangeView {
    Apply(TrayChange),
    Save { settings: Settings, applied: Result<(), Seq<char>> },
    Publish(Result<(), Seq<char>>),
    Finished(Result<(), Seq<char>>),
}

impl DeepView for ChangeStage {
    type V = ChangeView;

    open spec fn deep_view(&self) -> ChangeView {
        match *self {
            ChangeStage::Apply(change) => ChangeView::Apply(change),
            ChangeStage::Save { settings, applied } => ChangeView::Save {
                settings,
                applied: command::outcome(applied),
            },
            ChangeStage::Publish(result) => ChangeView::Publish(command::outcome(result)),
            ChangeStage::Finished(result) => ChangeView::Finished(command::outcome(result)),
        }
    }
}

/// The first stage of a change.
pub open spec fn first_change_stage(change: TrayChange) -> ChangeView {
    if change.visibility {
        ChangeView::Apply(change)
    } else {
        ChangeView::Save { settings: change.settings, applied: Ok(()) }
    }
}

/// The first stage of a change that the tray's menu makes.
pub fn begin_tray_change(change: TrayChange) -> (r: ChangeStage)
    ensures
        r.deep_view() == first_change_stage(change),
{
    if change.visibility {
        ChangeStage::Apply(change)
    } else {
        ChangeStage::Save { settings: change.settings, applied: Ok(()) }
    }
}

/// What follows a stage of a change, once it has ended with `reply`. An error in
/// saving comes before one in applying, and either way the main window is told.
pub open spec fn next_change_stage(stage: ChangeView, reply: Result<(), Seq<char>>) -> ChangeView {
    match stage {
        ChangeView::Apply(change) => ChangeView::Save {
            settings: change.settings,
            applied: reply,
        },
        ChangeView::Save { settings, applied } => match reply {
            Ok(_) => ChangeView::Publish(applied),
            Err(error) => ChangeView::Publish(Err(error)),
        },
        ChangeView::Publish(result) => ChangeView::Finished(result),
        ChangeView::Finished(result) => ChangeView::Finished(result),
    }
}

/// What follows `stage` of a change that the tray's menu makes, once it has ended
/// with `reply`.
pub fn run_tray_change(stage: ChangeStage, reply: Result<(), String>) -> (r: ChangeStage)
    ensures
        r.deep_view() == next_change_stage(stage.deep_view(), command::outcome(reply)),
{
    match stage {
        ChangeStage::Apply(change) => ChangeStage::Save {
            settings: change.settings,
            applied: reply,
        },
        ChangeStage::Save { settings, applied } => match reply {
            Ok(_) => ChangeStage::Publish(applied),
            Err(error) => ChangeStage::Publish(Err(error)),
        },
        ChangeStage::Publish(result) => ChangeStage::Finished(result),
        ChangeStage::Finished(result) => ChangeStage::Finished(result),
    }
}

/// The stages through which a change goes from `stage` on, given the replies to
/// them.
pub open spec fn change_stages(stage: ChangeView, replies: Seq<Result<(), Seq<char>>>) -> Seq<
    ChangeView,
>
    decreases replies.len(),
{
    if stage is Finished || replies.len() == 0 {
        seq![stage]
    } else {
        seq![stage] + change_stages(next_change_stage(stage, replies[0]), replies.skip(1))
    }
}

/// Choosing a check entry of the tray's menu ends, whatever the replies, with the
/// changed settings having been handed over to be saved and with the main window
/// having been told after that; it ends well just where nothing failed.
pub proof fn law_tray_change_is_saved_and_told(
    stored: Settings,
    action: Seq<char>,
    applied: Result<(), Seq<char>>,
    saved: Result<(), Seq<char>>,
    told: Result<(), Seq<char>>,
)
    requires
        tray_toggle(stored, action) is Some,
    ensures
        ({
            let change = tray_toggle(stored, action)->0;
            let result = |applied: Result<(), Seq<char>>|
                match saved {
                    Ok(_) => applied,
                    Err(error) => Err(error),
                };
            if change.visibility {
                change_stages(first_change_stage(change), seq![applied, saved, told]) == seq![
                    ChangeView::Apply(change),
                    ChangeView::Save { settings: change.settings, applied },
                    ChangeView::Publish(result(applied)),
                    ChangeView::Finished(result(applied)),
                ]
            } else {
                change_stages(first_change_stage(change), seq![saved, told]) == seq![
                    ChangeView::Save { settings: change.settings, applied: Ok(()) },
                    ChangeView::Publish(result(Ok(()))),
                    ChangeView::Finished(result(Ok(()))),
                ]
            }
        }),
{
    reveal_with_fuel(change_stages, 4);
    let change = tray_toggle(stored, action)->0;
    let result = |applied: Result<(), Seq<char>>|
        match saved {
            Ok(_) => applied,
            Err(error) => Err(error),
        };
    if change.visibility {
        assert(change_stages(first_change_stage(change), seq![applied, saved, told]) =~= seq![
            ChangeView::Apply(change),
            ChangeView::Save { settings: change.settings, applied },
            ChangeView::Publish(result(applied)),
            ChangeView::Finished(result(applied)),
        ]);
    } else {
        assert(change_stages(first_change_stage(change), seq![saved, told]) =~= seq![
            ChangeView::Save { settings: change.settings, applied: Ok(()) },
            ChangeView::Publish(result(Ok(()))),
            ChangeView::Finished(result(Ok(()))),
        ]);
    }
}

// ---------------------------------------------------------------------------
// Keeping
// ---------------------------------------------------------------------------

/// The name of the file in which the settings are kept.
pub const SETTINGS_FILE: &'static str = "settings.json";

/// Why the settings were not saved.
#[derive(Debug, PartialEq, Eq)]
pub enum SettingsError {
    /// The directory could not be told.
    NoDirectory(String),
    /// The path of the file lies in no directory.
    InvalidPath,
    /// The directory could not be made.
    CreateDirectory(String),
    /// The settings could not be put in words.
    Serialize(String),
    /// The file could not be written.
    Write(String),
}

/// What a `SettingsError` says.
pub enum SettingsErrorView {
    NoDirectory(Seq<char>),
    InvalidPath,
    CreateDirectory(Seq<char>),
    Serialize(Seq<char>),
    Write(Seq<char>),
}

impl DeepView for SettingsError {
    type V = SettingsErrorView;

    open spec fn deep_view(&self) -> SettingsErrorView {
        match *self {
            SettingsError::NoDirectory(error) => SettingsErrorView::NoDirectory(error@),
            SettingsError::InvalidPath => SettingsErrorView::InvalidPath,
            SettingsError::CreateDirectory(error) => SettingsErrorView::CreateDirectory(error@),
            SettingsError::Serialize(error) => SettingsErrorView::Serialize(error@),
            SettingsError::Write(error) => SettingsErrorView::Write(error@),
        }
    }
}

/// What is said of an error.
pub open spec fn error_text(error: SettingsErrorView) -> Seq<char> {
    match error {
        SettingsErrorView::NoDirectory(error) => "无法定位应用配置目录: "@ + error,
        SettingsErrorView::InvalidPath => "设置文件路径无效"@,
        SettingsErrorView::CreateDirectory(error) => "无法创建配置目录: "@ + error,
        SettingsErrorView::Serialize(error) => "无法序列化设置: "@ + error,
        SettingsErrorView::Write(error) => "无法保存设置: "@ + error,
    }
}

impl SettingsError {
    /// What is said of this error.
    pub fn message(&self) -> (r: String)
        ensures
            r@ == error_text(self.deep_view()),
    {
        match self {
            SettingsError::NoDirectory(error) => text::concat(
                "无法定位应用配置目录: ",
                error.as_str(),
            ),
            SettingsError::InvalidPath => "设置文件路径无效".to_owned(),
            SettingsError::CreateDirectory(error) => text::concat(
                "无法创建配置目录: ",
                error.as_str(),
            ),
            SettingsError::Serialize(error) => text::concat("无法序列化设置: ", error.as_str()),
            SettingsError::Write(error) => text::concat("无法保存设置: ", error.as_str()),
        }
    }
}

/// What a result with a `SettingsError` says.
pub open spec fn saved(result: Result<(), SettingsError>) -> Result<(), SettingsErrorView> {
    match result {
        Ok(_) => Ok(()),
        Err(error) => Err(error.deep_view()),
    }
}

/// What is to be done next in writing the settings: the file is filled under
/// another name, takes the place of the one that is there, and is removed where
/// one of the two fails.
pub fn write_settings_file(stage: CopyStage, reply: Result<(), String>) -> (r: CopyStage)
    ensures
        r.deep_view() == switch::next_copy_stage(false, stage.deep_view(), command::outcome(reply)),
{
    switch::atomic_copy(false, stage, reply)
}

/// The result of writing the settings, once it has ended so.
pub fn written_settings(result: Result<(), String>) -> (r: Result<(), SettingsError>)
    ensures
        saved(r) == written_result(command::outcome(result)),
{
    match result {
        Ok(_) => Ok(()),
        Err(error) => Err(SettingsError::Write(error)),
    }
}

/// The settings at the start: those that were read, if they could be.
pub open spec fn at_start(read: Option<Settings>) -> Settings {
    match read {
        Some(settings) => settings,
        None => initial_settings(),
    }
}

/// The settings at the start: those that were read, if they could be.
pub fn read_settings_file(read: Option<Settings>) -> (r: Settings)
    ensures
        r == at_start(read),
{
    match read {
        Some(settings) => settings,
        None => Settings::default(),
    }
}

/// The settings that are kept once others were to be saved.
pub open spec fn stored_after(
    stored: Settings,
    settings: Settings,
    written: Result<(), SettingsErrorView>,
) -> Settings {
    match written {
        Ok(_) => settings,
        Err(_) => stored,
    }
}

/// What comes of saving settings.
pub open spec fn save_result(
    settings: Settings,
    written: Result<(), SettingsErrorView>,
) -> Result<Settings, Seq<char>> {
    match written {
        Ok(_) => Ok(settings),
        Err(error) => Err(error_text(error)),
    }
}

/// Keeps `settings`, if they were written, and gives them back; else gives what is
/// said of the error, and what was kept stays.
pub fn save_settings(
    stored: &mut Settings,
    settings: Settings,
    written: Result<(), SettingsError>,
) -> (r: Result<Settings, String>)
    ensures
        *final(stored) == stored_after(*old(stored), settings, saved(written)),
        command::outcome(r) == save_result(settings, saved(written)),
{
    match written {
        Ok(_) => {
            *stored = settings;
            Ok(settings)
        },
        Err(error) => Err(error.message()),
    }
}

/// The result of writing the settings, from that of replacing the file.
pub open spec fn written_result(result: Result<(), Seq<char>>) -> Result<(), SettingsErrorView> {
    match result {
        Ok(_) => Ok(()),
        Err(error) => Err(SettingsErrorView::Write(error)),
    }
}

/// Where saving settings has ended, what is kept and what the next start reads
/// agree with its result: after success both are the settings that were saved,
/// after an error both are as they were. `reads` is how the contents of the file are
/// read; `new` is what was to be written, and is read as the settings.
pub proof fn law_saved_settings_are_read_back(
    reads: spec_fn(Seq<u8>) -> Option<Settings>,
    stored: Settings,
    settings: Settings,
    old: Seq<u8>,
    new: Seq<u8>,
    replies: Seq<Result<(), Seq<char>>>,
    result: Result<(), Seq<char>>,
)
    requires
        reads(new) == Some(settings),
        switch::copy_stages(false, switch::CopyView::Fill, replies).last()
            == switch::CopyView::Finished(result),
    ensures
        ({
            let written = written_result(result);
            let file = switch::file_after(false, old, new, switch::CopyView::Fill, replies);
            &&& save_result(settings, written) is Ok ==> save_result(settings, written) == Ok::<
                Settings,
                Seq<char>,
            >(settings) && stored_after(stored, settings, written) == settings && at_start(
                reads(file),
            ) == settings
            &&& save_result(settings, written) is Err ==> stored_after(stored, settings, written)
                == stored && file == old && at_start(reads(file)) == at_start(reads(old))
        }),
{
    switch::law_file_is_new_or_as_it_was(false, old, new, switch::CopyView::Fill, replies);
}

/// The settings in the file are the old ones or the new ones: where filling the
/// other file or putting it in place fails, that file is removed and the error is
/// the result.
pub proof fn law_settings_are_replaced_whole(
    filled: Result<(), Seq<char>>,
    replaced: Result<(), Seq<char>>,
    removed: Result<(), Seq<char>>,
)
    ensures
        switch::copy_stages(false, switch::CopyView::Fill, seq![filled, replaced, removed]) == match (
            filled,
            replaced,
        ) {
            (Err(e), _) => seq![
                switch::CopyView::Fill,
                switch::CopyView::RemoveTemporary(e),
                switch::CopyView::Finished(Err(e)),
            ],
            (Ok(_), Err(e)) => seq![
                switch::CopyView::Fill,
                switch::CopyView::Replace,
                switch::CopyView::RemoveTemporary(e),
                switch::CopyView::Finished(Err(e)),
            ],
            (Ok(_), Ok(_)) => seq![
                switch::CopyView::Fill,
                switch::CopyView::Replace,
                switch::CopyView::Finished(Ok(())),
            ],
        },
{
    reveal_with_fuel(switch::copy_stages, 4);
    let stages = switch::copy_stages(
        false,
        switch::CopyView::Fill,
        seq![filled, replaced, removed],
    );
    match (filled, replaced) {
        (Err(e), _) => {
            assert(stages =~= seq![
                switch::CopyView::Fill,
                switch::CopyView::RemoveTemporary(e),
                switch::CopyView::Finished(Err(e)),
            ]);
        },
        (Ok(_), Err(e)) => {
            assert(stages =~= seq![
                switch::CopyView::Fill,
                switch::CopyView::Replace,
                switch::CopyView::RemoveTemporary(e),
                switch::CopyView::Finished(Err(e)),
            ]);
        },
        (Ok(_), Ok(_)) => {
            assert(stages =~= seq![
                switch::CopyView::Fill,
                switch::CopyView::Replace,
                switch::CopyView::Finished(Ok(())),
            ]);
        },
    }
}

/// The first settings: the switcher does not start with the session, shows its window,
/// stays out of the taskbar and the dock, and stays in the tray when that is closed.
pub proof fn law_first_settings()
    ensures
        !initial_settings().autostart,
        !initial_settings().start_in_tray,
        initial_settings().hide_from_dock_taskbar,
        initial_settings().close_action == CloseAction::Tray,
        CloseAction::Tray.name() == "tray"@,
        CloseAction::Quit.name() == "quit"@,
{
}

/// The action for closing the window is set just where the text, without white space
/// around it, is the name of one: then that one is set, and nothing else is changed.
pub proof fn law_close_action_is_set_by_its_name(stored: Settings, action: Seq<char>)
    ensures
        with_close_action(stored, action) is Some <==> text::trimmed(action) == "tray"@
            || text::trimmed(action) == "quit"@,
        with_close_action(stored, action) matches Some(changed) ==> {
            &&& changed.close_action.name() == text::trimmed(action)
            &&& changed.autostart == stored.autostart
            &&& changed.start_in_tray == stored.start_in_tray
            &&& changed.hide_from_dock_taskbar == stored.hide_from_dock_taskbar
        },
{
    reveal_strlit("tray");
    reveal_strlit("quit");
    assert("tray"@[0] != "quit"@[0]);
}

/// The tray's menu gives two settings a value, each by its entry; the others stay. The
/// taskbar and the dock are updated just where staying out of them is what changes.
pub proof fn law_tray_gives_settings_their_values(
    stored: Settings,
    action: Seq<char>,
    enabled: bool,
)
    ensures
        tray_change(stored, "setting-start-in-tray"@, enabled) == Some(
            TrayChange {
                settings: Settings { start_in_tray: enabled, ..stored },
                visibility: false,
            },
        ),
        tray_change(stored, "setting-hide-from-dock-taskbar"@, enabled) == Some(
            TrayChange {
                settings: Settings { hide_from_dock_taskbar: enabled, ..stored },
                visibility: true,
            },
        ),
        action != "setting-start-in-tray"@ && action != "setting-hide-from-dock-taskbar"@ ==> (
        tray_change(stored, action, enabled) is None && tray_toggle(stored, action) is None),
{
    lemma_tray_settings_differ();
}

/// What the window shows are the settings, the name of the state, and what the user is
/// told of it.
pub proof fn law_window_shows_settings_and_state(
    settings: Settings,
    state: AutostartState,
    platform: Platform,
    mac: MacEnvironment,
    error: Option<Seq<char>>,
)
    ensures
        ({
            let shown = shown_settings(settings, state, platform, mac, error);
            &&& shown.settings == settings
            &&& shown.autostart_state == state.name()
            &&& shown.autostart_hint == autostart::advice_on(platform, state, mac, error)
        }),
{
}

/// Every error says what it is, and why where there is a reason.
pub proof fn law_settings_errors_say_what_they_are(reason: Seq<char>)
    ensures
        error_text(SettingsErrorView::NoDirectory(reason)) == "无法定位应用配置目录: "@ + reason,
        error_text(SettingsErrorView::InvalidPath) == "设置文件路径无效"@,
        error_text(SettingsErrorView::CreateDirectory(reason)) == "无法创建配置目录: "@ + reason,
        error_text(SettingsErrorView::Serialize(reason)) == "无法序列化设置: "@ + reason,
        error_text(SettingsErrorView::Write(reason)) == "无法保存设置: "@ + reason,
{
}

/// Settings that were written are kept and given back; an error in writing is said, and
/// what was kept stays.
pub proof fn law_settings_are_kept_once_written(
    stored: Settings,
    settings: Settings,
    error: SettingsErrorView,
    reason: Seq<char>,
)
    ensures
        stored_after(stored, settings, Ok(())) == settings,
        save_result(settings, Ok(())) == Ok::<Settings, Seq<char>>(settings),
        stored_after(stored, settings, Err(error)) == stored,
        save_result(settings, Err(error)) == Err::<Settings, Seq<char>>(error_text(error)),
        written_result(Ok(())) is Ok,
        written_result(Err(reason)) == Err::<(), SettingsErrorView>(
            SettingsErrorView::Write(reason),
        ),
        at_start(Some(settings)) == settings,
        at_start(None) == initial_settings(),
{
}

/// A change is applied, then saved whether or not applying it succeeded, then shown; an
/// error in saving is the result, and else what came of applying it.
pub proof fn law_change_is_saved_and_shown(
    change: TrayChange,
    settings: Settings,
    applied: Result<(), Seq<char>>,
    reply: Result<(), Seq<char>>,
    error: Seq<char>,
)
    ensures
        next_change_stage(ChangeView::Apply(change), reply) == (ChangeView::Save {
            settings: change.settings,
            applied: reply,
        }),
        next_change_stage(ChangeView::Save { settings, applied }, Ok(())) == ChangeView::Publish(
            applied,
        ),
        next_change_stage(ChangeView::Save { settings, applied }, Err(error))
            == ChangeView::Publish(Err(error)),
        next_change_stage(ChangeView::Publish(applied), reply) == ChangeView::Finished(applied),
        next_change_stage(ChangeView::Finished(applied), reply) == ChangeView::Finished(applied),
{
}

} // verus!
