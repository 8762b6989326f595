//! The tray's menu: what stands in it, and what its entries do.
use vstd::prelude::*;
use vstd::string::*;

use crate::settings;
use crate::settings::{CloseAction, Settings};
use crate::status;
use crate::status::AppState;
use crate::text;
use crate::variables;
use crate::variables::{BootSystem, VariableInfo};

verus! {

// ---------------------------------------------------------------------------
// Entries
// ---------------------------------------------------------------------------

/// An entry that is checked or not.
#[derive(Debug, PartialEq, Eq)]
pub struct CheckEntry {
    pub id: String,
    pub label: String,
    pub checked: bool,
}

/// What a `CheckEntry` says.
pub struct CheckView {
    pub id: Seq<char>,
    pub label: Seq<char>,
    pub checked: bool,
}

impl DeepView for CheckEntry {
    type V = CheckView;

    open spec fn deep_view(&self) -> CheckView {
        CheckView { id: self.id@, label: self.label@, checked: self.checked }
    }
}

/// An entry of the menu.
#[derive(Debug, PartialEq, Eq)]
pub enum MenuEntry {
    Item { id: String, label: String, enabled: bool },
    Check(CheckEntry),
    Separator,
    Submenu { id: String, label: String, entries: Vec<CheckEntry> },
}

/// What a `MenuEntry` says.
pub enum EntryView {
    Item { id: Seq<char>, label: Seq<char>, enabled: bool },
    Check(CheckView),
    Separator,
    Submenu { id: Seq<char>, label: Seq<char>, entries: Seq<CheckView> },
}

impl DeepView for MenuEntry {
    type V = EntryView;

    open spec fn deep_view(&self) -> EntryView {
        match *self {
            MenuEntry::Item { id, label, enabled } => EntryView::Item {
                id: id@,
                label: label@,
                enabled,
            },
            MenuEntry::Check(entry) => EntryView::Check(entry.deep_view()),
            MenuEntry::Separator => EntryView::Separator,
            MenuEntry::Submenu { id, label, entries } => EntryView::Submenu {
                id: id@,
                label: label@,
                entries: entries.deep_view(),
            },
        }
    }
}

/// An entry that can be chosen, or not.
fn item(id: &str, label: &str, enabled: bool) -> (r: MenuEntry)
    ensures
        r.deep_view() == (EntryView::Item { id: id@, label: label@, enabled }),
{
    MenuEntry::Item { id: id.to_owned(), label: label.to_owned(), enabled }
}

/// An entry that is checked or not.
fn check(id: &str, label: &str, checked: bool) -> (r: CheckEntry)
    ensures
        r.deep_view() == (CheckView { id: id@, label: label@, checked }),
{
    CheckEntry { id: id.to_owned(), label: label.to_owned(), checked }
}

// ---------------------------------------------------------------------------
// The menu
// ---------------------------------------------------------------------------

/// The entry of a system: the one that boots next is marked, and one without a
/// template cannot be chosen.
pub open spec fn system_entry(variable: variables::VariableView) -> EntryView {
    EntryView::Item {
        id: variable.system,
        label: if variable.active {
            "● "@ + variable.display_name
        } else {
            variable.display_name
        },
        enabled: variable.exists,
    }
}

/// The identifier of the entry that lets closing the main window do `action`.
pub open spec fn close_action_id(action: CloseAction) -> Seq<char> {
    "setting-close-action:"@ + action.name()
}

/// The entries from which what closing the main window does is chosen.
pub open spec fn close_action_entries(settings: Settings) -> Seq<CheckView> {
    seq![
        CheckView {
            id: close_action_id(CloseAction::Tray),
            label: "最小化到托盘"@,
            checked: settings.close_action == CloseAction::Tray,
        },
        CheckView {
            id: close_action_id(CloseAction::Quit),
            label: "退出程序"@,
            checked: settings.close_action == CloseAction::Quit,
        },
    ]
}

/// The entries above those of the systems.
pub open spec fn menu_head(state: status::StateView) -> Seq<EntryView> {
    seq![
        EntryView::Item { id: "status"@, label: state.message, enabled: false },
        EntryView::Separator,
    ]
}

/// The entry that unmounts the partition, if the switcher itself mounted it.
pub open spec fn unmount_entries(state: status::StateView) -> Seq<EntryView> {
    if status::owned(state.active_mount) {
        seq![EntryView::Item { id: "unmount-temporary"@, label: "卸载临时挂载"@, enabled: true }]
    } else {
        Seq::empty()
    }
}

/// The entries below.
pub open spec fn menu_tail(settings: Settings) -> Seq<EntryView> {
    seq![
        EntryView::Item { id: "show"@, label: "显示主窗口"@, enabled: true },
        EntryView::Separator,
        EntryView::Item { id: "settings-label"@, label: "应用设置"@, enabled: false },
        EntryView::Check(
            CheckView {
                id: "setting-autostart"@,
                label: "开机启动"@,
                checked: settings.autostart,
            },
        ),
        EntryView::Check(
            CheckView {
                id: "setting-start-in-tray"@,
                label: "启动时隐藏主界面"@,
                checked: settings.start_in_tray,
            },
        ),
        EntryView::Check(
            CheckView {
                id: "setting-hide-from-dock-taskbar"@,
                label: "隐藏程序（任务栏/Dock）"@,
                checked: settings.hide_from_dock_taskbar,
            },
        ),
        EntryView::Submenu {
            id: "setting-close-action"@,
            label: "点击窗口 ❌ 时"@,
            entries: close_action_entries(settings),
        },
        EntryView::Item { id: "refresh"@, label: "扫描"@, enabled: true },
        EntryView::Item { id: "restart"@, label: "重启系统"@, enabled: true },
        EntryView::Item { id: "quit"@, label: "退出"@, enabled: true },
    ]
}

/// The entries of the systems.
pub open spec fn system_entries(all: Seq<variables::VariableView>) -> Seq<EntryView> {
    all.map_values(|variable: variables::VariableView| system_entry(variable))
}

/// The menu.
pub open spec fn menu(state: status::StateView, settings: Settings) -> Seq<EntryView> {
    menu_head(state) + system_entries(state.variables) + seq![EntryView::Separator]
        + unmount_entries(state) + menu_tail(settings)
}

/// What is said when the pointer rests on the tray's icon.
pub open spec fn tooltip(state: status::StateView) -> Seq<char> {
    match state.error {
        Some(error) => error,
        None => "rEFInd 启动切换器："@ + state.message,
    }
}

/// Puts `entry` behind `entries`.
fn append(entries: &mut Vec<MenuEntry>, entry: MenuEntry)
    ensures
        final(entries).deep_view() == old(entries).deep_view().push(entry.deep_view()),
{
    entries.push(entry);
    assert(entries.deep_view() =~= old(entries).deep_view().push(entry.deep_view()));
}

/// Puts the entries of the systems behind `entries`.
fn append_systems(entries: &mut Vec<MenuEntry>, all: &Vec<VariableInfo>)
    ensures
        final(entries).deep_view() == old(entries).deep_view() + system_entries(all.deep_view()),
{
    let ghost before = entries.deep_view();
    let ghost views = all.deep_view();
    let mut i: usize = 0;
    assert(entries.deep_view() =~= before + system_entries(views.take(0)));
    while i < all.len()
        invariant
            i <= all@.len(),
            views == all.deep_view(),
            entries.deep_view() == before + system_entries(views.take(i as int)),
        decreases all@.len() - i,
    {
        let ghost already = entries.deep_view();
        let variable: &VariableInfo = &all[i];
        let label: String = if variable.active {
            text::concat("● ", variable.display_name.as_str())
        } else {
            variable.display_name.clone()
        };
        append(entries, item(variable.system.as_str(), label.as_str(), variable.exists));
        assert(views[i as int] == variable.deep_view());
        assert(entries.deep_view() =~= already.push(system_entry(variable.deep_view())));
        assert(entries.deep_view() =~= before + system_entries(views.take(i as int + 1)));
        i = i + 1;
    }
    assert(views.take(i as int) =~= views);
}

/// Puts the entries below those of the systems behind `entries`.
fn append_tail(entries: &mut Vec<MenuEntry>, settings: Settings)
    ensures
        final(entries).deep_view() == old(entries).deep_view() + menu_tail(settings),
{
    let ghost before = entries.deep_view();
    append(entries, item("show", "显示主窗口", true));
    append(entries, MenuEntry::Separator);
    append(entries, item("settings-label", "应用设置", false));
    append(
        entries,
        MenuEntry::Check(check("setting-autostart", "开机启动", settings.autostart)),
    );
    append(
        entries,
        MenuEntry::Check(
            check("setting-start-in-tray", "启动时隐藏主界面", settings.start_in_tray),
        ),
    );
    append(
        entries,
        MenuEntry::Check(
            check(
                "setting-hide-from-dock-taskbar",
                "隐藏程序（任务栏/Dock）",
                settings.hide_from_dock_taskbar,
            ),
        ),
    );
    let mut actions: Vec<CheckEntry> = Vec::new();
    actions.push(
        check(
            text::concat("setting-close-action:", CloseAction::Tray.as_str()).as_str(),
            "最小化到托盘",
            settings.close_action == CloseAction::Tray,
        ),
    );
    actions.push(
        check(
            text::concat("setting-close-action:", CloseAction::Quit.as_str()).as_str(),
            "退出程序",
            settings.close_action == CloseAction::Quit,
        ),
    );
    assert(actions.deep_view() =~= close_action_entries(settings));
    append(
        entries,
        MenuEntry::Submenu {
            id: "setting-close-action".to_owned(),
            label: "点击窗口 ❌ 时".to_owned(),
            entries: actions,
        },
    );
    append(entries, item("refresh", "扫描", true));
    append(entries, item("restart", "重启系统", true));
    append(entries, item("quit", "退出", true));
    assert(entries.deep_view() =~= before + menu_tail(settings));
}

/// The menu, and what is said when the pointer rests on the tray's icon.
pub fn update_tray_menu(state: &AppState, settings: Settings) -> (r: (Vec<MenuEntry>, String))
    ensures
        r.0.deep_view() == menu(state.deep_view(), settings),
        r.1@ == tooltip(state.deep_view()),
{
    let mut entries: Vec<MenuEntry> = Vec::new();
    assert(entries.deep_view() =~= Seq::empty());
    append(&mut entries, item("status", state.message.as_str(), false));
    append(&mut entries, MenuEntry::Separator);
    assert(entries.deep_view() =~= menu_head(state.deep_view()));
    append_systems(&mut entries, &state.variables);
    let ghost systems = entries.deep_view();
    append(&mut entries, MenuEntry::Separator);
    assert(entries.deep_view() =~= systems + seq![EntryView::Separator]);
    let ghost separated = entries.deep_view();
    if status::is_owned(&state.active_mount) {
        append(&mut entries, item("unmount-temporary", "卸载临时挂载", true));
    }
    assert(entries.deep_view() =~= separated + unmount_entries(state.deep_view()));
    append_tail(&mut entries, settings);
    let tip: String = match &state.error {
        Some(error) => error.clone(),
        None => text::concat("rEFInd 启动切换器：", state.message.as_str()),
    };
    (entries, tip)
}

/// The menu before the first scan has ended.
pub open spec fn first_menu() -> Seq<EntryView> {
    seq![
        EntryView::Item { id: "status"@, label: "正在扫描…"@, enabled: false },
        EntryView::Item { id: "show"@, label: "显示主窗口"@, enabled: true },
        EntryView::Item { id: "refresh"@, label: "扫描"@, enabled: true },
        EntryView::Item { id: "quit"@, label: "退出"@, enabled: true },
    ]
}

/// The menu before the first scan has ended.
pub fn initial_menu() -> (r: Vec<MenuEntry>)
    ensures
        r.deep_view() == first_menu(),
{
    let mut entries: Vec<MenuEntry> = Vec::new();
    entries.push(item("status", "正在扫描…", false));
    entries.push(item("show", "显示主窗口", true));
    entries.push(item("refresh", "扫描", true));
    entries.push(item("quit", "退出", true));
    assert(entries.deep_view() =~= first_menu());
    entries
}

// ---------------------------------------------------------------------------
// Actions
// ---------------------------------------------------------------------------

/// What an entry does.
#[derive(Debug, PartialEq, Eq)]
pub enum MenuAction {
    Show,
    Refresh,
    UnmountTemporary,
    ToggleAutostart,
    /// Gives a setting the other value.
    ToggleSetting(String),
    /// Gives a setting a value.
    UpdateSetting { setting: String, enabled: bool },
    /// Lets closing the main window do what this names.
    UpdateCloseAction(String),
    Quit,
    Restart,
    /// Lets the system with this key boot next.
    Switch(String),
    Nothing,
}

/// What a `MenuAction` says.
pub enum MenuActionView {
    Show,
    Refresh,
    UnmountTemporary,
    ToggleAutostart,
    ToggleSetting(Seq<char>),
    UpdateSetting { setting: Seq<char>, enabled: bool },
    UpdateCloseAction(Seq<char>),
    Quit,
    Restart,
    Switch(Seq<char>),
    Nothing,
}

impl DeepView for MenuAction {
    type V = MenuActionView;

    open spec fn deep_view(&self) -> MenuActionView {
        match *self {
            MenuAction::Show => MenuActionView::Show,
            MenuAction::Refresh => MenuActionView::Refresh,
            MenuAction::UnmountTemporary => MenuActionView::UnmountTemporary,
            MenuAction::ToggleAutostart => MenuActionView::ToggleAutostart,
            MenuAction::ToggleSetting(setting) => MenuActionView::ToggleSetting(setting@),
            MenuAction::UpdateSetting { setting, enabled } => MenuActionView::UpdateSetting {
                setting: setting@,
                enabled,
            },
            MenuAction::UpdateCloseAction(action) => MenuActionView::UpdateCloseAction(action@),
            MenuAction::Quit => MenuActionView::Quit,
            MenuAction::Restart => MenuActionView::Restart,
            MenuAction::Switch(system) => MenuActionView::Switch(system@),
            MenuAction::Nothing => MenuActionView::Nothing,
        }
    }
}

/// What the entry with an identifier does, other than showing the main window.
pub open spec fn background_action(id: Seq<char>) -> MenuActionView {
    if id == "refresh"@ {
        MenuActionView::Refresh
    } else if id == "unmount-temporary"@ {
        MenuActionView::UnmountTemporary
    } else if id == "setting-autostart"@ {
        MenuActionView::ToggleAutostart
    } else if id == "setting-start-in-tray"@ || id == "setting-hide-from-dock-taskbar"@ {
        MenuActionView::ToggleSetting(id)
    } else if text::begins_with(id, "setting-"@) && text::finishes_with(id, ":true"@) {
        MenuActionView::UpdateSetting {
            setting: id.take(id.len() - ":true"@.len()),
            enabled: true,
        }
    } else if text::begins_with(id, "setting-"@) && text::finishes_with(id, ":false"@) {
        MenuActionView::UpdateSetting {
            setting: id.take(id.len() - ":false"@.len()),
            enabled: false,
        }
    } else if text::begins_with(id, "setting-close-action:"@) {
        MenuActionView::UpdateCloseAction(id.skip("setting-close-action:"@.len() as int))
    } else if id == "quit"@ {
        MenuActionView::Quit
    } else if id == "restart"@ {
        MenuActionView::Restart
    } else if status::system_of(id) is Some {
        MenuActionView::Switch(id)
    } else {
        MenuActionView::Nothing
    }
}

/// What the entry with an identifier does.
pub open spec fn action_of(id: Seq<char>) -> MenuActionView {
    if id == "show"@ {
        MenuActionView::Show
    } else {
        background_action(id)
    }
}

/// What the entry `action` does, other than showing the main window.
pub fn spawn_menu_action(action: &str) -> (r: MenuAction)
    ensures
        r.deep_view() == background_action(action@),
{
    if text::same_text(action, "refresh") {
        return MenuAction::Refresh;
    }
    if text::same_text(action, "unmount-temporary") {
        return MenuAction::UnmountTemporary;
    }
    if text::same_text(action, "setting-autostart") {
        return MenuAction::ToggleAutostart;
    }
    if text::same_text(action, "setting-start-in-tray") || text::same_text(
        action,
        "setting-hide-from-dock-taskbar",
    ) {
        return MenuAction::ToggleSetting(action.to_owned());
    }
    if text::starts_with(action, "setting-") {
        if let Some(setting) = text::strip_suffix(action, ":true") {
            return MenuAction::UpdateSetting { setting, enabled: true };
        }
        if let Some(setting) = text::strip_suffix(action, ":false") {
            return MenuAction::UpdateSetting { setting, enabled: false };
        }
    }
    if let Some(close_action) = text::strip_prefix(action, "setting-close-action:") {
        return MenuAction::UpdateCloseAction(close_action);
    }
    if text::same_text(action, "quit") {
        return MenuAction::Quit;
    }
    if text::same_text(action, "restart") {
        return MenuAction::Restart;
    }
    if BootSystem::find(action).is_some() {
        return MenuAction::Switch(action.to_owned());
    }
    proof {
        assert(BootSystem::Linux.key() != action@);
        assert(BootSystem::Windows.key() != action@);
        assert(BootSystem::MacOs.key() != action@);
    }
    MenuAction::Nothing
}

/// What the entry `id` does.
pub fn menu_action(id: &str) -> (r: MenuAction)
    ensures
        r.deep_view() == action_of(id@),
{
    if text::same_text(id, "show") {
        MenuAction::Show
    } else {
        spawn_menu_action(id)
    }
}

// ---------------------------------------------------------------------------
// Laws
// ---------------------------------------------------------------------------

/// The entry of a system lets that system boot next.
pub proof fn law_system_entry_switches(system: BootSystem)
    ensures
        action_of(system.key()) == MenuActionView::Switch(system.key()),
        status::system_of(system.key()) == Some(system),
{
    reveal_strlit("linux");
    reveal_strlit("windows");
    reveal_strlit("macos");
    reveal_strlit("show");
    reveal_strlit("refresh");
    reveal_strlit("unmount-temporary");
    reveal_strlit("setting-autostart");
    reveal_strlit("setting-start-in-tray");
    reveal_strlit("setting-hide-from-dock-taskbar");
    reveal_strlit("setting-");
    reveal_strlit("setting-close-action:");
    reveal_strlit("quit");
    reveal_strlit("restart");
    let key = system.key();
    assert(key[0] == 'l' || key[0] == 'w' || key[0] == 'm');
    assert("linux"@[0] == 'l' && "windows"@[0] == 'w' && "macos"@[0] == 'm');
    assert("show"@[0] == 's' && "refresh"@[0] == 'r' && "unmount-temporary"@[0] == 'u');
    assert("setting-autostart"@[0] == 's' && "quit"@[0] == 'q' && "restart"@[0] == 'r');
    assert("setting-"@[0] == 's' && "setting-close-action:"@[0] == 's');
    assert("setting-start-in-tray"@[0] == 's' && "setting-hide-from-dock-taskbar"@[0] == 's');
    assert(!text::begins_with(key, "setting-"@)) by {
        if text::begins_with(key, "setting-"@) {
            assert(key.take("setting-"@.len() as int)[0] == "setting-"@[0]);
        }
    }
    assert(!text::begins_with(key, "setting-close-action:"@)) by {
        if text::begins_with(key, "setting-close-action:"@) {
            assert(key.take("setting-close-action:"@.len() as int)[0]
                == "setting-close-action:"@[0]);
        }
    }
}

/// The entries for closing the main window, once chosen, set the action that they
/// stand for.
pub proof fn law_close_action_entry_sets_action(action: CloseAction, stored: Settings)
    ensures
        action_of(close_action_id(action)) == MenuActionView::UpdateCloseAction(action.name()),
        settings::with_close_action(stored, action.name()) == Some(
            Settings { close_action: action, ..stored },
        ),
{
    reveal_strlit("tray");
    reveal_strlit("quit");
    reveal_strlit("show");
    reveal_strlit("refresh");
    reveal_strlit("unmount-temporary");
    reveal_strlit("setting-autostart");
    reveal_strlit("setting-start-in-tray");
    reveal_strlit("setting-hide-from-dock-taskbar");
    reveal_strlit("setting-");
    reveal_strlit("setting-close-action:");
    reveal_strlit(":true");
    reveal_strlit(":false");
    let id = close_action_id(action);
    let head = "setting-close-action:"@;
    assert(head.len() == 21);
    assert(action.name().len() == 4);
    assert(id.len() == 25);
    assert(id.take(head.len() as int) =~= head);
    assert(id.skip(head.len() as int) =~= action.name());
    assert(id[24] == 'y' || id[24] == 't') by {
        assert(id[24] == action.name()[3]);
    }
    assert(":true"@[4] == 'e');
    assert(":false"@[5] == 'e');
    assert(!text::finishes_with(id, ":true"@)) by {
        if text::finishes_with(id, ":true"@) {
            assert(id.skip(id.len() - 5)[4] == ":true"@[4]);
        }
    }
    assert(!text::finishes_with(id, ":false"@)) by {
        if text::finishes_with(id, ":false"@) {
            assert(id.skip(id.len() - 6)[5] == ":false"@[5]);
        }
    }
    assert("show"@.len() == 4);
    assert("refresh"@.len() == 7);
    assert("unmount-temporary"@.len() == 17);
    assert("setting-autostart"@.len() == 17);
    assert("setting-start-in-tray"@.len() == 21);
    assert("setting-hide-from-dock-taskbar"@.len() == 30);
    let name = action.name();
    assert(!text::white_space(name[0]) && !text::white_space(name[3]));
    assert(text::trimmed(name) == name);
    settings::law_close_action_is_read_back(action, name);
}

/// The entries other than those of the systems do what their labels say.
pub proof fn law_plain_entries_have_actions()
    ensures
        action_of("show"@) == MenuActionView::Show,
        action_of("refresh"@) == MenuActionView::Refresh,
        action_of("unmount-temporary"@) == MenuActionView::UnmountTemporary,
        action_of("setting-autostart"@) == MenuActionView::ToggleAutostart,
        action_of("setting-start-in-tray"@) == MenuActionView::ToggleSetting(
            "setting-start-in-tray"@,
        ),
        action_of("setting-hide-from-dock-taskbar"@) == MenuActionView::ToggleSetting(
            "setting-hide-from-dock-taskbar"@,
        ),
        action_of("restart"@) == MenuActionView::Restart,
        action_of("quit"@) == MenuActionView::Quit,
{
    reveal_strlit("show");
    reveal_strlit("refresh");
    reveal_strlit("unmount-temporary");
    reveal_strlit("setting-autostart");
    reveal_strlit("setting-start-in-tray");
    reveal_strlit("setting-hide-from-dock-taskbar");
    reveal_strlit("setting-");
    reveal_strlit("setting-close-action:");
    reveal_strlit("quit");
    reveal_strlit("restart");
    assert("show"@.len() == 4);
    assert("refresh"@.len() == 7);
    assert("unmount-temporary"@.len() == 17);
    assert("setting-autostart"@.len() == 17);
    assert("setting-start-in-tray"@.len() == 21);
    assert("setting-hide-from-dock-taskbar"@.len() == 30);
    assert("setting-"@.len() == 8);
    assert("setting-close-action:"@.len() == 21);
    assert("quit"@.len() == 4);
    assert("restart"@.len() == 7);
    assert("show"@[0] == 's' && "quit"@[0] == 'q');
    assert("restart"@[2] == 's' && "refresh"@[2] == 'f');
    assert("unmount-temporary"@[0] == 'u' && "setting-autostart"@[0] == 's');
}

/// Choosing an entry does something, or the entry cannot be chosen. Of a submenu,
/// its entries are what can be chosen.
pub open spec fn does_something(entry: EntryView) -> bool {
    match entry {
        EntryView::Item { id, label, enabled } => enabled ==> !(action_of(id) is Nothing),
        EntryView::Check(check) => !(action_of(check.id) is Nothing),
        EntryView::Separator => true,
        EntryView::Submenu { id, label, entries } => forall|k: int|
            0 <= k < entries.len() ==> !(action_of((#[trigger] entries[k]).id) is Nothing),
    }
}

/// Every entry of the menu that can be chosen does something: items, check entries
/// and those of the submenu. The entries of the systems are to stand for systems
/// that there are.
pub proof fn law_entries_do_something(state: status::StateView, settings: Settings, i: int)
    requires
        forall|j: int|
            0 <= j < state.variables.len() ==> status::system_of(
                (#[trigger] state.variables[j]).system,
            ) is Some,
        0 <= i < menu(state, settings).len(),
    ensures
        does_something(menu(state, settings)[i]),
{
    law_plain_entries_have_actions();
    law_close_action_entry_sets_action(CloseAction::Tray, settings);
    law_close_action_entry_sets_action(CloseAction::Quit, settings);
    let head = menu_head(state);
    let systems = system_entries(state.variables);
    let n = systems.len() as int;
    let offered = unmount_entries(state).len() as int;
    let entry = menu(state, settings)[i];
    if 2 <= i < 2 + n {
        assert(entry == systems[i - 2]);
        assert(entry == system_entry(state.variables[i - 2]));
        let system = status::system_of(state.variables[i - 2].system)->0;
        assert(state.variables[i - 2].system == system.key());
        law_system_entry_switches(system);
    } else if i >= 3 + n + offered {
        assert(entry == menu_tail(settings)[i - (3 + n + offered)]);
        assert forall|k: int| 0 <= k < close_action_entries(settings).len() implies !(action_of(
            (#[trigger] close_action_entries(settings)[k]).id,
        ) is Nothing) by {
            assert(close_action_entries(settings)[k].id == close_action_id(CloseAction::Tray)
                || close_action_entries(settings)[k].id == close_action_id(CloseAction::Quit));
        }
    } else if i >= 3 + n {
        assert(entry == unmount_entries(state)[i - (3 + n)]);
    } else if i < 2 {
        assert(entry == head[i]);
    }
}

/// The two check entries that change nothing but a setting show the change: once
/// one is chosen, it alone is checked the other way.
pub proof fn law_chosen_check_is_flipped(stored: Settings)
    ensures
        action_of("setting-start-in-tray"@) == MenuActionView::ToggleSetting(
            "setting-start-in-tray"@,
        ),
        settings::tray_toggle(stored, "setting-start-in-tray"@) matches Some(change)
            && menu_tail(change.settings) == menu_tail(stored).update(
            4,
            EntryView::Check(
                CheckView {
                    id: "setting-start-in-tray"@,
                    label: "启动时隐藏主界面"@,
                    checked: !stored.start_in_tray,
                },
            ),
        ),
        action_of("setting-hide-from-dock-taskbar"@) == MenuActionView::ToggleSetting(
            "setting-hide-from-dock-taskbar"@,
        ),
        settings::tray_toggle(stored, "setting-hide-from-dock-taskbar"@) matches Some(change)
            && menu_tail(change.settings) == menu_tail(stored).update(
            5,
            EntryView::Check(
                CheckView {
                    id: "setting-hide-from-dock-taskbar"@,
                    label: "隐藏程序（任务栏/Dock）"@,
                    checked: !stored.hide_from_dock_taskbar,
                },
            ),
        ),
{
    law_plain_entries_have_actions();
    settings::law_tray_toggle_flips_one_setting(stored, "setting-start-in-tray"@);
    settings::law_tray_toggle_flips_one_setting(stored, "setting-hide-from-dock-taskbar"@);
    let tray = settings::tray_toggle(stored, "setting-start-in-tray"@)->0.settings;
    assert(menu_tail(tray) =~= menu_tail(stored).update(4, menu_tail(tray)[4]));
    let dock = settings::tray_toggle(stored, "setting-hide-from-dock-taskbar"@)->0.settings;
    assert(menu_tail(dock) =~= menu_tail(stored).update(5, menu_tail(dock)[5]));
}

/// Just one of the entries for closing the main window is checked.
pub proof fn law_one_close_action_is_checked(settings: Settings)
    ensures
        close_action_entries(settings)[0].checked != close_action_entries(settings)[1].checked,
{
}

/// The menu offers to unmount just where the switcher itself mounted the
/// partition.
pub proof fn law_menu_offers_to_unmount(state: status::StateView, settings: Settings)
    ensures
        menu(state, settings).len() == 13 + state.variables.len() + if status::owned(
            state.active_mount,
        ) {
            1int
        } else {
            0int
        },
        status::owned(state.active_mount) ==> menu(state, settings)[state.variables.len() as int + 3]
            == (EntryView::Item {
            id: "unmount-temporary"@,
            label: "卸载临时挂载"@,
            enabled: true,
        }),
{
}

/// The menu begins with the message, which cannot be chosen; then comes an entry for each
/// system, which has its key, its name, a mark just where it boots next, and can be chosen
/// just where its template is there.
pub proof fn law_menu_lists_the_systems(state: status::StateView, settings: Settings, i: int)
    requires
        0 <= i < state.variables.len(),
    ensures
        ({
            let entries = menu(state, settings);
            let variable = state.variables[i];
            &&& entries.len() > 3 + state.variables.len()
            &&& entries[0] == (EntryView::Item {
                id: "status"@,
                label: state.message,
                enabled: false,
            })
            &&& entries[1] is Separator
            &&& entries[2 + i] == (EntryView::Item {
                id: variable.system,
                label: if variable.active {
                    "● "@ + variable.display_name
                } else {
                    variable.display_name
                },
                enabled: variable.exists,
            })
            &&& entries[2 + state.variables.len() as int] is Separator
        }),
{
    let entries = menu(state, settings);
    assert(entries[2 + i] == system_entries(state.variables)[i]);
}

/// The menu ends with the same entries in every state: to show the window, the settings
/// as they are, and to scan, restart and quit.
pub proof fn law_menu_ends_with_the_settings(state: status::StateView, settings: Settings)
    ensures
        ({
            let entries = menu(state, settings);
            let n = entries.len() as int;
            let check = |id: Seq<char>, label: Seq<char>, checked: bool|
                EntryView::Check(CheckView { id, label, checked });
            let item = |id: Seq<char>, label: Seq<char>| EntryView::Item { id, label, enabled: true };
            &&& n >= 10
            &&& entries[n - 10] == item("show"@, "显示主窗口"@)
            &&& entries[n - 9] is Separator
            &&& entries[n - 8] == (EntryView::Item {
                id: "settings-label"@,
                label: "应用设置"@,
                enabled: false,
            })
            &&& entries[n - 7] == check("setting-autostart"@, "开机启动"@, settings.autostart)
            &&& entries[n - 6] == check(
                "setting-start-in-tray"@,
                "启动时隐藏主界面"@,
                settings.start_in_tray,
            )
            &&& entries[n - 5] == check(
                "setting-hide-from-dock-taskbar"@,
                "隐藏程序（任务栏/Dock）"@,
                settings.hide_from_dock_taskbar,
            )
            &&& entries[n - 4] == (EntryView::Submenu {
                id: "setting-close-action"@,
                label: "点击窗口 ❌ 时"@,
                entries: seq![
                    CheckView {
                        id: "setting-close-action:"@ + "tray"@,
                        label: "最小化到托盘"@,
                        checked: settings.close_action == CloseAction::Tray,
                    },
                    CheckView {
                        id: "setting-close-action:"@ + "quit"@,
                        label: "退出程序"@,
                        checked: settings.close_action == CloseAction::Quit,
                    },
                ],
            })
            &&& entries[n - 3] == item("refresh"@, "扫描"@)
            &&& entries[n - 2] == item("restart"@, "重启系统"@)
            &&& entries[n - 1] == item("quit"@, "退出"@)
        }),
{
    let entries = menu(state, settings);
    let n = entries.len() as int;
    let tail = menu_tail(settings);
    assert forall|k: int| 0 <= k < 10 implies entries[n - 10 + k] == #[trigger] tail[k] by {}
    assert(tail[0] == entries[n - 10] && tail[1] == entries[n - 9] && tail[2] == entries[n - 8]);
    assert(tail[3] == entries[n - 7] && tail[4] == entries[n - 6] && tail[5] == entries[n - 5]);
    assert(tail[6] == entries[n - 4] && tail[7] == entries[n - 3] && tail[8] == entries[n - 2]);
    assert(tail[9] == entries[n - 1]);
}

/// The tray says the error where there is one, and else the message.
pub proof fn law_tooltip_says_error_or_message(state: status::StateView)
    ensures
        state.error matches Some(error) ==> tooltip(state) == error,
        state.error is None ==> tooltip(state) == "rEFInd 启动切换器："@ + state.message,
{
}

/// Nothing is done by an entry that does not stand for it: the computer restarts, the
/// switcher ends, a system is chosen, a partition unmounted or a setting changed only by
/// the entry for just that.
pub proof fn law_actions_need_their_entries(id: Seq<char>)
    ensures
        action_of(id) is Show <==> id == "show"@,
        action_of(id) is Refresh ==> id == "refresh"@,
        action_of(id) is UnmountTemporary ==> id == "unmount-temporary"@,
        action_of(id) is ToggleAutostart ==> id == "setting-autostart"@,
        action_of(id) is Quit ==> id == "quit"@,
        action_of(id) is Restart ==> id == "restart"@,
        action_of(id) matches MenuActionView::Switch(key) ==> key == id && (key == "linux"@ || key
            == "windows"@ || key == "macos"@),
        action_of(id) matches MenuActionView::ToggleSetting(setting) ==> setting == id && (id
            == "setting-start-in-tray"@ || id == "setting-hide-from-dock-taskbar"@),
        action_of(id) matches MenuActionView::UpdateSetting { setting, enabled } ==> id == setting
            + (if enabled {
            ":true"@
        } else {
            ":false"@
        }) && text::begins_with(id, "setting-"@),
        action_of(id) matches MenuActionView::UpdateCloseAction(action) ==> id
            == "setting-close-action:"@ + action,
{
    if text::finishes_with(id, ":true"@) {
        text::law_ending_is_what_is_put_behind(id, ":true"@, id);
    }
    if text::finishes_with(id, ":false"@) {
        text::law_ending_is_what_is_put_behind(id, ":false"@, id);
    }
    if text::begins_with(id, "setting-close-action:"@) {
        text::law_beginning_is_what_is_put_in_front(id, "setting-close-action:"@, id);
    }
}

/// An identifier that gives a setting a value leads to just that.
pub proof fn law_setting_is_given_a_value(name: Seq<char>)
    ensures
        action_of("setting-"@ + name + ":true"@) == (MenuActionView::UpdateSetting {
            setting: "setting-"@ + name,
            enabled: true,
        }),
        action_of("setting-"@ + name + ":false"@) == (MenuActionView::UpdateSetting {
            setting: "setting-"@ + name,
            enabled: false,
        }),
{
    reveal_strlit("show");
    reveal_strlit("refresh");
    reveal_strlit("unmount-temporary");
    reveal_strlit("setting-autostart");
    reveal_strlit("setting-start-in-tray");
    reveal_strlit("setting-hide-from-dock-taskbar");
    reveal_strlit(":true");
    reveal_strlit(":false");
    let head = "setting-"@ + name;
    let yes = head + ":true"@;
    let no = head + ":false"@;
    text::law_ending_is_what_is_put_behind(yes, ":true"@, head);
    text::law_ending_is_what_is_put_behind(no, ":false"@, head);
    assert(yes =~= "setting-"@ + (name + ":true"@));
    assert(no =~= "setting-"@ + (name + ":false"@));
    text::law_beginning_is_what_is_put_in_front(yes, "setting-"@, name + ":true"@);
    text::law_beginning_is_what_is_put_in_front(no, "setting-"@, name + ":false"@);
    assert(yes.last() == 'e' && no.last() == 'e');
    assert("show"@.last() == 'w' && "refresh"@.last() == 'h' && "unmount-temporary"@.last() == 'y');
    assert("setting-autostart"@.last() == 't' && "setting-start-in-tray"@.last() == 'y');
    assert("setting-hide-from-dock-taskbar"@.last() == 'r');
    assert(":true"@.len() == 5 && ":false"@.len() == 6);
    assert(!text::finishes_with(no, ":true"@)) by {
        if text::finishes_with(no, ":true"@) {
            assert(no.skip(no.len() - 5)[1] == ":true"@[1]);
            assert(no[no.len() - 4] == ":false"@[2]);
        }
    }
}

/// Before anything was scanned, the menu says so and offers, one after the other, to show
/// the window, to scan and to quit, and nothing that needs a directory.
pub proof fn law_first_menu_offers_what_needs_no_scan()
    ensures
        first_menu().len() == 4,
        first_menu()[0] == (EntryView::Item {
            id: "status"@,
            label: "正在扫描…"@,
            enabled: false,
        }),
        forall|i: int| 1 <= i < 4 ==> #[trigger] first_menu()[i] is Item && first_menu()[i]->Item_enabled,
        action_of(first_menu()[1]->Item_id) is Show,
        first_menu()[1]->Item_label == "显示主窗口"@,
        action_of(first_menu()[2]->Item_id) is Refresh,
        first_menu()[2]->Item_label == "扫描"@,
        action_of(first_menu()[3]->Item_id) is Quit,
        first_menu()[3]->Item_label == "退出"@,
{
    law_actions_need_their_entries("show"@);
    reveal_strlit("show");
    reveal_strlit("refresh");
    reveal_strlit("quit");
    reveal_strlit("unmount-temporary");
    reveal_strlit("setting-autostart");
    reveal_strlit("setting-start-in-tray");
    reveal_strlit("setting-hide-from-dock-taskbar");
    reveal_strlit("setting-close-action:");
    reveal_strlit("setting-");
    reveal_strlit("linux");
    reveal_strlit("windows");
    reveal_strlit("macos");
    reveal_strlit("restart");
    assert("refresh"@[0] != "show"@[0] && "quit"@[0] == 'q' && "restart"@[0] == 'r');
    assert("setting-"@[0] == 's' && "setting-close-action:"@[0] == 's');
    assert("unmount-temporary"@[0] == 'u' && "linux"@[0] == 'l');
    assert("windows"@[0] == 'w' && "macos"@[0] == 'm');
}

} // verus!
