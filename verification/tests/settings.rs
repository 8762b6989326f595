use refind_switcher::autostart::{AutostartState, LoginItemNotice, MacEnvironment};
use refind_switcher::command::Platform;
use refind_switcher::settings::{
    begin_tray_change, read_settings_file, run_tray_change, save_settings, set_autostart,
    set_close_action, set_hide_from_dock_taskbar, set_start_in_tray, toggle_autostart_setting,
    toggle_tray_setting, update_close_action_setting, update_tray_setting, view_settings,
    write_settings_file, written_settings, ChangeStage, CloseAction, Settings, SettingsError,
    SettingsView, TrayChange,
};
use refind_switcher::switch::CopyStage;
use refind_switcher::window::{
    apply_dock_taskbar_visibility, click_shows_window, close_requested, dock_error,
    show_main_window, startup, taskbar_error, ActivationPolicy, CloseResponse,
};

const MAC: MacEnvironment = MacEnvironment {
    supported: true,
    in_bundle: true,
    signed: true,
};

#[test]
fn close_actions_have_names() {
    for action in [CloseAction::Tray, CloseAction::Quit] {
        assert_eq!(CloseAction::parse(action.as_str()), Some(action));
    }
    assert_eq!(CloseAction::parse("tray"), Some(CloseAction::Tray));
    assert_eq!(CloseAction::parse("quit"), Some(CloseAction::Quit));
    assert_eq!(CloseAction::parse("Quit"), None);
    assert_eq!(CloseAction::parse(" quit"), None);
    assert_eq!(CloseAction::parse(""), None);
}

#[test]
fn defaults_hide_the_switcher() {
    let settings = Settings::default();
    assert!(!settings.autostart);
    assert!(!settings.start_in_tray);
    assert!(settings.hide_from_dock_taskbar);
    assert_eq!(settings.close_action, CloseAction::Tray);
    assert_eq!(read_settings_file(None), settings);
    let other = set_start_in_tray(settings, true);
    assert_eq!(read_settings_file(Some(other)), other);
}

#[test]
fn view_holds_state_and_hint() {
    let view = SettingsView::new(
        Settings::default(),
        AutostartState::RequiresApproval,
        Platform::MacOs,
        MAC,
        &LoginItemNotice::new(),
    );
    assert_eq!(view.settings, Settings::default());
    assert_eq!(view.autostart_state, "requires-approval");
    assert_eq!(
        view.autostart_hint,
        AutostartState::RequiresApproval.hint().map(str::to_string)
    );
}

#[test]
fn system_state_is_what_is_shown() {
    let stored = Settings::default();
    let (shown, save) = view_settings(stored, AutostartState::Enabled);
    assert!(shown.autostart);
    assert!(save);
    assert_eq!(
        view_settings(shown, AutostartState::RequiresApproval),
        (shown, false)
    );
    assert_eq!(
        view_settings(shown, AutostartState::Unavailable),
        (stored, true)
    );
    assert!(toggle_autostart_setting(stored));
    assert!(!toggle_autostart_setting(shown));
    assert_eq!(set_autostart(stored, AutostartState::Enabled), shown);
}

#[test]
fn settings_are_changed_one_by_one() {
    let stored = Settings::default();
    assert!(set_start_in_tray(stored, true).start_in_tray);
    assert!(!set_hide_from_dock_taskbar(stored, false).hide_from_dock_taskbar);
    assert_eq!(
        set_close_action(stored, " quit\n").unwrap().close_action,
        CloseAction::Quit
    );
    assert_eq!(
        set_close_action(stored, " exit"),
        Err("未知的关闭行为:  exit".to_string())
    );
    assert_eq!(update_close_action_setting(stored, "exit"), None);
    assert_eq!(
        update_close_action_setting(stored, "quit").map(|settings| settings.close_action),
        Some(CloseAction::Quit)
    );
}

#[test]
fn tray_changes_two_settings() {
    let stored = Settings::default();
    assert_eq!(
        update_tray_setting(stored, "setting-start-in-tray", true),
        Some(TrayChange {
            settings: set_start_in_tray(stored, true),
            visibility: false
        })
    );
    assert_eq!(
        update_tray_setting(stored, "setting-hide-from-dock-taskbar", false),
        Some(TrayChange {
            settings: set_hide_from_dock_taskbar(stored, false),
            visibility: true
        })
    );
    assert_eq!(update_tray_setting(stored, "setting-other", true), None);
}

#[test]
fn chosen_check_entry_flips_its_setting() {
    let stored = Settings::default();
    let tray = toggle_tray_setting(stored, "setting-start-in-tray").unwrap();
    assert_eq!(
        tray,
        TrayChange {
            settings: set_start_in_tray(stored, true),
            visibility: false
        }
    );
    let dock = toggle_tray_setting(stored, "setting-hide-from-dock-taskbar").unwrap();
    assert_eq!(
        dock,
        TrayChange {
            settings: set_hide_from_dock_taskbar(stored, false),
            visibility: true
        }
    );
    // Choosing it again brings the first settings back.
    assert_eq!(
        toggle_tray_setting(tray.settings, "setting-start-in-tray").map(|change| change.settings),
        Some(stored)
    );
    assert_eq!(toggle_tray_setting(stored, "setting-autostart"), None);
    assert_eq!(toggle_tray_setting(stored, "setting-start-in-tray:true"), None);
}

#[test]
fn tray_change_is_saved_and_told() {
    let stored = Settings::default();
    let change = toggle_tray_setting(stored, "setting-hide-from-dock-taskbar").unwrap();
    let stage = begin_tray_change(change);
    assert_eq!(stage, ChangeStage::Apply(change));
    let stage = run_tray_change(stage, Err("no dock".to_string()));
    assert_eq!(
        stage,
        ChangeStage::Save {
            settings: change.settings,
            applied: Err("no dock".to_string())
        }
    );
    let stage = run_tray_change(stage, Ok(()));
    assert_eq!(stage, ChangeStage::Publish(Err("no dock".to_string())));
    assert_eq!(
        run_tray_change(stage, Ok(())),
        ChangeStage::Finished(Err("no dock".to_string()))
    );

    let change = toggle_tray_setting(stored, "setting-start-in-tray").unwrap();
    let stage = run_tray_change(begin_tray_change(change), Ok(()));
    assert_eq!(stage, ChangeStage::Publish(Ok(())));
    let stage = run_tray_change(begin_tray_change(change), Err("full".to_string()));
    assert_eq!(stage, ChangeStage::Publish(Err("full".to_string())));
}

#[test]
fn settings_errors_have_messages() {
    let x = || "x".to_string();
    assert_eq!(SettingsError::NoDirectory(x()).message(), "无法定位应用配置目录: x");
    assert_eq!(SettingsError::InvalidPath.message(), "设置文件路径无效");
    assert_eq!(SettingsError::CreateDirectory(x()).message(), "无法创建配置目录: x");
    assert_eq!(SettingsError::Serialize(x()).message(), "无法序列化设置: x");
    assert_eq!(SettingsError::Write(x()).message(), "无法保存设置: x");
}

#[test]
fn settings_are_kept_once_written() {
    let mut stored = Settings::default();
    let next = set_start_in_tray(stored, true);
    assert_eq!(
        save_settings(&mut stored, next, Err(SettingsError::Write("full".to_string()))),
        Err("无法保存设置: full".to_string())
    );
    assert_eq!(stored, Settings::default());
    assert_eq!(save_settings(&mut stored, next, Ok(())), Ok(next));
    assert_eq!(stored, next);
}

#[test]
fn settings_file_is_replaced_whole() {
    let stage = write_settings_file(CopyStage::Fill, Ok(()));
    assert_eq!(stage, CopyStage::Replace);
    assert_eq!(
        write_settings_file(CopyStage::Replace, Ok(())),
        CopyStage::Finished(Ok(()))
    );
    let stage = write_settings_file(stage, Err("busy".to_string()));
    assert_eq!(stage, CopyStage::RemoveTemporary("busy".to_string()));
    let stage = write_settings_file(stage, Err("gone".to_string()));
    assert_eq!(stage, CopyStage::Finished(Err("busy".to_string())));
    assert_eq!(written_settings(Ok(())), Ok(()));
    assert_eq!(
        written_settings(Err("busy".to_string())),
        Err(SettingsError::Write("busy".to_string()))
    );
}

#[test]
fn closing_the_main_window_follows_the_settings() {
    let tray = Settings::default();
    let quit = set_close_action(tray, "quit").unwrap();
    assert_eq!(
        close_requested(Platform::Linux, "main", tray),
        CloseResponse::Hide(None)
    );
    assert_eq!(
        close_requested(Platform::MacOs, "main", tray),
        CloseResponse::Hide(Some(ActivationPolicy::Accessory))
    );
    assert_eq!(
        close_requested(Platform::MacOs, "main", quit),
        CloseResponse::Quit
    );
    assert_eq!(
        close_requested(Platform::MacOs, "other", quit),
        CloseResponse::Close
    );
}

#[test]
fn startup_follows_the_settings() {
    let hidden = Settings::default();
    let plan = startup(Platform::MacOs, hidden);
    assert_eq!(plan.policy, Some(ActivationPolicy::Accessory));
    assert_eq!(plan.visibility.policy, Some(ActivationPolicy::Accessory));
    assert!(plan.visibility.skip_taskbar);
    assert!(plan.show);

    let shown = set_hide_from_dock_taskbar(hidden, false);
    let plan = startup(Platform::MacOs, shown);
    assert_eq!(plan.policy, Some(ActivationPolicy::Regular));

    let plan = startup(Platform::MacOs, set_start_in_tray(shown, true));
    assert_eq!(plan.policy, Some(ActivationPolicy::Accessory));
    assert_eq!(plan.visibility.policy, Some(ActivationPolicy::Regular));
    assert!(!plan.show);

    let plan = startup(Platform::Windows, shown);
    assert_eq!(plan.policy, None);
    assert_eq!(plan.visibility.policy, None);
    assert!(!plan.visibility.skip_taskbar);
}

#[test]
fn dock_and_taskbar_are_updated_together() {
    let hide = apply_dock_taskbar_visibility(Platform::MacOs, true);
    assert!(hide.skip_taskbar);
    assert_eq!(hide.policy, Some(ActivationPolicy::Accessory));
    assert_eq!(
        apply_dock_taskbar_visibility(Platform::MacOs, false).policy,
        Some(ActivationPolicy::Regular)
    );
    assert_eq!(apply_dock_taskbar_visibility(Platform::Linux, true).policy, None);
    assert_eq!(taskbar_error("x"), "无法更新任务栏显示状态: x");
    assert_eq!(dock_error("x"), "无法更新 Dock 显示状态: x");
}

#[test]
fn showing_the_window_may_need_the_dock() {
    let hidden = Settings::default();
    let shown = set_hide_from_dock_taskbar(hidden, false);
    assert_eq!(show_main_window(Platform::MacOs, hidden), None);
    assert_eq!(
        show_main_window(Platform::MacOs, shown),
        Some(ActivationPolicy::Regular)
    );
    assert_eq!(show_main_window(Platform::Linux, shown), None);
    assert!(click_shows_window(true, true));
    assert!(!click_shows_window(true, false));
    assert!(!click_shows_window(false, true));
}
