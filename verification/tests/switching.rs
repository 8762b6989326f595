use refind_switcher::command::Platform;
use refind_switcher::digest::{file_hash, hashes_match};
use refind_switcher::menu::{
    initial_menu, menu_action, spawn_menu_action, update_tray_menu, MenuAction, MenuEntry,
};
use refind_switcher::mount::ActiveMount;
use refind_switcher::scan::{ScanError, ScanResult};
use refind_switcher::settings::{set_close_action, Settings};
use refind_switcher::status::{
    begin_refresh, finish_switch, next_boot_message, no_temporary_mount_status, not_ready_status,
    note_menu_error, refresh_and_update, set_vars_dir, state_snapshot, switch_and_update,
    take_temporary_mount, unmount_temporary, update_failure_status, AppState, SwitchDecision,
    SwitchFollowUp,
};
use refind_switcher::switch::{
    atomic_copy, file_action, temporary_target, write_template, CopyStage, FileAction, SwitchReply,
    SwitchStage,
};
use refind_switcher::variables::{
    display_path, inspect_variables, target_path, template_path, BootSystem, TemplateProbe,
    VariableInfo,
};

fn probe(contents: Option<&[u8]>) -> TemplateProbe {
    TemplateProbe {
        exists: contents.is_some(),
        contents: contents.map(|bytes| bytes.to_vec()),
    }
}

fn variables(target: &[u8]) -> Vec<VariableInfo> {
    inspect_variables(
        Platform::Linux,
        "/efi",
        probe(Some(b"linux")),
        probe(Some(b"windows")),
        probe(None),
        &Some(target.to_vec()),
    )
}

fn mount(owned: bool) -> ActiveMount {
    ActiveMount {
        device: "/dev/sda1".to_string(),
        mountpoint: "/tmp/refind-switcher-1".to_string(),
        owned,
    }
}

fn connected(owned: bool) -> AppState {
    let mut state = AppState::default();
    refresh_and_update(
        &mut state,
        Ok(ScanResult {
            vars_dir: "\\\\?\\E:\\EFI\\refind\\vars".to_string(),
            active_mount: Some(mount(owned)),
            variables: variables(b"windows"),
        }),
    );
    state
}

#[test]
fn digests_are_sha256_in_hexadecimal() {
    assert_eq!(
        file_hash(b"abc"),
        "ba7816bf8f01cfea414140de5dae2223b00361a396177a9cb410ff61f20015ad"
    );
    assert_eq!(
        file_hash(b""),
        "e3b0c44298fc1c149afbf4c8996fb92427ae41e4649b934ca495991b7852b855"
    );
    assert!(hashes_match(&Some(vec![1, 2]), &Some(vec![1, 2])));
    assert!(!hashes_match(&Some(vec![1, 2]), &Some(vec![1, 3])));
    assert!(!hashes_match(&None, &Some(vec![1])));
    assert!(!hashes_match(&None, &None));
}

#[test]
fn systems_have_templates() {
    assert_eq!(BootSystem::find("linux"), Some(BootSystem::Linux));
    assert_eq!(BootSystem::find("macos"), Some(BootSystem::MacOs));
    assert_eq!(BootSystem::find("mac"), None);
    assert_eq!(BootSystem::MacOs.source_name(), "PreviousBoot-mac");
    assert_eq!(BootSystem::Windows.display_name(), "Windows");
    assert_eq!(BootSystem::Windows.system(), "windows");
}

#[test]
fn template_with_the_same_digest_is_active() {
    let all = variables(b"windows");
    assert_eq!(all.len(), 3);
    assert_eq!(all[0].system, "linux");
    assert!(all[0].exists && !all[0].active);
    assert!(all[1].exists && all[1].active);
    assert_eq!(all[1].source, "/efi/PreviousBoot-windows");
    assert!(!all[2].exists && !all[2].active);
    assert_eq!(next_boot_message(&all), "下次启动：Windows");
    assert_eq!(
        next_boot_message(&variables(b"else")),
        "已连接 rEFInd；PreviousBoot 未匹配模板"
    );
}

#[test]
fn files_lie_in_the_directory_of_variables() {
    let all = variables(b"linux");
    assert_eq!(all[0].source, "/efi/PreviousBoot-linux");
    assert_eq!(all[2].source, "/efi/PreviousBoot-mac");
    assert_eq!(
        template_path(Platform::Windows, "\\\\?\\E:\\vars", BootSystem::Linux),
        "\\\\?\\E:\\vars\\PreviousBoot-linux"
    );
    assert_eq!(target_path(Platform::MacOs, "/efi/"), "/efi/PreviousBoot");
    assert_eq!(target_path(Platform::Windows, "E:\\"), "E:\\PreviousBoot");
}

#[test]
fn literal_paths_are_shown_plainly() {
    assert_eq!(display_path("\\\\?\\UNC\\server\\share"), "\\\\server\\share");
    assert_eq!(display_path("\\\\?\\C:\\x"), "C:\\x");
    assert_eq!(display_path("/boot/efi"), "/boot/efi");
}

#[test]
fn temporary_file_is_named_after_the_target() {
    assert_eq!(
        temporary_target(Some("PreviousBoot"), 42, 1234567890123456789012),
        ".PreviousBoot.42.1234567890123456789012.tmp"
    );
    assert_eq!(temporary_target(None, 0, 0), ".target.0.0.tmp");
}

#[test]
fn copy_is_synced_and_put_in_place() {
    let stage = atomic_copy(true, CopyStage::Fill, Ok(()));
    assert_eq!(stage, CopyStage::Sync);
    let stage = atomic_copy(true, stage, Ok(()));
    assert_eq!(stage, CopyStage::Replace);
    assert_eq!(
        atomic_copy(true, stage, Ok(())),
        CopyStage::Finished(Ok(()))
    );
    for stage in [CopyStage::Fill, CopyStage::Sync, CopyStage::Replace] {
        let stage = atomic_copy(true, stage, Err("bad".to_string()));
        assert_eq!(stage, CopyStage::RemoveTemporary("bad".to_string()));
        assert_eq!(
            atomic_copy(true, stage, Err("worse".to_string())),
            CopyStage::Finished(Err("bad".to_string()))
        );
    }
}

fn action(stage: &SwitchStage) -> FileAction {
    file_action(BootSystem::Linux, ".tmp", stage)
}

fn next(stage: SwitchStage, reply: SwitchReply) -> SwitchStage {
    write_template(Platform::Linux, "/v", BootSystem::Linux, stage, reply)
}

#[test]
fn template_is_written_and_compared() {
    let source = || "PreviousBoot-linux".to_string();
    let target = || "PreviousBoot".to_string();
    let temporary = || ".tmp".to_string();

    let stage = SwitchStage::CheckSource;
    assert_eq!(action(&stage), FileAction::Check(source()));
    let stage = next(stage, SwitchReply::Found(true));
    assert_eq!(
        action(&stage),
        FileAction::Copy {
            from: source(),
            to: temporary()
        }
    );
    let stage = next(stage, SwitchReply::Step(Ok(())));
    assert_eq!(action(&stage), FileAction::Sync(temporary()));
    let stage = next(stage, SwitchReply::Step(Ok(())));
    assert_eq!(
        action(&stage),
        FileAction::Rename {
            from: temporary(),
            to: target()
        }
    );
    let stage = next(stage, SwitchReply::Step(Ok(())));
    assert_eq!(
        action(&stage),
        FileAction::Compare {
            left: source(),
            right: target()
        }
    );
    let stage = next(
        stage,
        SwitchReply::Contents {
            source: Some(vec![1]),
            target: Some(vec![1]),
        },
    );
    assert_eq!(stage, SwitchStage::Finished(Ok(())));
    assert_eq!(action(&stage), FileAction::Nothing);
}

#[test]
fn failures_of_writing_are_told() {
    assert_eq!(
        next(SwitchStage::CheckSource, SwitchReply::Found(false)),
        SwitchStage::Finished(Err("变量文件不存在: /v/PreviousBoot-linux".to_string()))
    );
    let stage = next(
        SwitchStage::Copying(CopyStage::Sync),
        SwitchReply::Step(Err("full".to_string())),
    );
    assert_eq!(action(&stage), FileAction::Remove(".tmp".to_string()));
    assert_eq!(
        next(stage, SwitchReply::Step(Ok(()))),
        SwitchStage::Finished(Err("写入失败: full".to_string()))
    );
    assert_eq!(
        next(
            SwitchStage::Verify,
            SwitchReply::Contents {
                source: Some(vec![1]),
                target: None
            }
        ),
        SwitchStage::Finished(Err("写入失败: 写入校验失败: /v/PreviousBoot".to_string()))
    );
    // A reply that does not belong to the stage changes nothing.
    assert_eq!(
        next(SwitchStage::Verify, SwitchReply::Found(true)),
        SwitchStage::Verify
    );
}

#[test]
fn refresh_shows_what_was_found() {
    let mut state = AppState::default();
    let status = refresh_and_update(
        &mut state,
        Ok(ScanResult {
            vars_dir: "\\\\?\\E:\\vars".to_string(),
            active_mount: Some(mount(true)),
            variables: variables(b"linux"),
        }),
    );
    assert_eq!(status.vars_dir, Some("E:\\vars".to_string()));
    assert!(status.temporary_mount);
    assert_eq!(status.message, "下次启动：Linux");
    assert_eq!(status.error, None);
    assert_eq!(state.vars_dir, Some("\\\\?\\E:\\vars".to_string()));
    assert_eq!(state_snapshot(&state), status);
}

#[test]
fn failed_refresh_shows_the_error() {
    let mut state = connected(true);
    set_vars_dir(&mut state, Some("/nowhere".to_string()));
    let (explicit, old) = begin_refresh(&mut state);
    assert_eq!(explicit, Some("/nowhere".to_string()));
    assert_eq!(old, Some(mount(true)));
    let status = refresh_and_update(
        &mut state,
        Err(ScanError::MissingDirectory("/nowhere".to_string())),
    );
    assert_eq!(status.vars_dir, None);
    assert!(status.variables.is_empty());
    assert_eq!(status.message, "未找到可用的 rEFInd 变量目录");
    assert_eq!(
        status.error,
        Some("rEFInd 变量目录不存在: /nowhere".to_string())
    );
    assert_eq!(state_snapshot(&state), status);
    assert_eq!(state.explicit_dir, Some("/nowhere".to_string()));
}

#[test]
fn menu_error_does_not_hide_another() {
    let mut status = state_snapshot(&connected(false));
    note_menu_error(&mut status, "first".to_string());
    assert_eq!(status.error, Some("first".to_string()));
    note_menu_error(&mut status, "second".to_string());
    assert_eq!(status.error, Some("first".to_string()));
}

#[test]
fn blank_directory_asks_for_none() {
    let mut state = AppState::default();
    set_vars_dir(&mut state, Some(" /efi ".to_string()));
    assert_eq!(state.explicit_dir, Some(" /efi ".to_string()));
    set_vars_dir(&mut state, Some(" \t\u{3000}".to_string()));
    assert_eq!(state.explicit_dir, None);
    set_vars_dir(&mut state, Some("/efi".to_string()));
    set_vars_dir(&mut state, None);
    assert_eq!(state.explicit_dir, None);
}

#[test]
fn switching_needs_a_system_and_a_directory() {
    let state = connected(true);
    match switch_and_update(&state, "beos") {
        SwitchDecision::Unknown(status) => {
            assert_eq!(status.error, Some("未知系统: beos".to_string()));
            assert!(status.temporary_mount);
            assert_eq!(status.message, "下次启动：Windows");
        }
        other => panic!("{other:?}"),
    }
    assert_eq!(
        switch_and_update(&state, "linux"),
        SwitchDecision::Write {
            system: BootSystem::Linux,
            directory: "\\\\?\\E:\\EFI\\refind\\vars".to_string(),
            active_mount: Some(mount(true)),
        }
    );
    let empty = AppState::default();
    assert_eq!(switch_and_update(&empty, "linux"), SwitchDecision::NotReady);
    assert_eq!(
        not_ready_status(&empty).error,
        Some("变量目录尚未就绪".to_string())
    );
}

#[test]
fn successful_switch_is_followed_by_a_refresh() {
    for system in [BootSystem::Linux, BootSystem::Windows, BootSystem::MacOs] {
        assert_eq!(finish_switch(system, Ok(())), SwitchFollowUp::Refresh);
    }
}

#[test]
fn failed_switch_is_noted() {
    let mut state = connected(false);
    let follow_up = finish_switch(BootSystem::MacOs, Err("full".to_string()));
    assert_eq!(
        follow_up,
        SwitchFollowUp::Fail {
            message: "切换 macOS 失败".to_string(),
            error: "full".to_string()
        }
    );
    let status = update_failure_status(&mut state, "切换 macOS 失败", "full".to_string());
    assert_eq!(
        status.vars_dir,
        Some("\\\\?\\E:\\EFI\\refind\\vars".to_string())
    );
    assert!(!status.temporary_mount);
    assert_eq!(status.message, "切换 macOS 失败");
    assert_eq!(status.error, Some("full".to_string()));
    assert_eq!(state.message, "切换 macOS 失败");
    assert_eq!(state.error, Some("full".to_string()));
    assert_eq!(state.variables.len(), 3);
}

#[test]
fn only_own_mounts_are_unmounted() {
    let mut state = connected(false);
    assert_eq!(take_temporary_mount(&mut state), None);
    assert_eq!(state.active_mount, Some(mount(false)));
    let status = no_temporary_mount_status(&state);
    assert_eq!(status.message, "没有应用创建的临时挂载");
    assert_eq!(status.error, None);
    assert_eq!(status.variables.len(), 3);
}

#[test]
fn unmounting_forgets_the_directory() {
    let mut state = connected(true);
    let taken = take_temporary_mount(&mut state).unwrap();
    let status = unmount_temporary(&mut state, taken, Ok(()));
    assert_eq!(status.message, "已卸载应用创建的临时挂载");
    assert_eq!(status.vars_dir, None);
    assert_eq!(state_snapshot(&state), status);
    assert_eq!(state.active_mount, None);
}

#[test]
fn failed_unmounting_keeps_everything() {
    let mut state = connected(true);
    let taken = take_temporary_mount(&mut state).unwrap();
    assert_eq!(state.active_mount, None);
    let status = unmount_temporary(&mut state, taken, Err("busy".to_string()));
    assert_eq!(status.message, "卸载临时挂载失败");
    assert_eq!(
        status.error,
        Some("无法卸载 /tmp/refind-switcher-1: busy".to_string())
    );
    assert!(status.temporary_mount);
    assert_eq!(state, connected(true));
}

fn ids(entries: &[MenuEntry]) -> Vec<String> {
    entries
        .iter()
        .map(|entry| match entry {
            MenuEntry::Item { id, .. } => id.clone(),
            MenuEntry::Check(check) => check.id.clone(),
            MenuEntry::Separator => "-".to_string(),
            MenuEntry::Submenu { id, .. } => id.clone(),
        })
        .collect()
}

#[test]
fn menu_shows_the_state() {
    let settings = set_close_action(Settings::default(), "quit").unwrap();
    let (entries, tip) = update_tray_menu(&connected(true), settings);
    assert_eq!(
        ids(&entries),
        vec![
            "status",
            "-",
            "linux",
            "windows",
            "macos",
            "-",
            "unmount-temporary",
            "show",
            "-",
            "settings-label",
            "setting-autostart",
            "setting-start-in-tray",
            "setting-hide-from-dock-taskbar",
            "setting-close-action",
            "refresh",
            "restart",
            "quit",
        ]
    );
    assert_eq!(
        entries[0],
        MenuEntry::Item {
            id: "status".to_string(),
            label: "下次启动：Windows".to_string(),
            enabled: false
        }
    );
    assert_eq!(
        entries[3],
        MenuEntry::Item {
            id: "windows".to_string(),
            label: "● Windows".to_string(),
            enabled: true
        }
    );
    assert_eq!(
        entries[4],
        MenuEntry::Item {
            id: "macos".to_string(),
            label: "macOS".to_string(),
            enabled: false
        }
    );
    match &entries[13] {
        MenuEntry::Submenu { label, entries, .. } => {
            assert_eq!(label, "点击窗口 ❌ 时");
            assert_eq!(entries[0].id, "setting-close-action:tray");
            assert!(!entries[0].checked);
            assert_eq!(entries[1].id, "setting-close-action:quit");
            assert!(entries[1].checked);
        }
        other => panic!("{other:?}"),
    }
    match &entries[12] {
        MenuEntry::Check(check) => {
            assert_eq!(check.label, "隐藏程序（任务栏/Dock）");
            assert!(check.checked);
        }
        other => panic!("{other:?}"),
    }
    assert_eq!(tip, "rEFInd 启动切换器：下次启动：Windows");
}

#[test]
fn tooltip_tells_the_error() {
    let mut state = connected(false);
    update_failure_status(&mut state, "m", "broken".to_string());
    let (entries, tip) = update_tray_menu(&state, Settings::default());
    assert_eq!(tip, "broken");
    assert_eq!(entries.len(), 16);
    assert!(!ids(&entries).contains(&"unmount-temporary".to_string()));
}

#[test]
fn first_menu_is_short() {
    let entries = initial_menu();
    assert_eq!(ids(&entries), vec!["status", "show", "refresh", "quit"]);
    assert_eq!(
        entries[0],
        MenuEntry::Item {
            id: "status".to_string(),
            label: "正在扫描…".to_string(),
            enabled: false
        }
    );
}

#[test]
fn every_entry_that_can_be_chosen_does_something() {
    let (entries, _) = update_tray_menu(&connected(true), Settings::default());
    for entry in entries {
        match entry {
            MenuEntry::Item { id, enabled, .. } => {
                assert!(!enabled || menu_action(&id) != MenuAction::Nothing, "{id}");
            }
            MenuEntry::Check(check) => {
                assert_ne!(menu_action(&check.id), MenuAction::Nothing, "{}", check.id);
            }
            MenuEntry::Separator => {}
            MenuEntry::Submenu { entries, .. } => {
                for check in entries {
                    assert_ne!(menu_action(&check.id), MenuAction::Nothing, "{}", check.id);
                }
            }
        }
    }
}

#[test]
fn entries_have_actions() {
    assert_eq!(menu_action("show"), MenuAction::Show);
    assert_eq!(spawn_menu_action("show"), MenuAction::Nothing);
    assert_eq!(menu_action("refresh"), MenuAction::Refresh);
    assert_eq!(menu_action("unmount-temporary"), MenuAction::UnmountTemporary);
    assert_eq!(menu_action("setting-autostart"), MenuAction::ToggleAutostart);
    assert_eq!(
        menu_action("setting-start-in-tray:true"),
        MenuAction::UpdateSetting {
            setting: "setting-start-in-tray".to_string(),
            enabled: true
        }
    );
    assert_eq!(
        menu_action("setting-close-action:false"),
        MenuAction::UpdateSetting {
            setting: "setting-close-action".to_string(),
            enabled: false
        }
    );
    assert_eq!(
        menu_action("setting-close-action:quit"),
        MenuAction::UpdateCloseAction("quit".to_string())
    );
    assert_eq!(menu_action("quit"), MenuAction::Quit);
    assert_eq!(menu_action("restart"), MenuAction::Restart);
    for system in ["linux", "windows", "macos"] {
        assert_eq!(menu_action(system), MenuAction::Switch(system.to_string()));
    }
    assert_eq!(menu_action("status"), MenuAction::Nothing);
    for setting in ["setting-start-in-tray", "setting-hide-from-dock-taskbar"] {
        assert_eq!(
            menu_action(setting),
            MenuAction::ToggleSetting(setting.to_string())
        );
    }
    assert_eq!(menu_action("setting-close-action"), MenuAction::Nothing);
    assert_eq!(menu_action("setting-other"), MenuAction::Nothing);
    assert_eq!(menu_action(""), MenuAction::Nothing);
}
