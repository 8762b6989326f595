use refind_switcher::autostart::{
    app_bundle_is_signed, app_bundle_path, autostart_backend, autostart_backend_for,
    autostart_hint, autostart_method, cleanup_legacy_autostart, clear_login_item_failure,
    desktop_file_name, launch_agent_hint, legacy_autostart_set, legacy_autostart_state,
    legacy_launch_agents, login_item_failure, macos_autostart_hint, macos_autostart_set,
    note_login_item_failure, remove_legacy_launch_agents, running_from_app_bundle,
    signature_command, startup_autostart_sync, unload_command, AutostartBackend, AutostartMethod,
    AutostartState, LoginItemNotice, MacEnvironment,
};
use refind_switcher::command::{CommandReply, Platform};

#[test]
fn macos_login_item_backend_requires_signature() {
    // 未签名：系统登录项接口只会返回 “Operation not permitted”，必须走兼容方式。
    assert_eq!(
        autostart_backend_for(true, true, false),
        AutostartBackend::LaunchAgent
    );
    // 未以 .app 形式运行（例如 tauri dev）：同样不能用系统登录项接口。
    assert_eq!(
        autostart_backend_for(true, false, true),
        AutostartBackend::LaunchAgent
    );
    // macOS 12 及以下没有 SMAppService。
    assert_eq!(
        autostart_backend_for(false, true, true),
        AutostartBackend::LaunchAgent
    );
    // 已签名的 .app + macOS 13+ 才用系统登录项。
    assert_eq!(
        autostart_backend_for(true, true, true),
        AutostartBackend::LoginItem
    );
}

#[test]
fn macos_autostart_hint_explains_compatibility_mode() {
    let compatibility = "当前应用没有代码签名".to_string();

    // 兼容方式生效且已开启：提示说明为什么没用系统登录项。
    assert_eq!(
        macos_autostart_hint(
            AutostartState::Enabled,
            AutostartBackend::LaunchAgent,
            None,
            compatibility.clone()
        ),
        Some(compatibility.clone())
    );
    // 走系统登录项且正常：不需要额外提示。
    assert_eq!(
        macos_autostart_hint(
            AutostartState::Enabled,
            AutostartBackend::LoginItem,
            None,
            compatibility.clone()
        ),
        None
    );
    // 没开启时不唠叨兼容方式。
    assert_eq!(
        macos_autostart_hint(
            AutostartState::Disabled,
            AutostartBackend::LaunchAgent,
            None,
            compatibility.clone()
        ),
        None
    );
    // 需要用户在系统设置里批准：优先给可操作的提示。
    assert_eq!(
        macos_autostart_hint(
            AutostartState::RequiresApproval,
            AutostartBackend::LoginItem,
            None,
            compatibility.clone()
        ),
        AutostartState::RequiresApproval.hint().map(str::to_string)
    );
    // 注册失败后退回兼容方式：把失败原因带出来。
    let hint = macos_autostart_hint(
        AutostartState::Enabled,
        AutostartBackend::LaunchAgent,
        Some("Operation not permitted (code=1)".to_string()),
        compatibility,
    )
    .expect("应有提示");
    assert!(hint.contains("Operation not permitted"));
    assert!(hint.contains("兼容方式"));
}

#[test]
fn macos_dev_binary_never_uses_login_item_api() {
    // A development binary lies in no .app and has no signature.
    let bundle = app_bundle_path("/Users/me/refind-switcher/target/debug/deps/refind_switcher-0a1b");
    let in_bundle = running_from_app_bundle(&bundle, false);
    let signed = app_bundle_is_signed(
        in_bundle,
        &CommandReply::Exited {
            success: true,
            code: Some(0),
            stderr: String::new(),
        },
    );
    assert!(!in_bundle);
    assert!(!signed);
    let mac = MacEnvironment {
        supported: true,
        in_bundle,
        signed,
    };
    assert_eq!(autostart_backend(mac), AutostartBackend::LaunchAgent);

    // 开启状态下界面会说明当前用的是兼容方式。
    let hint = autostart_hint(
        Platform::MacOs,
        AutostartState::Enabled,
        mac,
        &LoginItemNotice::new(),
    )
    .expect("应有兼容方式提示");
    assert!(hint.contains("兼容方式"), "实际提示: {hint}");
}

#[test]
fn states_have_names_and_hints() {
    let all = [
        (AutostartState::Enabled, "enabled", true, false),
        (AutostartState::RequiresApproval, "requires-approval", true, true),
        (AutostartState::Disabled, "disabled", false, false),
        (AutostartState::Unavailable, "unavailable", false, true),
    ];
    for (state, name, on, hint) in all {
        assert_eq!(state.as_str(), name);
        assert_eq!(state.is_on(), on);
        assert_eq!(state.hint().is_some(), hint);
    }
    assert_eq!(
        AutostartState::RequiresApproval.hint(),
        Some("已注册登录项，请在「系统设置 → 通用 → 登录项与扩展」中允许本应用")
    );
}

#[test]
fn bundle_lies_three_directories_up() {
    assert_eq!(
        app_bundle_path("/Applications/rEFInd Switcher.app/Contents/MacOS/refind-switcher"),
        Some("/Applications/rEFInd Switcher.app".to_string())
    );
    assert_eq!(
        app_bundle_path("/Applications/X.APP/Contents/MacOS/x"),
        Some("/Applications/X.APP".to_string())
    );
    // A name that is nothing but the extension has none.
    assert_eq!(app_bundle_path("/Applications/.app/Contents/MacOS/x"), None);
    assert_eq!(app_bundle_path("/a/b/c"), None);
    assert_eq!(app_bundle_path("/x"), None);
    assert!(running_from_app_bundle(&Some("/X.app".to_string()), true));
    assert!(!running_from_app_bundle(&Some("/X.app".to_string()), false));
    assert!(!running_from_app_bundle(&None, true));
}

#[test]
fn signature_is_verified_by_codesign() {
    let line = signature_command("/Applications/X.app");
    assert_eq!(line.program, "/usr/bin/codesign");
    assert_eq!(line.args, vec!["--verify", "/Applications/X.app"]);
    let failed = CommandReply::Exited {
        success: false,
        code: Some(1),
        stderr: String::new(),
    };
    let passed = CommandReply::Exited {
        success: true,
        code: Some(0),
        stderr: String::new(),
    };
    assert!(app_bundle_is_signed(true, &passed));
    assert!(!app_bundle_is_signed(true, &failed));
    assert!(!app_bundle_is_signed(true, &CommandReply::NotFound("x".to_string())));
    assert!(!app_bundle_is_signed(true, &CommandReply::Unstarted("x".to_string())));
}

#[test]
fn method_follows_platform() {
    let signed = MacEnvironment {
        supported: true,
        in_bundle: true,
        signed: true,
    };
    let unsigned = MacEnvironment {
        supported: true,
        in_bundle: true,
        signed: false,
    };
    assert_eq!(
        autostart_method(Platform::MacOs, signed),
        AutostartMethod::LoginItem
    );
    assert_eq!(
        autostart_method(Platform::MacOs, unsigned),
        AutostartMethod::Launcher
    );
    assert_eq!(
        autostart_method(Platform::Windows, signed),
        AutostartMethod::Launcher
    );
    assert_eq!(
        autostart_method(Platform::Linux, signed),
        AutostartMethod::DesktopFile
    );
}

#[test]
fn launch_agent_hint_gives_the_reason() {
    assert!(launch_agent_hint(false, false).contains("macOS 13"));
    assert!(launch_agent_hint(true, false).contains(".app"));
    assert!(launch_agent_hint(true, true).contains("没有代码签名"));
}

#[test]
fn login_item_failure_reaches_the_user() {
    let mac = MacEnvironment {
        supported: true,
        in_bundle: true,
        signed: true,
    };
    let mut notice = LoginItemNotice::new();
    assert_eq!(login_item_failure(&notice), None);
    note_login_item_failure(&mut notice, "Operation not permitted");
    assert_eq!(
        login_item_failure(&notice),
        Some("Operation not permitted".to_string())
    );
    assert_eq!(
        autostart_hint(Platform::MacOs, AutostartState::Enabled, mac, &notice),
        Some(
            "系统登录项注册失败（Operation not permitted），已改用兼容方式（~/Library/LaunchAgents）实现开机启动"
                .to_string()
        )
    );
    // Elsewhere only the state is spoken of.
    assert_eq!(
        autostart_hint(Platform::Windows, AutostartState::Enabled, mac, &notice),
        None
    );
    clear_login_item_failure(&mut notice);
    assert_eq!(
        autostart_hint(Platform::MacOs, AutostartState::Enabled, mac, &notice),
        None
    );
}

#[test]
fn failed_login_item_gives_way_to_the_launcher() {
    let mut notice = LoginItemNotice::new();
    assert_eq!(
        macos_autostart_set(&mut notice, Err("denied".to_string())),
        None
    );
    assert_eq!(login_item_failure(&notice), Some("denied".to_string()));
    assert_eq!(
        macos_autostart_set(&mut notice, Ok(AutostartState::Enabled)),
        Some(AutostartState::Enabled)
    );
    assert_eq!(login_item_failure(&notice), None);
}

#[test]
fn launcher_is_asked_for_the_state() {
    assert_eq!(legacy_autostart_state(Ok(true)), AutostartState::Enabled);
    assert_eq!(legacy_autostart_state(Ok(false)), AutostartState::Disabled);
    assert_eq!(
        legacy_autostart_state(Err("x".to_string())),
        AutostartState::Unavailable
    );
    assert_eq!(
        legacy_autostart_set(true, Ok(()), Ok(true)),
        Ok(AutostartState::Enabled)
    );
    assert_eq!(
        legacy_autostart_set(true, Err("denied".to_string()), Ok(true)),
        Err("无法开启开机启动: denied".to_string())
    );
    assert_eq!(
        legacy_autostart_set(false, Err("denied".to_string()), Ok(true)),
        Err("无法关闭开机启动: denied".to_string())
    );
}

#[test]
fn lost_autostart_is_restored_at_startup() {
    assert!(startup_autostart_sync(true, AutostartState::Disabled));
    assert!(!startup_autostart_sync(true, AutostartState::Enabled));
    assert!(!startup_autostart_sync(true, AutostartState::RequiresApproval));
    assert!(!startup_autostart_sync(true, AutostartState::Unavailable));
    assert!(!startup_autostart_sync(false, AutostartState::Disabled));
}

#[test]
fn old_launch_agents_are_removed_only_where_a_login_item_works() {
    assert!(cleanup_legacy_autostart(
        Platform::MacOs,
        AutostartBackend::LoginItem,
        AutostartState::Enabled
    ));
    assert!(!cleanup_legacy_autostart(
        Platform::MacOs,
        AutostartBackend::LaunchAgent,
        AutostartState::Enabled
    ));
    assert!(!cleanup_legacy_autostart(
        Platform::MacOs,
        AutostartBackend::LoginItem,
        AutostartState::RequiresApproval
    ));
    assert!(!cleanup_legacy_autostart(
        Platform::Linux,
        AutostartBackend::LoginItem,
        AutostartState::Enabled
    ));
    assert_eq!(
        legacy_launch_agents("rEFInd Switcher", "com.example.refind"),
        vec![
            "rEFInd Switcher.plist",
            "rEFInd-Switcher.plist",
            "com.example.refind.plist"
        ]
    );
    assert!(remove_legacy_launch_agents(
        "<string>/usr/bin/refind-switcher</string>",
        "rEFInd Switcher"
    ));
    assert!(remove_legacy_launch_agents(
        "<string>rEFInd Switcher</string>",
        "rEFInd Switcher"
    ));
    assert!(!remove_legacy_launch_agents(
        "<string>other</string>",
        "rEFInd Switcher"
    ));
    let line = unload_command("/a b.plist");
    assert_eq!(line.program, "launchctl");
    assert_eq!(line.args, vec!["unload", "--", "/a b.plist"]);
}

#[test]
fn desktop_file_is_named_after_the_app() {
    assert_eq!(desktop_file_name("rEFInd Switcher"), "rEFInd-Switcher.desktop");
    assert_eq!(desktop_file_name("a/b c"), "a-b-c.desktop");
}
