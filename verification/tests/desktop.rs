use refind_switcher::autostart::AutostartState;
use refind_switcher::desktop::{
    desktop_entry, is_stale, linux_autostart_directory, linux_autostart_file, linux_autostart_set,
    linux_autostart_state, shell_quote, EntryReply, EntryStage, Located,
};

#[test]
fn words_are_quoted_for_a_shell() {
    assert_eq!(shell_quote("/usr/bin/app"), "'/usr/bin/app'");
    assert_eq!(shell_quote(""), "''");
    assert_eq!(shell_quote("it's here"), "'it'\\''s here'");
}

#[test]
fn directory_is_that_of_the_session_user() {
    assert_eq!(
        linux_autostart_directory(false, None, Ok("/home/me".to_string())),
        Ok("/home/me/.config/autostart".to_string())
    );
    assert_eq!(
        linux_autostart_directory(
            true,
            Some("/home/you".to_string()),
            Ok("/root".to_string())
        ),
        Ok("/home/you/.config/autostart".to_string())
    );
    assert_eq!(
        linux_autostart_directory(true, None, Ok("/root".to_string())),
        Err("无法识别当前登录用户".to_string())
    );
    assert_eq!(
        linux_autostart_directory(false, None, Err("no home".to_string())),
        Err("无法定位用户主目录: no home".to_string())
    );
}

#[test]
fn file_stands_in_its_directory() {
    assert_eq!(
        linux_autostart_file("/home/me/.config/autostart", Ok(()), "rEFInd Switcher"),
        Ok("/home/me/.config/autostart/rEFInd-Switcher.desktop".to_string())
    );
    assert_eq!(
        linux_autostart_file("/x", Err("denied".to_string()), "a"),
        Err("无法创建自启动目录: denied".to_string())
    );
}

#[test]
fn file_tells_the_state() {
    assert_eq!(linux_autostart_state(Ok(true)), AutostartState::Enabled);
    assert_eq!(linux_autostart_state(Ok(false)), AutostartState::Disabled);
    assert_eq!(
        linux_autostart_state(Err("x".to_string())),
        AutostartState::Unavailable
    );
}

#[test]
fn entry_holds_the_quoted_program() {
    let entry = desktop_entry("rEFInd Switcher", "/opt/my app/x");
    assert_eq!(
        entry,
        "[Desktop Entry]\nType=Application\nVersion=1.0\nName=rEFInd Switcher\nComment=rEFInd Switcher\nExec='/opt/my app/x' --from-autostart\nStartupNotify=false\nTerminal=false\nX-GNOME-Autostart-enabled=true\n"
    );
    assert!(!is_stale(&entry));
    assert!(is_stale("[Desktop Entry]\nName=other\n"));
    assert!(!is_stale("Exec=/usr/bin/refind-switcher"));
}

fn next(enabled: bool, stage: EntryStage, reply: EntryReply) -> EntryStage {
    linux_autostart_set("rEFInd Switcher", enabled, stage, reply)
}

#[test]
fn turning_on_writes_the_entry() {
    let stage = next(true, EntryStage::Inspect, EntryReply::Contents(None));
    assert_eq!(stage, EntryStage::Locate);
    let stage = next(
        true,
        stage,
        EntryReply::Program(Located::Found {
            executable: "/usr/bin/x".to_string(),
            image: None,
        }),
    );
    assert_eq!(
        stage,
        EntryStage::Write(desktop_entry("rEFInd Switcher", "/usr/bin/x"))
    );
    assert_eq!(
        next(true, stage, EntryReply::Done(Ok(()))),
        EntryStage::Finished(Ok(AutostartState::Enabled))
    );
    assert_eq!(
        next(
            true,
            EntryStage::Write(String::new()),
            EntryReply::Done(Err("full".to_string()))
        ),
        EntryStage::Finished(Err("无法写入用户自启动项: full".to_string()))
    );
}

#[test]
fn image_is_started_in_place_of_its_program() {
    assert_eq!(
        next(
            true,
            EntryStage::Locate,
            EntryReply::Program(Located::Found {
                executable: "/tmp/.mount/x".to_string(),
                image: Some("/home/me/x.AppImage".to_string()),
            })
        ),
        EntryStage::Write(desktop_entry("rEFInd Switcher", "/home/me/x.AppImage"))
    );
}

#[test]
fn program_must_be_found() {
    assert_eq!(
        next(
            true,
            EntryStage::Locate,
            EntryReply::Program(Located::Unknown("a".to_string()))
        ),
        EntryStage::Finished(Err("无法定位当前程序: a".to_string()))
    );
    assert_eq!(
        next(
            true,
            EntryStage::Locate,
            EntryReply::Program(Located::Unresolved("b".to_string()))
        ),
        EntryStage::Finished(Err("无法解析当前程序路径: b".to_string()))
    );
}

#[test]
fn foreign_entry_is_removed_first() {
    let stage = next(
        true,
        EntryStage::Inspect,
        EntryReply::Contents(Some("Name=other".to_string())),
    );
    assert_eq!(stage, EntryStage::RemoveStale);
    assert_eq!(
        next(true, stage, EntryReply::Done(Err("x".to_string()))),
        EntryStage::Locate
    );
    assert_eq!(
        next(
            true,
            EntryStage::Inspect,
            EntryReply::Contents(Some("refind-switcher".to_string()))
        ),
        EntryStage::Locate
    );
}

#[test]
fn turning_off_removes_the_entry() {
    let stage = next(false, EntryStage::Inspect, EntryReply::Contents(None));
    assert_eq!(stage, EntryStage::CheckExists);
    assert_eq!(
        next(false, EntryStage::CheckExists, EntryReply::Exists(false)),
        EntryStage::Finished(Ok(AutostartState::Disabled))
    );
    let stage = next(false, stage, EntryReply::Exists(true));
    assert_eq!(stage, EntryStage::Remove);
    assert_eq!(
        next(false, EntryStage::Remove, EntryReply::Done(Ok(()))),
        EntryStage::Finished(Ok(AutostartState::Disabled))
    );
    assert_eq!(
        next(
            false,
            EntryStage::Remove,
            EntryReply::Done(Err("denied".to_string()))
        ),
        EntryStage::Finished(Err("无法关闭开机启动: denied".to_string()))
    );
}
