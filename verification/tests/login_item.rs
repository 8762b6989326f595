use refind_switcher::autostart::AutostartState;
use refind_switcher::login_item;
use refind_switcher::login_item::{
    begin_set, open_system_settings, state, ItemError, SetReply, SetStage,
};

fn error() -> ItemError {
    ItemError {
        description: "Operation not permitted".to_string(),
        code: -1,
    }
}

#[test]
fn status_is_understood() {
    assert_eq!(state(Some(0)), AutostartState::Disabled);
    assert_eq!(state(Some(1)), AutostartState::Enabled);
    assert_eq!(state(Some(2)), AutostartState::RequiresApproval);
    assert_eq!(state(Some(3)), AutostartState::Disabled);
    assert_eq!(state(Some(4)), AutostartState::Unavailable);
    assert_eq!(state(Some(-1)), AutostartState::Unavailable);
    assert_eq!(state(None), AutostartState::Unavailable);
}

#[test]
fn login_items_need_a_recent_system() {
    assert_eq!(open_system_settings(true), Ok(()));
    assert_eq!(
        open_system_settings(false),
        Err("当前系统版本不支持登录项（需要 macOS 13 及以上）".to_string())
    );
    assert_eq!(
        begin_set(false, true),
        SetStage::Finished(Err(
            "当前系统版本不支持登录项（需要 macOS 13 及以上）".to_string()
        ))
    );
}

#[test]
fn registering_succeeds_at_once() {
    let stage = begin_set(true, true);
    assert_eq!(stage, SetStage::Register);
    let stage = login_item::set(true, stage, SetReply::Done(Ok(())));
    assert_eq!(stage, SetStage::ReadState(Ok(())));
    assert_eq!(
        login_item::set(true, stage, SetReply::State(AutostartState::RequiresApproval)),
        SetStage::Finished(Ok(AutostartState::RequiresApproval))
    );
}

#[test]
fn failed_registering_is_repeated_after_unregistering() {
    let stage = login_item::set(true, begin_set(true, true), SetReply::Done(Err(error())));
    assert_eq!(stage, SetStage::UnregisterStale);
    let stage = login_item::set(true, stage, SetReply::Done(Err(error())));
    assert_eq!(stage, SetStage::RegisterAgain);
    let stage = login_item::set(true, stage, SetReply::Done(Err(error())));
    assert_eq!(
        login_item::set(true, stage, SetReply::State(AutostartState::Disabled)),
        SetStage::Finished(Err(
            "无法开启开机启动: Operation not permitted (code=-1)".to_string()
        ))
    );
}

#[test]
fn error_does_not_count_where_the_state_is_as_wanted() {
    let stage = SetStage::ReadState(Err(error()));
    assert_eq!(
        login_item::set(true, stage, SetReply::State(AutostartState::Enabled)),
        SetStage::Finished(Ok(AutostartState::Enabled))
    );
    let stage = login_item::set(false, begin_set(true, false), SetReply::Done(Err(error())));
    assert_eq!(
        login_item::set(false, stage, SetReply::State(AutostartState::Disabled)),
        SetStage::Finished(Ok(AutostartState::Disabled))
    );
    let stage = SetStage::ReadState(Err(error()));
    assert_eq!(
        login_item::set(false, stage, SetReply::State(AutostartState::Unavailable)),
        SetStage::Finished(Err(
            "无法关闭开机启动: Operation not permitted (code=-1)".to_string()
        ))
    );
}

#[test]
fn stray_reply_changes_nothing() {
    assert_eq!(
        login_item::set(true, SetStage::Register, SetReply::State(AutostartState::Enabled)),
        SetStage::Register
    );
    let ended = SetStage::Finished(Ok(AutostartState::Enabled));
    assert_eq!(
        login_item::set(true, ended, SetReply::Done(Ok(()))),
        SetStage::Finished(Ok(AutostartState::Enabled))
    );
}
