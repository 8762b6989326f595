//! Login items of macOS: what their status means, and how one is registered.
use vstd::prelude::*;
use vstd::string::*;

use crate::autostart;
use crate::autostart::AutostartState;
use crate::command;
use crate::number;
use crate::text;

verus! {

// ---------------------------------------------------------------------------
// State
// ---------------------------------------------------------------------------

/// What a status means. A login item that is not found was registered by a
/// bundle that has since been replaced or moved: it is to be registered anew, as
/// one that is not registered.
pub open spec fn meaning(status: Option<i64>) -> AutostartState {
    match status {
        Some(0) => AutostartState::Disabled,
        Some(1) => AutostartState::Enabled,
        Some(2) => AutostartState::RequiresApproval,
        Some(3) => AutostartState::Disabled,
        _ => AutostartState::Unavailable,
    }
}

/// The state from the status that the system gives, which it does only where it
/// has login items.
pub fn state(status: Option<i64>) -> (r: AutostartState)
    ensures
        r == meaning(status),
{
    match status {
        Some(status) => if status == 1 {
            AutostartState::Enabled
        } else if status == 2 {
            AutostartState::RequiresApproval
        } else if status == 0 || status == 3 {
            AutostartState::Disabled
        } else {
            AutostartState::Unavailable
        },
        None => AutostartState::Unavailable,
    }
}

/// What is said where the system has no login items.
pub const UNSUPPORTED: &'static str = "当前系统版本不支持登录项（需要 macOS 13 及以上）";

/// Whether the system's settings for login items can be opened.
pub fn open_system_settings(supported: bool) -> (r: Result<(), String>)
    ensures
        command::outcome(r) == if supported {
            Ok::<(), Seq<char>>(())
        } else {
            Err(UNSUPPORTED@)
        },
{
    if supported {
        Ok(())
    } else {
        Err(UNSUPPORTED.to_owned())
    }
}

// ---------------------------------------------------------------------------
// Registering
// ---------------------------------------------------------------------------

/// What the system says of a failure.
#[derive(Debug, PartialEq, Eq)]
pub struct ItemError {
    pub description: String,
    pub code: i64,
}

/// What an `ItemError` says.
pub struct ItemErrorView {
    pub description: Seq<char>,
    pub code: int,
}

impl DeepView for ItemError {
    type V = ItemErrorView;

    open spec fn deep_view(&self) -> ItemErrorView {
        ItemErrorView { description: self.description@, code: self.code as int }
    }
}

/// What a result with an `ItemError` says.
pub open spec fn item_result(result: Result<(), ItemError>) -> Result<(), ItemErrorView> {
    match result {
        Ok(_) => Ok(()),
        Err(error) => Err(error.deep_view()),
    }
}

/// What is to be done next in registering or unregistering.
#[derive(Debug, PartialEq, Eq)]
pub enum SetStage {
    Register,
    Unregister,
    /// Unregister what may be left of an earlier bundle, which can keep a new one
    /// from being registered.
    UnregisterStale,
    RegisterAgain,
    /// Ask for the state; this came of the last attempt.
    ReadState(Result<(), ItemError>),
    /// Nothing more: all has ended so.
    Finished(Result<AutostartState, String>),
}

/// What a `SetStage` says.
pub enum SetView {
    Register,
    Unregister,
    UnregisterStale,
    RegisterAgain,
    ReadState(Result<(), ItemErrorView>),
    Finished(Result<AutostartState, Seq<char>>),
}

impl DeepView for SetStage {
    type V = SetView;

    open spec fn deep_view(&self) -> SetView {
        match *self {
            SetStage::Register => SetView::Register,
            SetStage::Unregister => SetView::Unregister,
            SetStage::UnregisterStale => SetView::UnregisterStale,
            SetStage::RegisterAgain => SetView::RegisterAgain,
            SetStage::ReadState(result) => SetView::ReadState(item_result(result)),
            SetStage::Finished(result) => SetView::Finished(command::outcome(result)),
        }
    }
}

/// What came of a stage.
#[derive(Debug, PartialEq, Eq)]
pub enum SetReply {
    /// How registering or unregistering ended.
    Done(Result<(), ItemError>),
    /// The state.
    State(AutostartState),
}

/// What a `SetReply` says.
pub enum SetReplyView {
    Done(Result<(), ItemErrorView>),
    State(AutostartState),
}

impl DeepView for SetReply {
    type V = SetReplyView;

    open spec fn deep_view(&self) -> SetReplyView {
        match *self {
            SetReply::Done(result) => SetReplyView::Done(item_result(result)),
            SetReply::State(state) => SetReplyView::State(state),
        }
    }
}

/// The first stage.
pub open spec fn first_set_stage(supported: bool, enabled: bool) -> SetView {
    if !supported {
        SetView::Finished(Err(UNSUPPORTED@))
    } else if enabled {
        SetView::Register
    } else {
        SetView::Unregister
    }
}

/// The first stage of turning a login item on or off.
pub fn begin_set(supported: bool, enabled: bool) -> (r: SetStage)
    ensures
        r.deep_view() == first_set_stage(supported, enabled),
{
    if !supported {
        SetStage::Finished(Err(UNSUPPORTED.to_owned()))
    } else if enabled {
        SetStage::Register
    } else {
        SetStage::Unregister
    }
}

/// The state is the one that was wanted.
pub open spec fn as_wanted(enabled: bool, state: AutostartState) -> bool {
    if enabled {
        state.on()
    } else {
        state == AutostartState::Disabled
    }
}

/// What comes of it all: an error counts only where the state is not the one that
/// was wanted.
pub open spec fn concluded(
    enabled: bool,
    result: Result<(), ItemErrorView>,
    state: AutostartState,
) -> Result<AutostartState, Seq<char>> {
    match result {
        Err(error) if !as_wanted(enabled, state) => Err(
            "无法"@ + autostart::deed(enabled) + "开机启动: "@ + error.description + " (code="@
                + number::signed_numeral(error.code) + ")"@,
        ),
        _ => Ok(state),
    }
}

/// What follows a stage once `reply` has come of it. A reply that does not belong
/// to the stage changes nothing.
pub open spec fn next_set_stage(enabled: bool, stage: SetView, reply: SetReplyView) -> SetView {
    match (stage, reply) {
        (SetView::Register, SetReplyView::Done(Err(_))) => SetView::UnregisterStale,
        (SetView::Register, SetReplyView::Done(Ok(_))) => SetView::ReadState(Ok(())),
        (SetView::Unregister, SetReplyView::Done(result)) => SetView::ReadState(result),
        (SetView::UnregisterStale, SetReplyView::Done(_)) => SetView::RegisterAgain,
        (SetView::RegisterAgain, SetReplyView::Done(result)) => SetView::ReadState(result),
        (SetView::ReadState(result), SetReplyView::State(state)) => SetView::Finished(
            concluded(enabled, result, state),
        ),
        _ => stage,
    }
}

/// What comes of it all.
fn conclude(enabled: bool, result: Result<(), ItemError>, state: AutostartState) -> (r: Result<
    AutostartState,
    String,
>)
    ensures
        command::outcome(r) == concluded(enabled, item_result(result), state),
{
    match result {
        Ok(_) => Ok(state),
        Err(error) => {
            let wanted: bool = if enabled {
                state.is_on()
            } else {
                state == AutostartState::Disabled
            };
            if wanted {
                return Ok(state);
            }
            let mut message: String = text::concat3(
                "无法",
                autostart::deed_text(enabled),
                "开机启动: ",
            );
            message.append(error.description.as_str());
            message.append(" (code=");
            message.append(number::signed_decimal(error.code).as_str());
            message.append(")");
            Err(message)
        },
    }
}

/// What follows `stage` in turning a login item on or off, once `reply` has come
/// of it.
pub fn set(enabled: bool, stage: SetStage, reply: SetReply) -> (r: SetStage)
    ensures
        r.deep_view() == next_set_stage(enabled, stage.deep_view(), reply.deep_view()),
{
    match (stage, reply) {
        (SetStage::Register, SetReply::Done(result)) => match result {
            Err(_) => SetStage::UnregisterStale,
            Ok(_) => SetStage::ReadState(Ok(())),
        },
        (SetStage::Unregister, SetReply::Done(result)) => SetStage::ReadState(result),
        (SetStage::UnregisterStale, SetReply::Done(_)) => SetStage::RegisterAgain,
        (SetStage::RegisterAgain, SetReply::Done(result)) => SetStage::ReadState(result),
        (SetStage::ReadState(result), SetReply::State(state)) => SetStage::Finished(
            conclude(enabled, result, state),
        ),
        (other, _) => other,
    }
}

// ---------------------------------------------------------------------------
// Laws
// ---------------------------------------------------------------------------

/// Where registering fails, it is tried a second time after unregistering, and
/// the second attempt decides.
pub proof fn law_registering_is_tried_twice(
    error: ItemErrorView,
    unregistered: Result<(), ItemErrorView>,
    again: Result<(), ItemErrorView>,
    state: AutostartState,
)
    ensures
        ({
            let first = next_set_stage(
                true,
                first_set_stage(true, true),
                SetReplyView::Done(Err(error)),
            );
            let second = next_set_stage(true, first, SetReplyView::Done(unregistered));
            let third = next_set_stage(true, second, SetReplyView::Done(again));
            &&& first == SetView::UnregisterStale
            &&& second == SetView::RegisterAgain
            &&& third == SetView::ReadState(again)
            &&& next_set_stage(true, third, SetReplyView::State(state)) == SetView::Finished(
                concluded(true, again, state),
            )
        }),
{
}

/// Turning a login item off is tried once.
pub proof fn law_unregistering_is_tried_once(
    result: Result<(), ItemErrorView>,
    state: AutostartState,
)
    ensures
        ({
            let first = next_set_stage(
                false,
                first_set_stage(true, false),
                SetReplyView::Done(result),
            );
            &&& first == SetView::ReadState(result)
            &&& next_set_stage(false, first, SetReplyView::State(state)) == SetView::Finished(
                concluded(false, result, state),
            )
        }),
{
}

/// Whatever went wrong, there is no error where the state is the one that was
/// wanted; and where nothing went wrong, there is none.
pub proof fn law_wanted_state_is_no_error(
    enabled: bool,
    result: Result<(), ItemErrorView>,
    state: AutostartState,
)
    ensures
        concluded(enabled, result, state) is Err <==> result is Err && !as_wanted(enabled, state),
        concluded(enabled, result, state) is Ok ==> concluded(enabled, result, state) == Ok::<
            AutostartState,
            Seq<char>,
        >(state),
{
}

/// A login item that the system no longer finds, for the app was replaced or moved,
/// is registered anew at startup if it is wanted; one that the user has yet to
/// approve is left alone.
pub proof fn law_moved_app_is_registered_anew(desired: bool)
    ensures
        autostart::to_be_restored(desired, meaning(Some(3))) <==> desired,
        !autostart::to_be_restored(desired, meaning(Some(2))),
{
}

/// Every status has its meaning; one that is not known, or that the system does not give,
/// tells nothing.
pub proof fn law_status_is_understood(status: i64)
    ensures
        meaning(Some(status)) == AutostartState::Enabled <==> status == 1,
        meaning(Some(status)) == AutostartState::RequiresApproval <==> status == 2,
        meaning(Some(status)) == AutostartState::Disabled <==> status == 0 || status == 3,
        meaning(None) == AutostartState::Unavailable,
{
}

/// What is said of a failure names what was tried, the reason and its number.
pub proof fn law_failure_is_said_with_its_number(error: ItemErrorView, state: AutostartState)
    ensures
        !state.on() ==> concluded(true, Err(error), state) == Err::<AutostartState, Seq<char>>(
            "无法"@ + "开启"@ + "开机启动: "@ + error.description + " (code="@
                + number::signed_numeral(error.code) + ")"@,
        ),
        state != AutostartState::Disabled ==> concluded(false, Err(error), state) == Err::<
            AutostartState,
            Seq<char>,
        >(
            "无法"@ + "关闭"@ + "开机启动: "@ + error.description + " (code="@
                + number::signed_numeral(error.code) + ")"@,
        ),
        state.on() ==> concluded(true, Err(error), state) == Ok::<AutostartState, Seq<char>>(state),
        concluded(false, Err(error), AutostartState::Disabled) == Ok::<AutostartState, Seq<char>>(
            AutostartState::Disabled,
        ),
{
}

/// Where registering succeeds at once, the state is read and is the result; where the
/// system has no login items, nothing is tried.
pub proof fn law_registering_may_succeed_at_once(enabled: bool, state: AutostartState)
    ensures
        first_set_stage(false, enabled) == SetView::Finished(
            Err("当前系统版本不支持登录项（需要 macOS 13 及以上）"@),
        ),
        first_set_stage(true, true) is Register,
        first_set_stage(true, false) is Unregister,
        next_set_stage(true, SetView::Register, SetReplyView::Done(Ok(()))) == SetView::ReadState(
            Ok(()),
        ),
        next_set_stage(enabled, SetView::ReadState(Ok(())), SetReplyView::State(state))
            == SetView::Finished(Ok(state)),
{
}

/// Where registering fails, what is registered is taken back, whether or not that succeeds,
/// and it is tried once more; the result of that, or of taking back what is not wanted, is
/// held against the state that is read then.
pub proof fn law_registering_is_tried_once_more(
    enabled: bool,
    error: ItemErrorView,
    result: Result<(), ItemErrorView>,
    state: AutostartState,
)
    ensures
        next_set_stage(enabled, SetView::Register, SetReplyView::Done(Err(error)))
            is UnregisterStale,
        next_set_stage(enabled, SetView::UnregisterStale, SetReplyView::Done(result))
            is RegisterAgain,
        next_set_stage(enabled, SetView::RegisterAgain, SetReplyView::Done(result))
            == SetView::ReadState(result),
        next_set_stage(enabled, SetView::Unregister, SetReplyView::Done(result))
            == SetView::ReadState(result),
        next_set_stage(enabled, SetView::ReadState(result), SetReplyView::State(state))
            == SetView::Finished(concluded(enabled, result, state)),
{
}

/// A stage goes on only by a reply of its own kind; what has come to its end stays there.
pub proof fn law_login_item_waits_for_its_reply(enabled: bool, stage: SetView, reply: SetReplyView)
    requires
        stage is ReadState ==> !(reply is State),
        !(stage is ReadState) ==> stage is Finished || !(reply is Done),
    ensures
        next_set_stage(enabled, stage, reply) == stage,
{
}

} // verus!
