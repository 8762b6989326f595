//! The main window: when it shows, when it hides, and how the switcher appears in
//! the taskbar and the dock.
use vstd::prelude::*;
use vstd::string::*;

use crate::command::Platform;
use crate::settings::{CloseAction, Settings};
use crate::text;

verus! {

/// The label of the main window.
pub const MAIN_WINDOW_LABEL: &'static str = "main";

/// How the switcher appears in the dock of macOS.
#[derive(Clone, Copy, Debug, PartialEq, Eq, Structural)]
pub enum ActivationPolicy {
    /// As an app with a place in the dock.
    Regular,
    /// Without one.
    Accessory,
}

/// The policy that hides the switcher or shows it.
pub open spec fn policy(hide: bool) -> ActivationPolicy {
    if hide {
        ActivationPolicy::Accessory
    } else {
        ActivationPolicy::Regular
    }
}

/// The policy that hides the switcher or shows it.
fn policy_for(hide: bool) -> (r: ActivationPolicy)
    ensures
        r == policy(hide),
{
    if hide {
        ActivationPolicy::Accessory
    } else {
        ActivationPolicy::Regular
    }
}

/// What closing a window leads to.
#[derive(Clone, Copy, Debug, PartialEq, Eq, Structural)]
pub enum CloseResponse {
    /// The window closes.
    Close,
    /// The window stays, and the switcher ends.
    Quit,
    /// The window hides, and on macOS the policy changes.
    Hide(Option<ActivationPolicy>),
}

/// What closing a window leads to: only the main window is kept from closing.
pub open spec fn close_response(
    platform: Platform,
    label: Seq<char>,
    settings: Settings,
) -> CloseResponse {
    if label != MAIN_WINDOW_LABEL@ {
        CloseResponse::Close
    } else if settings.close_action == CloseAction::Quit {
        CloseResponse::Quit
    } else if platform == Platform::MacOs {
        CloseResponse::Hide(Some(ActivationPolicy::Accessory))
    } else {
        CloseResponse::Hide(None)
    }
}

/// What closing the window `label` leads to.
pub fn close_requested(platform: Platform, label: &str, settings: Settings) -> (r: CloseResponse)
    ensures
        r == close_response(platform, label@, settings),
{
    if !text::same_text(label, MAIN_WINDOW_LABEL) {
        CloseResponse::Close
    } else if settings.close_action == CloseAction::Quit {
        CloseResponse::Quit
    } else if platform == Platform::MacOs {
        CloseResponse::Hide(Some(ActivationPolicy::Accessory))
    } else {
        CloseResponse::Hide(None)
    }
}

/// The policy to be set before the main window is shown, if one is.
pub open spec fn policy_to_show(platform: Platform, settings: Settings) -> Option<
    ActivationPolicy,
> {
    if platform == Platform::MacOs && !settings.hide_from_dock_taskbar {
        Some(ActivationPolicy::Regular)
    } else {
        None
    }
}

/// The policy to be set before the main window is shown, if one is.
pub fn show_main_window(platform: Platform, settings: Settings) -> (r: Option<ActivationPolicy>)
    ensures
        r == policy_to_show(platform, settings),
{
    if platform == Platform::MacOs && !settings.hide_from_dock_taskbar {
        Some(ActivationPolicy::Regular)
    } else {
        None
    }
}

/// How the switcher is hidden from the taskbar and the dock, or shown there.
#[derive(Clone, Copy, Debug, PartialEq, Eq, Structural)]
pub struct Visibility {
    /// The main window has no place in the taskbar.
    pub skip_taskbar: bool,
    /// The policy to be set, on macOS.
    pub policy: Option<ActivationPolicy>,
}

/// How the switcher is hidden from the taskbar and the dock, or shown there.
pub open spec fn visibility(platform: Platform, hide: bool) -> Visibility {
    Visibility {
        skip_taskbar: hide,
        policy: if platform == Platform::MacOs {
            Some(policy(hide))
        } else {
            None
        },
    }
}

/// How the switcher is hidden from the taskbar and the dock, or shown there.
pub fn apply_dock_taskbar_visibility(platform: Platform, hide: bool) -> (r: Visibility)
    ensures
        r == visibility(platform, hide),
{
    Visibility {
        skip_taskbar: hide,
        policy: if platform == Platform::MacOs {
            Some(policy_for(hide))
        } else {
            None
        },
    }
}

/// What is said where the taskbar could not be updated.
pub fn taskbar_error(error: &str) -> (r: String)
    ensures
        r@ == "无法更新任务栏显示状态: "@ + error@,
{
    text::concat("无法更新任务栏显示状态: ", error)
}

/// What is said where the dock could not be updated.
pub fn dock_error(error: &str) -> (r: String)
    ensures
        r@ == "无法更新 Dock 显示状态: "@ + error@,
{
    text::concat("无法更新 Dock 显示状态: ", error)
}

/// How the switcher appears once the settings are known.
#[derive(Clone, Copy, Debug, PartialEq, Eq, Structural)]
pub struct Startup {
    /// The policy to be set first, on macOS.
    pub policy: Option<ActivationPolicy>,
    /// What is then applied.
    pub visibility: Visibility,
    /// Whether the main window then shows; it hides otherwise.
    pub show: bool,
}

/// How the switcher appears once the settings are known.
pub open spec fn startup_plan(platform: Platform, settings: Settings) -> Startup {
    Startup {
        policy: if platform == Platform::MacOs {
            Some(policy(settings.hide_from_dock_taskbar || settings.start_in_tray))
        } else {
            None
        },
        visibility: visibility(platform, settings.hide_from_dock_taskbar),
        show: !settings.start_in_tray,
    }
}

/// How the switcher appears once the settings are known.
pub fn startup(platform: Platform, settings: Settings) -> (r: Startup)
    ensures
        r == startup_plan(platform, settings),
{
    Startup {
        policy: if platform == Platform::MacOs {
            Some(policy_for(settings.hide_from_dock_taskbar || settings.start_in_tray))
        } else {
            None
        },
        visibility: apply_dock_taskbar_visibility(platform, settings.hide_from_dock_taskbar),
        show: !settings.start_in_tray,
    }
}

/// Whether a click on the tray's icon shows the main window: where the left button
/// comes up.
pub fn click_shows_window(left: bool, up: bool) -> (r: bool)
    ensures
        r == (left && up),
{
    left && up
}

/// Closing the main window never lets it close: it hides, or the switcher ends, as
/// the settings say.
pub proof fn law_main_window_never_closes(platform: Platform, settings: Settings)
    ensures
        !(close_response(platform, MAIN_WINDOW_LABEL@, settings) is Close),
        close_response(platform, MAIN_WINDOW_LABEL@, settings) is Quit <==> settings.close_action
            == CloseAction::Quit,
{
}

/// A switcher that hides from the dock has no place in it: not at the start, and
/// not where its main window is shown or closed.
pub proof fn law_hidden_switcher_stays_out_of_the_dock(platform: Platform, settings: Settings)
    requires
        settings.hide_from_dock_taskbar,
    ensures
        startup_plan(platform, settings).policy != Some(ActivationPolicy::Regular),
        startup_plan(platform, settings).visibility.policy != Some(ActivationPolicy::Regular),
        startup_plan(platform, settings).visibility.skip_taskbar,
        policy_to_show(platform, settings) is None,
        close_response(platform, MAIN_WINDOW_LABEL@, settings) != CloseResponse::Hide(
            Some(ActivationPolicy::Regular),
        ),
{
}

/// Only the main window is kept from closing. It quits the switcher or hides as the
/// settings say, and on macOS alone, where it hides, the switcher leaves the dock.
pub proof fn law_closing_follows_window_and_settings(
    platform: Platform,
    label: Seq<char>,
    settings: Settings,
)
    ensures
        close_response(platform, label, settings) is Close <==> label != "main"@,
        label == "main"@ && settings.close_action == CloseAction::Tray ==> close_response(
            platform,
            label,
            settings,
        ) == CloseResponse::Hide(
            if platform == Platform::MacOs {
                Some(ActivationPolicy::Accessory)
            } else {
                None
            },
        ),
{
}

/// The switcher stays out of the taskbar just where it is to hide, and on macOS alone its
/// place in the dock follows that.
pub proof fn law_visibility_follows_the_wish(platform: Platform, hide: bool)
    ensures
        visibility(platform, hide).skip_taskbar == hide,
        visibility(platform, hide).policy is Some <==> platform == Platform::MacOs,
        platform == Platform::MacOs ==> (visibility(platform, hide).policy == Some(
            ActivationPolicy::Accessory,
        ) <==> hide),
        platform == Platform::MacOs ==> (visibility(platform, hide).policy == Some(
            ActivationPolicy::Regular,
        ) <==> !hide),
{
}

/// At the start the window shows unless the settings keep it in the tray; on macOS alone
/// the switcher has a place in the dock at first just where nothing hides it, and the
/// settings on hiding then apply.
pub proof fn law_start_follows_the_settings(platform: Platform, settings: Settings)
    ensures
        startup_plan(platform, settings).show <==> !settings.start_in_tray,
        startup_plan(platform, settings).visibility == visibility(
            platform,
            settings.hide_from_dock_taskbar,
        ),
        startup_plan(platform, settings).policy is Some <==> platform == Platform::MacOs,
        platform == Platform::MacOs ==> (startup_plan(platform, settings).policy == Some(
            ActivationPolicy::Regular,
        ) <==> !settings.hide_from_dock_taskbar && !settings.start_in_tray),
        platform == Platform::MacOs ==> (startup_plan(platform, settings).policy == Some(
            ActivationPolicy::Accessory,
        ) <==> settings.hide_from_dock_taskbar || settings.start_in_tray),
{
}

/// Showing the window gives the switcher its place in the dock back, on macOS, unless it is
/// to hide.
pub proof fn law_shown_window_has_its_place_in_the_dock(platform: Platform, settings: Settings)
    ensures
        policy_to_show(platform, settings) == Some(ActivationPolicy::Regular) <==> platform
            == Platform::MacOs && !settings.hide_from_dock_taskbar,
        policy_to_show(platform, settings) is None <==> platform != Platform::MacOs
            || settings.hide_from_dock_taskbar,
{
}

} // verus!
