//! Power menu: which session action a click asks for, and what is sent to
//! the login manager for it.

use vstd::prelude::*;
use crate::json::Json;
use crate::text::{chars_of, contains, spec_contains, spec_starts_with, starts_with, str_is};

verus! {

/// What an event on the power menu asks for.
#[derive(Debug, PartialEq, Eq)]
pub enum PowerAction {
    ShowPopup,
    Lock,
    Suspend,
    Reboot,
    PowerOff,
    Logout,
    Nothing,
}

pub open spec fn spec_power_action(w: Seq<char>, e: Seq<char>) -> PowerAction {
    if (e == "open"@ || spec_starts_with(e, "click"@)) && spec_contains(w, "power"@) {
        PowerAction::ShowPopup
    } else if w == "lock"@ {
        PowerAction::Lock
    } else if w == "suspend"@ {
        PowerAction::Suspend
    } else if w == "reboot"@ {
        PowerAction::Reboot
    } else if w == "poweroff"@ || w == "shutdown"@ {
        PowerAction::PowerOff
    } else if w == "logout"@ {
        PowerAction::Logout
    } else {
        PowerAction::Nothing
    }
}

/// Decides what an event on the power menu asks for: opening the menu
/// (an `open` or click on a widget whose id mentions `power`), or the
/// session action of the clicked button.
pub fn power_action(widget_id: &str, event: &str) -> (r: PowerAction)
    ensures
        r == spec_power_action(widget_id@, event@),
{
    let opens = str_is(event, "open") || starts_with(&chars_of(event), &chars_of("click"));
    if opens && contains(&chars_of(widget_id), &chars_of("power")) {
        PowerAction::ShowPopup
    } else if str_is(widget_id, "lock") {
        PowerAction::Lock
    } else if str_is(widget_id, "suspend") {
        PowerAction::Suspend
    } else if str_is(widget_id, "reboot") {
        PowerAction::Reboot
    } else if str_is(widget_id, "poweroff") || str_is(widget_id, "shutdown") {
        PowerAction::PowerOff
    } else if str_is(widget_id, "logout") {
        PowerAction::Logout
    } else {
        PowerAction::Nothing
    }
}

/// Whether the action is a session action, after which the menu closes.
pub open spec fn is_session_action(a: PowerAction) -> bool {
    !(a is ShowPopup || a is Nothing)
}

/// The name under which a session action is announced on `power.action`.
pub fn action_name(a: &PowerAction) -> (r: Option<&'static str>)
    ensures
        is_session_action(*a) <==> r is Some,
        *a == PowerAction::Lock ==> r == Some("lock"),
        *a == PowerAction::Suspend ==> r == Some("suspend"),
        *a == PowerAction::Reboot ==> r == Some("reboot"),
        *a == PowerAction::PowerOff ==> r == Some("poweroff"),
        *a == PowerAction::Logout ==> r == Some("logout"),
{
    match a {
        PowerAction::Lock => Some("lock"),
        PowerAction::Suspend => Some("suspend"),
        PowerAction::Reboot => Some("reboot"),
        PowerAction::PowerOff => Some("poweroff"),
        PowerAction::Logout => Some("logout"),
        _ => None,
    }
}

/// The call made on the login manager for a session action: its member and
/// arguments.
pub fn login1_request(a: &PowerAction) -> (r: Option<(&'static str, Json)>)
    ensures
        is_session_action(*a) <==> r is Some,
        *a == PowerAction::Lock ==> (r matches Some((m, Json::Array(v))) && m@ == "LockSessions"@ && v@.len() == 0),
        *a == PowerAction::Suspend ==> (r matches Some((m, Json::Array(v))) && m@ == "Suspend"@ && v@.len() == 1
            && v@[0] == Json::Bool(true)),
        *a == PowerAction::Reboot ==> (r matches Some((m, Json::Array(v))) && m@ == "Reboot"@ && v@.len() == 1
            && v@[0] == Json::Bool(true)),
        *a == PowerAction::PowerOff ==> (r matches Some((m, Json::Array(v))) && m@ == "PowerOff"@ && v@.len() == 1
            && v@[0] == Json::Bool(true)),
        *a == PowerAction::Logout ==> (r matches Some((m, Json::Array(v))) && m@ == "TerminateSession"@ && v@.len() == 1
            && v@[0].spec_as_str() == Some("self"@)),
{
    match a {
        PowerAction::Lock => Some(("LockSessions", Json::Array(Vec::new()))),
        PowerAction::Suspend => Some(("Suspend", Json::Array(vec![Json::Bool(true)]))),
        PowerAction::Reboot => Some(("Reboot", Json::Array(vec![Json::Bool(true)]))),
        PowerAction::PowerOff => Some(("PowerOff", Json::Array(vec![Json::Bool(true)]))),
        PowerAction::Logout => Some(("TerminateSession", Json::Array(vec![Json::Str("self".to_string())]))),
        _ => None,
    }
}

/// A button of the power menu: its id, label, icon, and whether it is
/// drawn as an accent.
#[derive(Debug)]
pub struct PowerButton {
    pub id: &'static str,
    pub label: &'static str,
    pub icon: &'static str,
    pub accent: bool,
}

/// The buttons of the power menu, top to bottom.
pub fn power_buttons() -> (r: Vec<PowerButton>)
    ensures
        r@.len() == 5,
        r@[0].id@ == "lock"@ && r@[1].id@ == "suspend"@ && r@[2].id@ == "logout"@,
        r@[3].id@ == "reboot"@ && r@[4].id@ == "shutdown"@,
        !r@[0].accent && !r@[1].accent && !r@[2].accent && r@[3].accent && r@[4].accent,
{
    vec![
        PowerButton { id: "lock", label: "Lock Screen", icon: "system-lock-screen", accent: false },
        PowerButton { id: "suspend", label: "Suspend / Sleep", icon: "system-suspend", accent: false },
        PowerButton { id: "logout", label: "Log Out Session", icon: "system-log-out", accent: false },
        PowerButton { id: "reboot", label: "Reboot System", icon: "system-reboot", accent: true },
        PowerButton { id: "shutdown", label: "Power Off", icon: "system-shutdown", accent: true },
    ]
}

} // verus!
