//! Do-not-disturb toggle: its state, kept in step with the notification
//! daemon, and how it is shown.

use vstd::prelude::*;
use crate::json::Json;
use crate::text::{chars_of, contains, spec_contains, str_is};

verus! {

/// The do-not-disturb widget's state.
#[derive(Debug)]
pub struct DndModule {
    pub enabled: bool,
}

impl Default for DndModule {
    fn default() -> (r: DndModule)
        ensures
            !r.enabled,
    {
        DndModule { enabled: false }
    }
}

/// What follows a change of the state.
#[derive(Debug, PartialEq, Eq)]
pub enum DndAction {
    /// The state flipped: tell the daemon, redraw and announce it.
    Toggled,
    /// The state was set from an announcement: tell the daemon and redraw.
    Synced,
    Nothing,
}

pub open spec fn bool_member(v: Json, key: Seq<char>) -> Option<bool> {
    match v.spec_get(key) {
        Some(j) => j.spec_as_bool(),
        None => None,
    }
}

fn bool_member_exec(v: &Json, key: &str) -> (r: Option<bool>)
    ensures
        r == bool_member(*v, key@),
{
    match v.get(key) {
        Some(j) => j.as_bool(),
        None => None,
    }
}

impl DndModule {
    /// Takes the state from the daemon's status, when it reports one.
    pub fn apply_status(&mut self, status: &Json)
        ensures
            final(self).enabled == match bool_member(*status, "dnd"@) {
                Some(b) => b,
                None => old(self).enabled,
            },
    {
        if let Some(b) = bool_member_exec(status, "dnd") {
            self.enabled = b;
        }
    }

    /// A click on a widget whose id mentions `dnd` flips the state.
    pub fn on_event(&mut self, widget_id: &str, event: &str) -> (r: DndAction)
        ensures
            (event@ == "click"@ && spec_contains(widget_id@, "dnd"@)) ==> r == DndAction::Toggled
                && final(self).enabled == !old(self).enabled,
            !(event@ == "click"@ && spec_contains(widget_id@, "dnd"@)) ==> r == DndAction::Nothing
                && final(self).enabled == old(self).enabled,
    {
        if str_is(event, "click") && (str_is(widget_id, "dnd") || contains(&chars_of(widget_id), &chars_of("dnd"))) {
            proof {
                if widget_id@ == "dnd"@ {
                    reveal_strlit("dnd");
                    assert(widget_id@.subrange(0, 3) =~= widget_id@);
                    assert(crate::text::spec_occurs_at(widget_id@, "dnd"@, 0));
                }
            }
            self.enabled = !self.enabled;
            DndAction::Toggled
        } else {
            DndAction::Nothing
        }
    }

    /// A `dnd.toggle` message flips the state; a `dnd.state` message with an
    /// `enabled` flag that differs sets it.
    pub fn on_topic(&mut self, topic: &str, payload: &Json) -> (r: DndAction)
        ensures
            topic@ == "dnd.toggle"@ ==> r == DndAction::Toggled && final(self).enabled == !old(self).enabled,
            topic@ != "dnd.toggle"@ && topic@ == "dnd.state"@ ==> match bool_member(*payload, "enabled"@) {
                Some(b) => if b != old(self).enabled {
                    r == DndAction::Synced && final(self).enabled == b
                } else {
                    r == DndAction::Nothing && final(self).enabled == old(self).enabled
                },
                None => r == DndAction::Nothing && final(self).enabled == old(self).enabled,
            },
            topic@ != "dnd.toggle"@ && topic@ != "dnd.state"@ ==> r == DndAction::Nothing
                && final(self).enabled == old(self).enabled,
    {
        if str_is(topic, "dnd.toggle") {
            self.enabled = !self.enabled;
            DndAction::Toggled
        } else if str_is(topic, "dnd.state") {
            match bool_member_exec(payload, "enabled") {
                Some(b) => if b != self.enabled {
                    self.enabled = b;
                    DndAction::Synced
                } else {
                    DndAction::Nothing
                },
                None => DndAction::Nothing,
            }
        } else {
            DndAction::Nothing
        }
    }

    /// The icon name shown.
    pub fn icon_name(&self) -> (r: &'static str)
        ensures
            r@ == (if self.enabled { "notifications-disabled"@ } else { "preferences-desktop-notification-bell"@ }),
    {
        if self.enabled { "notifications-disabled" } else { "preferences-desktop-notification-bell" }
    }

    /// The icon name tried when the first is not in the theme.
    pub fn fallback_icon_name(&self) -> (r: &'static str)
        ensures
            r@ == (if self.enabled { "notifications-disabled"@ } else { "notification-bell"@ }),
    {
        if self.enabled { "notifications-disabled" } else { "notification-bell" }
    }

    /// The text shown: none beside an icon, else `DND` or `Bell`.
    pub fn text(&self, has_icon: bool) -> (r: &'static str)
        ensures
            r@ == (if has_icon { ""@ } else if self.enabled { "DND"@ } else { "Bell"@ }),
    {
        if has_icon { "" } else if self.enabled { "DND" } else { "Bell" }
    }

    /// The tooltip.
    pub fn tooltip(&self) -> (r: &'static str)
        ensures
            r@ == (if self.enabled { "Do Not Disturb: ON"@ } else { "Do Not Disturb: OFF"@ }),
    {
        if self.enabled { "Do Not Disturb: ON" } else { "Do Not Disturb: OFF" }
    }

    /// The style of the widget.
    pub fn style(&self) -> (r: &'static str)
        ensures
            r@ == (if self.enabled { "chip_accent"@ } else { "chip"@ }),
    {
        if self.enabled { "chip_accent" } else { "chip" }
    }
}

} // verus!
