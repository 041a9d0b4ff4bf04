//! Active window title widget.

use vstd::prelude::*;
use crate::json::Json;
use crate::text::{chars_eq, chars_of, str_is};

verus! {

/// The window title widget's state.
#[derive(Debug)]
pub struct WindowModule {
    pub last_title: String,
}

impl Default for WindowModule {
    fn default() -> (r: WindowModule)
        ensures
            r.last_title@.len() == 0,
    {
        WindowModule { last_title: String::new() }
    }
}

/// The title and class of the active window as the compositor's reply
/// gives them: `Desktop` and no class when there is no active window or it
/// has no title.
pub open spec fn spec_window_info(reply: Option<Json>) -> (Seq<char>, Seq<char>) {
    let active = match reply {
        Some(r) => match r.spec_get("active"@) {
            Some(Json::Null) => None,
            Some(a) => Some(a),
            None => None,
        },
        None => None,
    };
    match active {
        Some(a) => {
            let title = match a.spec_get("title"@) {
                Some(Json::Str(t)) if t@.len() > 0 => t@,
                _ => "Desktop"@,
            };
            let class = match a.spec_get("app_id"@) {
                Some(Json::Str(c)) => c@,
                _ => ""@,
            };
            (title, class)
        },
        None => ("Desktop"@, ""@),
    }
}

/// Reads the active window's title and class from the compositor's reply.
pub fn window_info(reply: &Option<Json>) -> (r: (String, String))
    ensures
        (r.0@, r.1@) == spec_window_info(*reply),
{
    let mut title = "Desktop".to_string();
    let mut class = "".to_string();
    if let Some(rep) = reply {
        if let Some(a) = rep.get("active") {
            match a {
                Json::Null => {},
                _ => {
                    if let Some(t) = a.get("title") {
                        if let Some(s) = t.as_str() {
                            if s.unicode_len() > 0 {
                                title = s.clone();
                            }
                        }
                    }
                    if let Some(c) = a.get("app_id") {
                        if let Some(s) = c.as_str() {
                            class = s.clone();
                        }
                    }
                },
            }
        }
    }
    (title, class)
}

impl WindowModule {
    /// Whether the compositor's report on `widget_id` means the active
    /// window may have changed.
    pub fn wants_refresh(&self, widget_id: &str) -> (r: bool)
        ensures
            r == (widget_id@ == "changed"@ || widget_id@ == "wyrd-windows"@),
    {
        str_is(widget_id, "changed") || str_is(widget_id, "wyrd-windows")
    }

    /// Whether a timer tick should read the title again: only while none has
    /// been shown.
    pub fn retry_on_tick(&self) -> (r: bool)
        ensures
            r == (self.last_title@.len() == 0),
    {
        self.last_title.unicode_len() == 0
    }

    /// Takes a new title; returns whether it differs from the one shown.
    pub fn accept_title(&mut self, title: &str) -> (changed: bool)
        ensures
            changed == (title@ != old(self).last_title@),
            final(self).last_title@ == title@,
    {
        if chars_eq(&chars_of(title), &chars_of(self.last_title.as_str())) {
            false
        } else {
            self.last_title = title.to_string();
            true
        }
    }
}

} // verus!
