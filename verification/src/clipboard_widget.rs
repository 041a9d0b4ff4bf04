//! The clipboard history widget: its copy of the daemon's list, what each
//! event asks, and the texts it shows.

use vstd::prelude::*;
use crate::number::{decimal, parse_u64, spec_decimal, spec_parse_nat};
use crate::text::{
    chars_of, concat, replace_all, spec_replace, spec_strip_prefix, str_is, string_of,
    strip_prefix,
};

verus! {

/// One entry of the daemon's list, as the widget shows it.
#[derive(Debug, Clone)]
pub struct ClipboardItem {
    pub id: u64,
    pub text_preview: String,
    pub mime: String,
    pub timestamp: u64,
}

/// The clipboard widget's state.
#[derive(Debug)]
pub struct ClipboardModule {
    pub items: Vec<ClipboardItem>,
    pub daemon_available: bool,
}

impl Default for ClipboardModule {
    fn default() -> (r: ClipboardModule)
        ensures
            r.items@.len() == 0 && !r.daemon_available,
    {
        ClipboardModule { items: Vec::new(), daemon_available: false }
    }
}

/// What a clipboard widget event asks for.
#[derive(Debug)]
pub enum ClipboardWidgetAction {
    /// Fetch the list again and redraw.
    Refresh,
    /// Open or close the history popup.
    TogglePopup,
    /// Send this request to the daemon, then close the popup.
    Select(String),
    /// The history was cleared here; send the daemon its clear request and
    /// redraw.
    Clear,
    Nothing,
}

/// The request that selects entry `id`.
pub open spec fn select_request(id: u64) -> Seq<char> {
    "{\"cmd\":\"select\",\"id\":"@ + spec_decimal(id as nat) + "}"@
}

/// The entry id a `copy_entry_<id>` widget names.
pub open spec fn copy_id(w: Seq<char>) -> Option<u64> {
    match spec_strip_prefix(w, "copy_entry_"@) {
        Some(rest) => match spec_parse_nat(rest) {
            Some(n) => if n <= u64::MAX { Some(n as u64) } else { None },
            None => None,
        },
        None => None,
    }
}

impl ClipboardModule {
    /// Decides what an event asks for; a clear empties the list here at once.
    pub fn on_event(&mut self, widget_id: &str, event: &str) -> (r: ClipboardWidgetAction)
        ensures
            if (widget_id@ == "wyrd-clipboard.sock"@ && event@ == "changed"@) || event@ == "open"@ {
                r is Refresh && final(self).items@ == old(self).items@
                    && final(self).daemon_available == old(self).daemon_available
            } else if event@ == "click"@ && widget_id@ == "clipboard"@ {
                r is TogglePopup && final(self).items@ == old(self).items@
                    && final(self).daemon_available == old(self).daemon_available
            } else if event@ == "click"@ && spec_strip_prefix(widget_id@, "copy_entry_"@) is Some {
                (match copy_id(widget_id@) {
                    Some(id) => r matches ClipboardWidgetAction::Select(q) && q@ == select_request(id),
                    None => r is Nothing,
                }) && final(self).items@ == old(self).items@ && final(self).daemon_available == old(self).daemon_available
            } else if event@ == "click"@ && widget_id@ == "clipboard_clear"@ {
                r is Clear && final(self).items@.len() == 0 && final(self).daemon_available
            } else {
                r is Nothing && final(self).items@ == old(self).items@
                    && final(self).daemon_available == old(self).daemon_available
            },
    {
        if (str_is(widget_id, "wyrd-clipboard.sock") && str_is(event, "changed")) || str_is(event, "open") {
            return ClipboardWidgetAction::Refresh;
        }
        if !str_is(event, "click") {
            return ClipboardWidgetAction::Nothing;
        }
        if str_is(widget_id, "clipboard") {
            return ClipboardWidgetAction::TogglePopup;
        }
        if let Some(rest) = strip_prefix(&chars_of(widget_id), &chars_of("copy_entry_")) {
            return match parse_u64(string_of(&rest).as_str()) {
                Some(id) => {
                    let a = concat(&chars_of("{\"cmd\":\"select\",\"id\":"), &chars_of(decimal(id).as_str()));
                    ClipboardWidgetAction::Select(string_of(&concat(&a, &chars_of("}"))))
                },
                None => ClipboardWidgetAction::Nothing,
            };
        }
        if str_is(widget_id, "clipboard_clear") {
            self.items = Vec::new();
            self.daemon_available = true;
            return ClipboardWidgetAction::Clear;
        }
        ClipboardWidgetAction::Nothing
    }

    /// Takes the daemon's answer to a list request: its entries when it
    /// answered (`None` when its answer did not read), or, when it could not
    /// be reached, an empty list.
    pub fn apply_list(&mut self, reached: bool, entries: Option<Vec<ClipboardItem>>)
        ensures
            reached ==> final(self).daemon_available && final(self).items@ == match entries {
                Some(e) => e@,
                None => old(self).items@,
            },
            !reached ==> !final(self).daemon_available && (if old(self).daemon_available || old(self).items@.len() > 0 {
                final(self).items@.len() == 0
            } else {
                final(self).items@ == old(self).items@
            }),
    {
        if reached {
            self.daemon_available = true;
            if let Some(e) = entries {
                self.items = e;
            }
        } else if self.daemon_available || self.items.len() > 0 {
            self.daemon_available = false;
            self.items = Vec::new();
        }
    }

    /// The tooltip: the number of entries, or that the daemon is not running.
    pub fn tooltip(&self) -> (r: String)
        ensures
            r@ == (if self.daemon_available {
                "Clipboard ("@ + spec_decimal(self.items@.len()) + " items)"@
            } else {
                "Clipboard (daemon inactive)"@
            }),
    {
        if self.daemon_available {
            let a = concat(&chars_of("Clipboard ("), &chars_of(decimal(self.items.len() as u64).as_str()));
            string_of(&concat(&a, &chars_of(" items)")))
        } else {
            "Clipboard (daemon inactive)".to_string()
        }
    }

    /// The popup heading.
    pub fn heading(&self) -> (r: String)
        ensures
            r@ == (if self.daemon_available {
                "Clipboard ("@ + spec_decimal(self.items@.len()) + ")"@
            } else {
                "Clipboard"@
            }),
    {
        if self.daemon_available {
            let a = concat(&chars_of("Clipboard ("), &chars_of(decimal(self.items.len() as u64).as_str()));
            string_of(&concat(&a, &chars_of(")")))
        } else {
            "Clipboard".to_string()
        }
    }
}

/// A preview on one line: line breaks become spaces, carriage returns go.
pub open spec fn spec_one_line(s: Seq<char>) -> Seq<char> {
    spec_replace(spec_replace(s, "\n"@, " "@), "\r"@, ""@)
}

pub fn one_line(s: &str) -> (r: String)
    ensures
        r@ == spec_one_line(s@),
{
    proof {
        reveal_strlit("\n");
        reveal_strlit("\r");
    }
    let a = replace_all(&chars_of(s), &chars_of("\n"), &chars_of(" "));
    string_of(&replace_all(&a, &chars_of("\r"), &chars_of("")))
}

} // verus!
