//! Keyboard layout indicator: how the active layout is written on the bar,
//! the list of layouts to choose from, and what a click asks for.

use vstd::prelude::*;
use crate::json::Json;
use crate::sdk::{json_quoted, spec_json_quoted};
use crate::text::{chars_of, concat, spec_strip_prefix, str_is, string_of, string_views, strip_prefix};

verus! {

broadcast use vstd::seq_lib::group_seq_properties;

/// The keyboard layout state the compositor reports.
#[derive(Debug, Clone)]
pub struct KeyboardInfo {
    pub layout: String,
    pub short_name: String,
    pub variant: String,
    pub index: u32,
    pub layouts: Vec<String>,
    pub short_layouts: Vec<String>,
    pub device_name: String,
}

impl Default for KeyboardInfo {
    fn default() -> (r: KeyboardInfo)
        ensures
            r.layout@.len() == 0 && r.short_name@.len() == 0 && r.variant@.len() == 0,
            r.index == 0 && r.layouts@.len() == 0 && r.short_layouts@.len() == 0,
            r.device_name@.len() == 0,
    {
        KeyboardInfo {
            layout: String::new(),
            short_name: String::new(),
            variant: String::new(),
            index: 0,
            layouts: Vec::new(),
            short_layouts: Vec::new(),
            device_name: String::new(),
        }
    }
}

/// The short name shown for a layout, `EN` when it has none.
pub open spec fn short_of(info: KeyboardInfo) -> Seq<char> {
    if info.short_name@.len() == 0 { "EN"@ } else { info.short_name@ }
}

/// The full name shown for a layout, `English (US)` when it has none.
pub open spec fn full_of(info: KeyboardInfo) -> Seq<char> {
    if info.layout@.len() == 0 { "English (US)"@ } else { info.layout@ }
}

/// The bar text for a layout in the configured `format`: `full`, `icon_short`,
/// `icon_full`, or the short name for `code`, `short` and anything else.
pub open spec fn spec_format_layout(info: KeyboardInfo, format: Seq<char>, icon: Seq<char>) -> Seq<char> {
    if format == "full"@ {
        full_of(info)
    } else if format == "icon_short"@ {
        icon + " "@ + short_of(info)
    } else if format == "icon_full"@ {
        icon + " "@ + full_of(info)
    } else {
        short_of(info)
    }
}

/// Writes the layout for the bar.
pub fn format_layout(info: &KeyboardInfo, format: &str, icon: &str) -> (r: String)
    ensures
        r@ == spec_format_layout(*info, format@, icon@),
{
    let short = if info.short_name.unicode_len() == 0 {
        "EN".to_string()
    } else {
        info.short_name.clone()
    };
    let full = if info.layout.unicode_len() == 0 {
        "English (US)".to_string()
    } else {
        info.layout.clone()
    };
    let lead = concat(&chars_of(icon), &chars_of(" "));
    if str_is(format, "full") {
        full
    } else if str_is(format, "icon_short") {
        string_of(&concat(&lead, &chars_of(short.as_str())))
    } else if str_is(format, "icon_full") {
        string_of(&concat(&lead, &chars_of(full.as_str())))
    } else {
        short
    }
}

/// One layout offered in the chooser.
#[derive(Debug)]
pub struct LayoutChoice {
    pub label: String,
    pub active: bool,
}

/// The `i`-th element of `v`, or empty.
pub open spec fn nth_or_empty(v: Seq<String>, i: int) -> Seq<char> {
    if 0 <= i < v.len() { v[i]@ } else { Seq::empty() }
}

/// The label of a layout: `full (short)`, or whichever of the two is there.
pub open spec fn choice_label(full: Seq<char>, short: Seq<char>) -> Seq<char> {
    if full.len() > 0 && short.len() > 0 {
        full + " ("@ + short + ")"@
    } else if full.len() > 0 {
        full
    } else {
        short
    }
}

pub open spec fn choice_count(info: KeyboardInfo) -> nat {
    if info.layouts@.len() >= info.short_layouts@.len() {
        info.layouts@.len()
    } else {
        info.short_layouts@.len()
    }
}

fn nth_or_empty_exec(v: &Vec<String>, i: usize) -> (r: Vec<char>)
    ensures
        r@ == nth_or_empty(v@, i as int),
{
    if i < v.len() { chars_of(v[i].as_str()) } else { Vec::new() }
}

/// The layouts to choose from, as many as the longer of the two name lists,
/// with the active one marked.
pub fn layout_choices(info: &KeyboardInfo) -> (r: Vec<LayoutChoice>)
    ensures
        r@.len() == choice_count(*info),
        forall|i: int| 0 <= i < r@.len() ==> {
            &&& (#[trigger] r@[i]).label@ == choice_label(nth_or_empty(info.layouts@, i), nth_or_empty(info.short_layouts@, i))
            &&& r@[i].active == (i == info.index as int)
        },
{
    let n = if info.layouts.len() >= info.short_layouts.len() {
        info.layouts.len()
    } else {
        info.short_layouts.len()
    };
    let mut out: Vec<LayoutChoice> = Vec::new();
    let mut i: usize = 0;
    while i < n
        invariant
            n == choice_count(*info),
            i <= n,
            out@.len() == i,
            forall|j: int| 0 <= j < i ==> {
                &&& (#[trigger] out@[j]).label@ == choice_label(nth_or_empty(info.layouts@, j), nth_or_empty(info.short_layouts@, j))
                &&& out@[j].active == (j == info.index as int)
            },
        decreases n - i,
    {
        let full = nth_or_empty_exec(&info.layouts, i);
        let short = nth_or_empty_exec(&info.short_layouts, i);
        let label = if full.len() > 0 && short.len() > 0 {
            let a = concat(&full, &chars_of(" ("));
            let b = concat(&a, &short);
            string_of(&concat(&b, &chars_of(")")))
        } else if full.len() > 0 {
            string_of(&full)
        } else {
            string_of(&short)
        };
        let active = i as u64 == info.index as u64;
        out.push(LayoutChoice { label, active });
        i = i + 1;
    }
    out
}

/// The title of the layout chooser.
pub fn chooser_title(info: &KeyboardInfo) -> (r: String)
    ensures
        r@ == (if info.device_name@.len() == 0 {
            "Keyboard Layout"@
        } else {
            "Keyboard ("@ + info.device_name@ + ")"@
        }),
{
    if info.device_name.unicode_len() == 0 {
        "Keyboard Layout".to_string()
    } else {
        let a = concat(&chars_of("Keyboard ("), &chars_of(info.device_name.as_str()));
        string_of(&concat(&a, &chars_of(")")))
    }
}

/// What a keyboard widget event asks for.
#[derive(Debug)]
pub enum KeyboardAction {
    /// Read the layout state again.
    Refresh,
    /// Send this request to the compositor, then read the state again.
    Switch(String),
    Nothing,
}

/// The keyboard layout widget.
#[derive(Debug)]
pub struct KeyboardModule {
    pub current: KeyboardInfo,
    pub format: String,
    pub icon: String,
}

impl Default for KeyboardModule {
    fn default() -> (r: KeyboardModule)
        ensures
            r.current.layout@ == "English (US)"@,
            r.current.short_name@ == "US"@,
            r.current.variant@.len() == 0,
            r.current.index == 0,
            string_views(r.current.layouts@) == seq!["English (US)"@],
            string_views(r.current.short_layouts@) == seq!["US"@],
            r.current.device_name@.len() == 0,
            r.format@ == "short"@,
            r.icon@ == "󰌌"@,
    {
        let mut layouts: Vec<String> = Vec::new();
        layouts.push("English (US)".to_string());
        let mut short_layouts: Vec<String> = Vec::new();
        short_layouts.push("US".to_string());
        let r = KeyboardModule {
            current: KeyboardInfo {
                layout: "English (US)".to_string(),
                short_name: "US".to_string(),
                variant: String::new(),
                index: 0,
                layouts,
                short_layouts,
                device_name: String::new(),
            },
            format: "short".to_string(),
            icon: "󰌌".to_string(),
        };
        assert(string_views(r.current.layouts@) =~= seq!["English (US)"@]);
        assert(string_views(r.current.short_layouts@) =~= seq!["US"@]);
        r
    }
}

/// The request that switches to the layout named by `id`.
pub open spec fn switch_request(id: Seq<char>) -> Seq<char> {
    "{\"cmd\":\"switch_layout\",\"id\":"@ + spec_json_quoted(id) + "}"@
}

impl KeyboardModule {
    /// Takes `format` and `icon` from the module settings when they are
    /// strings.
    pub fn apply_config(&mut self, config: &Json)
        ensures
            final(self).format == (match config.spec_get("format"@) {
                Some(Json::Str(s)) => s,
                _ => old(self).format,
            }),
            final(self).icon == (match config.spec_get("icon"@) {
                Some(Json::Str(s)) => s,
                _ => old(self).icon,
            }),
            final(self).current == old(self).current,
    {
        if let Some(v) = config.get("format") {
            if let Some(s) = v.as_str() {
                self.format = s.clone();
            }
        }
        if let Some(v) = config.get("icon") {
            if let Some(s) = v.as_str() {
                self.icon = s.clone();
            }
        }
    }

    /// What the event `event` on `widget_id` asks: a fresh read when the
    /// compositor reports a change; on a click of the indicator the next
    /// layout, on a click of `keyboard_select_<id>` that layout.
    pub fn on_event(&self, widget_id: &str, event: &str) -> (r: KeyboardAction)
        ensures
            (widget_id@ == "changed"@ || widget_id@ == "wyrd-windows"@) ==> r is Refresh,
            !(widget_id@ == "changed"@ || widget_id@ == "wyrd-windows"@) ==> {
                if (event@ == "click"@ || event@ == "action"@) && (widget_id@ == "keyboard"@
                    || widget_id@ == "keyboard_toggle"@) {
                    r matches KeyboardAction::Switch(q) && q@ == switch_request("next"@)
                } else if (event@ == "click"@ || event@ == "action"@) && spec_strip_prefix(
                    widget_id@,
                    "keyboard_select_"@,
                ) is Some {
                    r matches KeyboardAction::Switch(q) && q@ == switch_request(
                        spec_strip_prefix(widget_id@, "keyboard_select_"@)->0,
                    )
                } else {
                    r is Nothing
                }
            },
    {
        if str_is(widget_id, "changed") || str_is(widget_id, "wyrd-windows") {
            return KeyboardAction::Refresh;
        }
        if str_is(event, "click") || str_is(event, "action") {
            if str_is(widget_id, "keyboard") || str_is(widget_id, "keyboard_toggle") {
                return KeyboardAction::Switch(switch_request_exec("next"));
            }
            if let Some(idx) = strip_prefix(&chars_of(widget_id), &chars_of("keyboard_select_")) {
                let id = string_of(&idx);
                return KeyboardAction::Switch(switch_request_exec(id.as_str()));
            }
        }
        KeyboardAction::Nothing
    }
}

fn switch_request_exec(id: &str) -> (r: String)
    ensures
        r@ == switch_request(id@),
{
    let a = concat(&chars_of("{\"cmd\":\"switch_layout\",\"id\":"), &chars_of(json_quoted(id).as_str()));
    string_of(&concat(&a, &chars_of("}")))
}

} // verus!
