//! Workspace pager: the workspaces the window daemon lists, and the
//! requests a click sends back to it.

use vstd::prelude::*;
use crate::json::Json;
use crate::number::{decimal, spec_decimal};
use crate::sdk::{json_quoted, spec_json_quoted, SocketRequest};
use crate::text::{chars_of, concat, spec_strip_prefix, str_is, string_of, strip_prefix};

verus! {

/// What an event on the pager asks for.
#[derive(Debug)]
pub enum WorkspaceEvent {
    /// The daemon announced a change: read the workspaces again.
    Refresh,
    /// Switch to the workspace with this id, then read them again.
    Switch(String),
    Nothing,
}

/// The workspace id named by a widget id, after `workspace_`, `ws-` or
/// `ws_`, the first that fits.
pub open spec fn spec_switch_target(w: Seq<char>) -> Option<Seq<char>> {
    match spec_strip_prefix(w, "workspace_"@) {
        Some(id) => Some(id),
        None => match spec_strip_prefix(w, "ws-"@) {
            Some(id) => Some(id),
            None => spec_strip_prefix(w, "ws_"@),
        },
    }
}

/// Decides what an event on the pager asks for.
pub fn workspace_event(widget_id: &str) -> (r: WorkspaceEvent)
    ensures
        (widget_id@ == "changed"@ || widget_id@ == "wyrd-windows"@) ==> r is Refresh,
        !(widget_id@ == "changed"@ || widget_id@ == "wyrd-windows"@) ==> match r {
            WorkspaceEvent::Switch(id) => spec_switch_target(widget_id@) == Some(id@),
            WorkspaceEvent::Nothing => spec_switch_target(widget_id@) is None,
            WorkspaceEvent::Refresh => false,
        },
{
    if str_is(widget_id, "changed") || str_is(widget_id, "wyrd-windows") {
        return WorkspaceEvent::Refresh;
    }
    let w = chars_of(widget_id);
    let id = match strip_prefix(&w, &chars_of("workspace_")) {
        Some(id) => Some(id),
        None => match strip_prefix(&w, &chars_of("ws-")) {
            Some(id) => Some(id),
            None => strip_prefix(&w, &chars_of("ws_")),
        },
    };
    match id {
        Some(id) => WorkspaceEvent::Switch(string_of(&id)),
        None => WorkspaceEvent::Nothing,
    }
}

/// The request that lists the workspaces.
pub fn list_request() -> (r: SocketRequest)
    ensures
        r.socket@ == "wyrd-windows.sock"@,
        r.payload@ == "{\"cmd\":\"workspaces\"}"@,
{
    SocketRequest { socket: "wyrd-windows.sock".to_string(), payload: "{\"cmd\":\"workspaces\"}".to_string() }
}

/// The request that switches to workspace `id`.
pub fn switch_request(id: &str) -> (r: SocketRequest)
    ensures
        r.socket@ == "wyrd-windows.sock"@,
        r.payload@ == "{\"cmd\":\"switch_workspace\",\"id\":"@ + spec_json_quoted(id@) + "}"@,
{
    let head = concat(&chars_of("{\"cmd\":\"switch_workspace\",\"id\":"), &chars_of(json_quoted(id).as_str()));
    SocketRequest {
        socket: "wyrd-windows.sock".to_string(),
        payload: string_of(&concat(&head, &chars_of("}"))),
    }
}

/// The workspace list of the daemon's answer: its `workspaces` member, or
/// its `list` member where there is none, when that is a list.
pub open spec fn spec_workspace_list(resp: Json) -> Option<Seq<Json>> {
    let field = match resp.spec_get("workspaces"@) {
        Some(v) => Some(v),
        None => resp.spec_get("list"@),
    };
    match field {
        Some(v) => v.spec_as_array(),
        None => None,
    }
}

/// Finds the workspace list in the daemon's answer.
pub fn workspace_list(resp: &Json) -> (r: Option<&Vec<Json>>)
    ensures
        match r {
            Some(a) => spec_workspace_list(*resp) == Some(a@),
            None => spec_workspace_list(*resp) is None,
        },
{
    let field = match resp.get("workspaces") {
        Some(v) => Some(v),
        None => resp.get("list"),
    };
    match field {
        Some(v) => v.as_array(),
        None => None,
    }
}

/// How an id is written: a string as it is, an integer in decimal, `null`,
/// `true` or `false`; `None` for a fraction, a list or an object.
pub open spec fn spec_id_text(id: Json) -> Option<Seq<char>> {
    match id {
        Json::Str(s) => Some(s@),
        Json::Int(n) => if 0 <= n <= u64::MAX {
            Some(spec_decimal(n as nat))
        } else if -u64::MAX <= n < 0 {
            Some("-"@ + spec_decimal((-n) as nat))
        } else {
            None
        },
        Json::Null => Some("null"@),
        Json::Bool(b) => Some(if b { "true"@ } else { "false"@ }),
        _ => None,
    }
}

/// Writes a workspace id as text.
pub fn id_text(id: &Json) -> (r: Option<String>)
    ensures
        match r {
            Some(s) => spec_id_text(*id) == Some(s@),
            None => spec_id_text(*id) is None,
        },
{
    match id {
        Json::Str(s) => Some(s.clone()),
        Json::Int(n) => {
            let n = *n;
            if 0 <= n && n <= u64::MAX as i128 {
                Some(decimal(n as u64))
            } else if -(u64::MAX as i128) <= n && n < 0 {
                let m = (-n) as u64;
                Some(string_of(&concat(&chars_of("-"), &chars_of(decimal(m).as_str()))))
            } else {
                None
            }
        },
        Json::Null => Some("null".to_string()),
        Json::Bool(b) => Some(if *b { "true".to_string() } else { "false".to_string() }),
        _ => None,
    }
}

/// What the pager shows of one workspace.
#[derive(Debug)]
pub struct WorkspaceEntry {
    /// The id as text; `None` where the id is a fraction, list or object.
    pub id_text: Option<String>,
    pub name: String,
    pub active: bool,
    pub monitor: String,
    /// The application id of each window on it, `""` where a window has
    /// none.
    pub app_ids: Vec<String>,
}

pub open spec fn str_or_empty(v: Json, key: Seq<char>) -> Seq<char> {
    match v.spec_get(key) {
        Some(Json::Str(s)) => s@,
        _ => Seq::empty(),
    }
}

pub open spec fn spec_workspace_id(w: Json) -> Json {
    match w.spec_get("id"@) {
        Some(v) => v,
        None => Json::Null,
    }
}

fn str_or_empty_exec(v: &Json, key: &str) -> (r: String)
    ensures
        r@ == str_or_empty(*v, key@),
{
    match v.get(key) {
        Some(j) => match j.as_str() {
            Some(s) => s.clone(),
            None => String::new(),
        },
        None => String::new(),
    }
}

/// The application ids of a workspace's `apps` list.
pub open spec fn spec_app_ids(w: Json) -> Seq<Seq<char>> {
    match w.spec_get("apps"@) {
        Some(Json::Array(a)) => Seq::new(a@.len(), |i: int| str_or_empty(a@[i], "app_id"@)),
        _ => Seq::empty(),
    }
}

/// Reads one workspace of the daemon's list.
pub fn read_workspace(w: &Json) -> (r: WorkspaceEntry)
    ensures
        match r.id_text {
            Some(t) => spec_id_text(spec_workspace_id(*w)) == Some(t@),
            None => spec_id_text(spec_workspace_id(*w)) is None,
        },
        r.name@ == str_or_empty(*w, "name"@),
        r.active == match w.spec_get("active"@) {
            Some(Json::Bool(b)) => b,
            _ => false,
        },
        r.monitor@ == str_or_empty(*w, "monitor"@),
        r.app_ids@.len() == spec_app_ids(*w).len(),
        forall|i: int| 0 <= i < r.app_ids@.len() ==> (#[trigger] r.app_ids@[i])@ == spec_app_ids(*w)[i],
{
    let id = match w.get("id") {
        Some(v) => id_text(v),
        None => Some("null".to_string()),
    };
    let active = match w.get("active") {
        Some(v) => match v.as_bool() {
            Some(b) => b,
            None => false,
        },
        None => false,
    };
    let mut app_ids: Vec<String> = Vec::new();
    if let Some(apps) = w.get("apps") {
        if let Some(a) = apps.as_array() {
            let mut i: usize = 0;
            assert(spec_app_ids(*w) =~= Seq::new(a@.len(), |i: int| str_or_empty(a@[i], "app_id"@)));
            while i < a.len()
                invariant
                    i <= a.len(),
                    spec_app_ids(*w) == Seq::new(a@.len(), |i: int| str_or_empty(a@[i], "app_id"@)),
                    app_ids@.len() == i,
                    forall|j: int| 0 <= j < i ==> (#[trigger] app_ids@[j])@ == str_or_empty(a@[j], "app_id"@),
                decreases a.len() - i,
            {
                app_ids.push(str_or_empty_exec(&a[i], "app_id"));
                i = i + 1;
            }
        }
    }
    WorkspaceEntry {
        id_text: id,
        name: str_or_empty_exec(w, "name"),
        active,
        monitor: str_or_empty_exec(w, "monitor"),
        app_ids,
    }
}

impl WorkspaceEntry {
    /// The label of the workspace's button: its name, or its id where it
    /// has no name.
    pub fn label(&self) -> (r: Option<String>)
        ensures
            self.name@.len() > 0 ==> (r matches Some(s) && s@ == self.name@),
            self.name@.len() == 0 ==> match self.id_text {
                Some(t) => (r matches Some(s) && s@ == t@),
                None => r is None,
            },
    {
        if self.name.unicode_len() > 0 {
            Some(self.name.clone())
        } else {
            match &self.id_text {
                Some(t) => Some(t.clone()),
                None => None,
            }
        }
    }

    /// The style of the workspace's button.
    pub fn style(&self) -> (r: &'static str)
        ensures
            r@ == (if self.active { "chip_accent"@ } else { "chip"@ }),
    {
        if self.active { "chip_accent" } else { "chip" }
    }
}

/// The id of a workspace's button: `ws-` and the id.
pub fn button_id(id_text: &str) -> (r: String)
    ensures
        r@ == "ws-"@ + id_text@,
{
    string_of(&concat(&chars_of("ws-"), &chars_of(id_text)))
}

/// The event a click on a workspace's button sends.
pub fn click_action(id_text: &str) -> (r: String)
    ensures
        r@ == "event:workspaces:workspace_"@ + id_text@ + ":click"@,
{
    let head = concat(&chars_of("event:workspaces:workspace_"), &chars_of(id_text));
    string_of(&concat(&head, &chars_of(":click")))
}

} // verus!
