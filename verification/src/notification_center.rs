//! The notification centre widget: the list of recent notifications as the
//! bar keeps it, the toast shown for a new one, do-not-disturb, and what
//! each event and message asks.

use vstd::prelude::*;
use crate::json::Json;
use crate::number::{decimal, parse_u32, spec_decimal, spec_parse_nat};
use crate::text::{
    chars_of, concat, contains, spec_contains, spec_starts_with, spec_trim_end,
    spec_trim_start_matches, starts_with, str_is, string_of, trim, trim_start_matches,
};

verus! {

broadcast use vstd::seq_lib::group_seq_properties;

/// Upper bound on the notifications the widget keeps.
pub const MAX_ITEMS: usize = 30;

/// `text` cut to `max_chars` characters, the last of them an ellipsis, with
/// the space before the ellipsis removed.
pub open spec fn spec_truncate(text: Seq<char>, max_chars: nat) -> Seq<char> {
    if text.len() <= max_chars {
        text
    } else {
        let keep: nat = if max_chars >= 1 { (max_chars - 1) as nat } else { 0 };
        spec_trim_end(text.take(keep as int)) + "…"@
    }
}

/// Shortens a text for display.
pub fn truncate_text(text: &str, max_chars: usize) -> (r: String)
    ensures
        r@ == spec_truncate(text@, max_chars as nat),
{
    let v = chars_of(text);
    if v.len() <= max_chars {
        return text.to_string();
    }
    let keep = if max_chars >= 1 { max_chars - 1 } else { 0 };
    let head = crate::text::slice(&v, 0, keep);
    let t = crate::text::trim_end_chars(&head);
    assert(v@.subrange(0, keep as int) =~= v@.take(keep as int));
    string_of(&concat(&t, &chars_of("…")))
}

/// One notification as the widget keeps it.
#[derive(Debug, Clone)]
pub struct NotificationItem {
    pub id: u32,
    pub app_name: String,
    pub summary: String,
    pub body: String,
    pub icon: String,
    pub image_path: Option<String>,
    pub actions: Vec<String>,
    pub timestamp: u64,
}

/// The notification centre's state.
#[derive(Debug)]
pub struct NotificationsModule {
    pub notifications: Vec<NotificationItem>,
    pub next_id: u32,
    pub dnd: bool,
    pub toast_id: Option<u32>,
    pub toast_opened_at: Option<u64>,
    pub toast_duration_ms: u64,
    pub last_count: Option<u32>,
    pub last_dnd: Option<bool>,
}

impl Default for NotificationsModule {
    fn default() -> (r: NotificationsModule)
        ensures
            r.notifications@.len() == 0 && r.next_id == 0 && !r.dnd,
            r.toast_id is None && r.toast_opened_at is None && r.toast_duration_ms == 0,
            r.last_count is None && r.last_dnd is None,
    {
        NotificationsModule {
            notifications: Vec::new(),
            next_id: 0,
            dnd: false,
            toast_id: None,
            toast_opened_at: None,
            toast_duration_ms: 0,
            last_count: None,
            last_dnd: None,
        }
    }
}

pub open spec fn id_differs(id: u32) -> spec_fn(NotificationItem) -> bool {
    |n: NotificationItem| n.id != id
}

/// The id a message names, cut to 32 bits.
pub open spec fn msg_id(v: Json) -> Option<u32> {
    match v.spec_get("id"@) {
        Some(j) => match j.spec_as_u64() {
            Some(n) => Some(n as u32),
            None => None,
        },
        None => None,
    }
}

fn msg_id_exec(v: &Json) -> (r: Option<u32>)
    ensures
        r == msg_id(*v),
{
    match v.get("id") {
        Some(j) => match j.as_u64() {
            Some(n) => Some(n as u32),
            None => None,
        },
        None => None,
    }
}

/// The rest of the state is as it was.
pub open spec fn same_settings(a: NotificationsModule, b: NotificationsModule) -> bool {
    &&& b.next_id == a.next_id && b.dnd == a.dnd && b.toast_duration_ms == a.toast_duration_ms
    &&& b.last_count == a.last_count && b.last_dnd == a.last_dnd
}

impl NotificationsModule {
    /// Closes the toast if it shows notification `id`; returns whether it
    /// did.
    pub fn close_toast_for(&mut self, id: u32) -> (closed: bool)
        ensures
            closed == (old(self).toast_id == Some(id)),
            closed ==> final(self).toast_id is None && final(self).toast_opened_at is None,
            !closed ==> final(self).toast_id == old(self).toast_id
                && final(self).toast_opened_at == old(self).toast_opened_at,
            final(self).notifications@ == old(self).notifications@,
            same_settings(*old(self), *final(self)),
    {
        if self.toast_id == Some(id) {
            self.toast_id = None;
            self.toast_opened_at = None;
            true
        } else {
            false
        }
    }

    /// Drops notification `id` from the list.
    pub fn remove(&mut self, id: u32)
        ensures
            final(self).notifications@ == old(self).notifications@.filter(id_differs(id)),
            final(self).toast_id == old(self).toast_id,
            final(self).toast_opened_at == old(self).toast_opened_at,
            same_settings(*old(self), *final(self)),
    {
        let ghost orig = self.notifications@;
        let mut kept: Vec<NotificationItem> = Vec::new();
        let mut rest: Vec<NotificationItem> = Vec::new();
        std::mem::swap(&mut rest, &mut self.notifications);
        assert(rest@ == orig);
        assert(orig.len() == rest.len());
        let mut k: usize = 0;
        while rest.len() > 0
            invariant
                k <= orig.len(),
                orig.len() <= usize::MAX,
                rest@ == orig.skip(k as int),
                kept@ == orig.take(k as int).filter(id_differs(id)),
            decreases rest.len(),
        {
            let n = rest.remove(0);
            proof {
                orig.take(k as int).lemma_filter_push(n, id_differs(id));
                assert(orig.take(k + 1) =~= orig.take(k as int).push(n));
                assert(rest@ =~= orig.skip(k + 1));
            }
            if n.id != id {
                kept.push(n);
            }
            k = k + 1;
        }
        assert(orig.take(k as int) =~= orig);
        self.notifications = kept;
    }

    /// The daemon reports notification `payload.id` closed: close its toast
    /// and drop it. Returns whether the toast was closed.
    pub fn on_closed_signal(&mut self, payload: &Json) -> (closed: bool)
        ensures
            match msg_id(*payload) {
                Some(id) => closed == (old(self).toast_id == Some(id))
                    && final(self).notifications@ == old(self).notifications@.filter(id_differs(id)),
                None => !closed && final(self).notifications@ == old(self).notifications@
                    && final(self).toast_id == old(self).toast_id,
            },
            same_settings(*old(self), *final(self)),
    {
        match msg_id_exec(payload) {
            Some(id) => {
                let closed = self.close_toast_for(id);
                self.remove(id);
                closed
            },
            None => false,
        }
    }

    /// Turns do-not-disturb on or off; turning it on closes any toast.
    /// Returns whether the toast was closed.
    pub fn set_dnd(&mut self, enabled: bool) -> (closed: bool)
        ensures
            final(self).dnd == enabled,
            closed == (enabled && old(self).toast_id is Some),
            closed ==> final(self).toast_id is None && final(self).toast_opened_at is None,
            !closed ==> final(self).toast_id == old(self).toast_id
                && final(self).toast_opened_at == old(self).toast_opened_at,
            final(self).notifications@ == old(self).notifications@,
            final(self).next_id == old(self).next_id,
    {
        self.dnd = enabled;
        if enabled && self.toast_id.is_some() {
            self.toast_id = None;
            self.toast_opened_at = None;
            true
        } else {
            false
        }
    }

    /// A timer tick at `now`: the toast closes once its time is up. Returns
    /// whether it closed.
    pub fn tick(&mut self, now: u64) -> (closed: bool)
        ensures
            closed == (old(self).toast_id is Some && (old(self).toast_opened_at matches Some(t)
                && (if now >= t { now - t } else { 0 }) >= old(self).toast_duration_ms)),
            closed ==> final(self).toast_id is None && final(self).toast_opened_at is None,
            !closed ==> final(self).toast_id == old(self).toast_id
                && final(self).toast_opened_at == old(self).toast_opened_at,
            final(self).notifications@ == old(self).notifications@,
            same_settings(*old(self), *final(self)),
    {
        match (self.toast_opened_at, self.toast_id) {
            (Some(opened), Some(_)) => {
                let elapsed = now.saturating_sub(opened);
                if elapsed >= self.toast_duration_ms {
                    self.toast_id = None;
                    self.toast_opened_at = None;
                    true
                } else {
                    false
                }
            },
            _ => false,
        }
    }

    /// The unread count shown: none while do-not-disturb is on.
    pub open spec fn spec_count(&self) -> u32 {
        if self.dnd { 0 } else { self.notifications@.len() as u32 }
    }

    /// Records the count and do-not-disturb state about to be shown; returns
    /// the count when either differs from what was shown last.
    pub fn count_changed(&mut self) -> (r: Option<u32>)
        ensures
            ({
                let c = old(self).spec_count();
                if old(self).last_count == Some(c) && old(self).last_dnd == Some(old(self).dnd) {
                    r is None && final(self).last_count == old(self).last_count
                        && final(self).last_dnd == old(self).last_dnd
                } else {
                    r == Some(c) && final(self).last_count == Some(c) && final(self).last_dnd == Some(old(self).dnd)
                }
            }),
            final(self).notifications@ == old(self).notifications@,
            final(self).dnd == old(self).dnd,
            final(self).toast_id == old(self).toast_id,
    {
        let count: u32 = if self.dnd { 0 } else { self.notifications.len() as u32 };
        if self.last_count == Some(count) && self.last_dnd == Some(self.dnd) {
            return None;
        }
        self.last_count = Some(count);
        self.last_dnd = Some(self.dnd);
        Some(count)
    }

    /// The bar text for a count: the bell, with `DND` or the count after it.
    pub fn count_text(&self, count: u32) -> (r: String)
        ensures
            r@ == (if self.dnd {
                "󰂛 DND"@
            } else if count > 0 {
                "󰂚 "@ + spec_decimal(count as nat)
            } else {
                "󰂚"@
            }),
    {
        if self.dnd {
            "󰂛 DND".to_string()
        } else if count > 0 {
            string_of(&concat(&chars_of("󰂚 "), &chars_of(decimal(count as u64).as_str())))
        } else {
            "󰂚".to_string()
        }
    }
}

pub open spec fn json_str_or(v: Json, key: Seq<char>, d: Seq<char>) -> Seq<char> {
    match v.spec_get(key) {
        Some(Json::Str(s)) => s@,
        _ => d,
    }
}

fn json_str_or_exec(v: &Json, key: &str, d: &str) -> (r: String)
    ensures
        r@ == json_str_or(*v, key@, d@),
{
    match v.get(key) {
        Some(j) => match j.as_str() {
            Some(s) => s.clone(),
            None => d.to_string(),
        },
        None => d.to_string(),
    }
}

/// The strings of a JSON array member, others left out.
pub open spec fn string_members(v: Json, key: Seq<char>) -> Seq<Seq<char>> {
    match v.spec_get(key) {
        Some(Json::Array(a)) => crate::launcher::json_strings(a@),
        _ => Seq::empty(),
    }
}

fn string_members_exec(v: &Json, key: &str) -> (r: Vec<String>)
    ensures
        crate::text::string_views(r@) == string_members(*v, key@),
{
    let mut out: Vec<String> = Vec::new();
    if let Some(j) = v.get(key) {
        if let Some(a) = j.as_array() {
            let mut i: usize = 0;
            while i < a.len()
                invariant
                    i <= a.len(),
                    crate::text::string_views(out@) == crate::launcher::json_strings(a@.take(i as int)),
                decreases a.len() - i,
            {
                assert(a@.take(i + 1).drop_last() =~= a@.take(i as int));
                if let Some(s) = a[i].as_str() {
                    let ghost before = crate::text::string_views(out@);
                    out.push(s.clone());
                    assert(crate::text::string_views(out@) =~= before.push(s@));
                }
                i = i + 1;
            }
            assert(a@.take(a.len() as int) =~= a@);
            return out;
        }
    }
    assert(crate::text::string_views(out@) =~= Seq::<Seq<char>>::empty());
    out
}

/// `item` is what a `notification.new` message `v` describes, with id
/// `id`, the resolved icon `icon` and the time `now`.
pub open spec fn item_from_message(item: NotificationItem, v: Json, id: u32, icon: Option<String>, now: u64) -> bool {
    &&& item.id == id
    &&& item.app_name@ == json_str_or(v, "app_name"@, "System"@)
    &&& item.summary@ == json_str_or(v, "summary"@, ""@)
    &&& item.body@ == json_str_or(v, "body"@, ""@)
    &&& item.icon@ == json_str_or(v, "icon"@, ""@)
    &&& item.image_path == match v.spec_get("image_path"@) {
        Some(Json::Str(s)) => Some(s),
        _ => icon,
    }
    &&& crate::text::string_views(item.actions@) == string_members(v, "actions"@)
    &&& item.timestamp == now
}

/// How long a toast stays, from the message's `expire_timeout`: that many
/// milliseconds, a minute for zero, five seconds for a negative value.
pub open spec fn toast_duration(v: Json) -> u64 {
    let t: i64 = match v.spec_get("expire_timeout"@) {
        Some(j) => match j.spec_as_i64() {
            Some(n) => n,
            None => 0,
        },
        None => 0,
    };
    if t > 0 { t as u64 } else if t == 0 { 60_000 } else { 5_000 }
}

/// A toast stays as long as the sender asked: a positive `expire_timeout`
/// of `t` milliseconds gives `t`; zero or none gives a minute; a negative
/// one gives five seconds.
pub proof fn law_toast_stays_as_asked(v: Json, t: i64)
    ensures
        (v.spec_get("expire_timeout"@) matches Some(j) && j.spec_as_i64() == Some(t) && t > 0)
            ==> toast_duration(v) == t,
        (v.spec_get("expire_timeout"@) matches Some(j) && j.spec_as_i64() == Some(t) && t < 0)
            ==> toast_duration(v) == 5_000,
        v.spec_get("expire_timeout"@) is None ==> toast_duration(v) == 60_000,
{
}

/// The position of the first notification with id `id`.
pub open spec fn position_of(ns: Seq<NotificationItem>, id: u32) -> Option<int>
    decreases ns.len(),
{
    if ns.len() == 0 {
        None
    } else {
        match position_of(ns.drop_last(), id) {
            Some(p) => Some(p),
            None => if ns.last().id == id { Some(ns.len() - 1) } else { None },
        }
    }
}

fn position_of_exec(ns: &Vec<NotificationItem>, id: u32) -> (r: Option<usize>)
    ensures
        match r {
            Some(p) => position_of(ns@, id) == Some(p as int) && p < ns@.len(),
            None => position_of(ns@, id) is None,
        },
{
    let mut i: usize = 0;
    while i < ns.len()
        invariant
            i <= ns.len(),
            position_of(ns@.take(i as int), id) is None,
        decreases ns.len() - i,
    {
        assert(ns@.take(i + 1).drop_last() =~= ns@.take(i as int));
        if ns[i].id == id {
            proof {
                lemma_position_prefix(ns@, i + 1, id);
            }
            return Some(i);
        }
        i = i + 1;
    }
    assert(ns@.take(ns.len() as int) =~= ns@);
    None
}

proof fn lemma_position_prefix(s: Seq<NotificationItem>, k: int, id: u32)
    requires
        0 <= k <= s.len(),
        position_of(s.take(k), id) is Some,
    ensures
        position_of(s, id) == position_of(s.take(k), id),
    decreases s.len(),
{
    if k == s.len() {
        assert(s.take(k) =~= s);
    } else {
        assert(s.drop_last().take(k) =~= s.take(k));
        lemma_position_prefix(s.drop_last(), k, id);
    }
}

/// The list after a new notification: it replaces the first one of its id
/// or goes first, and the list keeps at most `MAX_ITEMS`.
pub open spec fn list_after_new(old_list: Seq<NotificationItem>, new_list: Seq<NotificationItem>, item_ok: spec_fn(NotificationItem) -> bool, id: u32) -> bool {
    match position_of(old_list, id) {
        Some(p) => {
            &&& new_list.len() == (if old_list.len() > MAX_ITEMS { MAX_ITEMS as int } else { old_list.len() as int })
            &&& forall|i: int| 0 <= i < new_list.len() ==> if i == p { item_ok(#[trigger] new_list[i]) } else { new_list[i] == old_list[i] }
        },
        None => {
            &&& new_list.len() == (if old_list.len() + 1 > MAX_ITEMS { MAX_ITEMS as int } else { old_list.len() + 1int })
            &&& new_list.len() > 0 && item_ok(new_list[0])
            &&& forall|i: int| 0 < i < new_list.len() ==> #[trigger] new_list[i] == old_list[i - 1]
        },
    }
}

impl NotificationsModule {
    /// The icon names tried for a new notification's picture, in order.
    pub fn icon_candidates(value: &Json) -> (r: Vec<String>)
        ensures
            crate::text::string_views(r@) == (if json_str_or(*value, "icon"@, ""@).len() > 0 {
                seq![json_str_or(*value, "icon"@, ""@)]
            } else {
                Seq::<Seq<char>>::empty()
            }) + seq![json_str_or(*value, "app_name"@, "System"@), "preferences-desktop-notification"@, "dialog-information"@],
    {
        let mut out: Vec<String> = Vec::new();
        let raw = json_str_or_exec(value, "icon", "");
        if raw.unicode_len() > 0 {
            out.push(raw);
        }
        out.push(json_str_or_exec(value, "app_name", "System"));
        out.push("preferences-desktop-notification".to_string());
        out.push("dialog-information".to_string());
        assert(crate::text::string_views(out@) =~= (if json_str_or(*value, "icon"@, ""@).len() > 0 {
                seq![json_str_or(*value, "icon"@, ""@)]
            } else {
                Seq::<Seq<char>>::empty()
            }) + seq![json_str_or(*value, "app_name"@, "System"@), "preferences-desktop-notification"@, "dialog-information"@]);
        out
    }

    /// Takes in a `notification.new` message at time `now`, with the
    /// picture `icon` found for it; a message without an id gets the next
    /// one. Unless do-not-disturb is on, the toast shows it; the result is
    /// then how long.
    pub fn on_new(&mut self, value: &Json, icon: Option<String>, now: u64) -> (r: Option<u64>)
        requires
            msg_id(*value) is None ==> old(self).next_id < u32::MAX,
        ensures
            ({
                let id: u32 = match msg_id(*value) {
                    Some(i) => i,
                    None => (old(self).next_id + 1) as u32,
                };
                let bumped: u32 = match msg_id(*value) {
                    Some(i) => old(self).next_id,
                    None => (old(self).next_id + 1) as u32,
                };
                &&& final(self).next_id == (if bumped >= id { bumped } else { id })
                &&& list_after_new(old(self).notifications@, final(self).notifications@,
                    |n: NotificationItem| item_from_message(n, *value, id, icon, now), id)
                &&& if old(self).dnd {
                    r is None && final(self).toast_id == old(self).toast_id
                        && final(self).toast_opened_at == old(self).toast_opened_at
                        && final(self).toast_duration_ms == old(self).toast_duration_ms
                } else {
                    r == Some(toast_duration(*value)) && final(self).toast_id == Some(id)
                        && final(self).toast_opened_at == Some(now)
                        && final(self).toast_duration_ms == toast_duration(*value)
                }
            }),
            final(self).dnd == old(self).dnd,
            final(self).last_count == old(self).last_count,
            final(self).last_dnd == old(self).last_dnd,
            !old(self).dnd && (value.spec_get("expire_timeout"@) matches Some(j) && j.spec_as_i64() matches Some(t)
                && t > 0) ==> r == Some(value.spec_get("expire_timeout"@)->0.spec_as_i64()->0 as u64)
                && final(self).toast_duration_ms == value.spec_get("expire_timeout"@)->0.spec_as_i64()->0 as u64,
    {
        let id = match msg_id_exec(value) {
            Some(i) => i,
            None => {
                self.next_id = self.next_id + 1;
                self.next_id
            },
        };
        if id > self.next_id {
            self.next_id = id;
        }
        let image_path = match value.get("image_path") {
            Some(j) => match j.as_str() {
                Some(s) => Some(s.clone()),
                None => icon,
            },
            None => icon,
        };
        let item = NotificationItem {
            id,
            app_name: json_str_or_exec(value, "app_name", "System"),
            summary: json_str_or_exec(value, "summary", ""),
            body: json_str_or_exec(value, "body", ""),
            icon: json_str_or_exec(value, "icon", ""),
            image_path,
            actions: string_members_exec(value, "actions"),
            timestamp: now,
        };
        let ghost old_list = self.notifications@;
        match position_of_exec(&self.notifications, id) {
            Some(p) => {
                self.notifications.set(p, item);
            },
            None => {
                self.notifications.insert(0, item);
            },
        }
        if self.notifications.len() > MAX_ITEMS {
            self.notifications.truncate(MAX_ITEMS);
        }
        if self.dnd {
            return None;
        }
        let expire: i64 = match value.get("expire_timeout") {
            Some(j) => match j.as_i64() {
                Some(n) => n,
                None => 0,
            },
            None => 0,
        };
        let duration: u64 = if expire > 0 { expire as u64 } else if expire == 0 { 60_000 } else { 5_000 };
        self.toast_id = Some(id);
        self.toast_opened_at = Some(now);
        self.toast_duration_ms = duration;
        Some(duration)
    }
}

/// What an event on the notification widgets asks for.
#[derive(Debug, PartialEq, Eq)]
pub enum CenterEvent {
    /// The daemon has a new notification: read its list again.
    Arrived,
    /// The toast's close button.
    CloseToast,
    /// A click on the toast: its notification's default action, when the
    /// id reads.
    ToastAction(Option<u32>),
    ToggleDnd,
    ClearAll,
    /// A notification's dismiss button, with its id when that reads.
    Dismiss(Option<u32>),
    /// Show the list.
    Show,
    Nothing,
}

pub open spec fn id_after(w: Seq<char>, prefix: Seq<char>) -> Option<u32> {
    match spec_parse_nat(spec_trim_start_matches(w, prefix)) {
        Some(n) => if n <= u32::MAX { Some(n as u32) } else { None },
        None => None,
    }
}

pub open spec fn spec_center_event(w: Seq<char>, e: Seq<char>) -> CenterEvent {
    if w == "notification.new"@ {
        CenterEvent::Arrived
    } else if w == "toast_close"@ {
        CenterEvent::CloseToast
    } else if spec_starts_with(w, "toast_action_"@) {
        CenterEvent::ToastAction(id_after(w, "toast_action_"@))
    } else if spec_contains(w, "dnd"@) || w == "toggle_dnd"@ {
        CenterEvent::ToggleDnd
    } else if w == "clear_all_notifs"@ {
        CenterEvent::ClearAll
    } else if spec_starts_with(w, "dismiss_notif_"@) {
        CenterEvent::Dismiss(id_after(w, "dismiss_notif_"@))
    } else if e == "open"@ || e == "click"@ {
        CenterEvent::Show
    } else {
        CenterEvent::Nothing
    }
}

fn id_after_exec(w: &str, prefix: &str) -> (r: Option<u32>)
    ensures
        r == id_after(w@, prefix@),
{
    parse_u32(trim_start_matches(w, prefix).as_str())
}

/// Decides what an event on the notification widgets asks for.
pub fn center_event(widget_id: &str, event: &str) -> (r: CenterEvent)
    ensures
        r == spec_center_event(widget_id@, event@),
{
    let w = chars_of(widget_id);
    if str_is(widget_id, "notification.new") {
        CenterEvent::Arrived
    } else if str_is(widget_id, "toast_close") {
        CenterEvent::CloseToast
    } else if starts_with(&w, &chars_of("toast_action_")) {
        CenterEvent::ToastAction(id_after_exec(widget_id, "toast_action_"))
    } else if contains(&w, &chars_of("dnd")) || str_is(widget_id, "toggle_dnd") {
        CenterEvent::ToggleDnd
    } else if str_is(widget_id, "clear_all_notifs") {
        CenterEvent::ClearAll
    } else if starts_with(&w, &chars_of("dismiss_notif_")) {
        CenterEvent::Dismiss(id_after_exec(widget_id, "dismiss_notif_"))
    } else if str_is(event, "open") || str_is(event, "click") {
        CenterEvent::Show
    } else {
        CenterEvent::Nothing
    }
}

/// A notification of the daemon's list, when its record has an id.
pub open spec fn record_item(item: NotificationItem, rec: Json) -> bool {
    &&& Some(item.id) == msg_id(rec)
    &&& item.app_name@ == json_str_or(rec, "app_name"@, "System"@)
    &&& item.summary@ == json_str_or(rec, "summary"@, ""@)
    &&& item.body@ == json_str_or(rec, "body"@, ""@)
    &&& item.icon@ == json_str_or(rec, "icon"@, ""@)
    &&& item.image_path == match rec.spec_get("image_path"@) {
        Some(Json::Str(s)) => Some(s),
        _ => None::<String>,
    }
    &&& item.actions@.len() == 0
    &&& item.timestamp == match rec.spec_get("timestamp_ms"@) {
        Some(j) => match j.spec_as_u64() {
            Some(t) => t,
            None => 0,
        },
        None => 0,
    }
}

/// The records that have an id.
pub open spec fn with_ids(recs: Seq<Json>) -> Seq<Json> {
    recs.filter(|r: Json| msg_id(r) is Some)
}

impl NotificationsModule {
    /// Shows notification `index` in the toast for `duration_ms` from `now`.
    pub fn open_toast(&mut self, index: usize, duration_ms: u64, now: u64)
        requires
            index < old(self).notifications@.len(),
        ensures
            final(self).toast_id == Some(old(self).notifications@[index as int].id),
            final(self).toast_opened_at == Some(now),
            final(self).toast_duration_ms == duration_ms,
            final(self).notifications@ == old(self).notifications@,
            final(self).dnd == old(self).dnd,
            final(self).next_id == old(self).next_id,
            final(self).last_count == old(self).last_count,
            final(self).last_dnd == old(self).last_dnd,
    {
        self.toast_id = Some(self.notifications[index].id);
        self.toast_opened_at = Some(now);
        self.toast_duration_ms = duration_ms;
    }

    /// The toast's close button: closes it; returns the id it showed.
    pub fn close_toast(&mut self) -> (r: Option<u32>)
        ensures
            r == old(self).toast_id,
            final(self).toast_id is None && final(self).toast_opened_at is None,
            final(self).notifications@ == old(self).notifications@,
            same_settings(*old(self), *final(self)),
    {
        let id = self.toast_id;
        self.toast_id = None;
        self.toast_opened_at = None;
        id
    }

    /// A `notification.closed` message: the toast closes if it shows that
    /// notification, and a notification dismissed by the user (reason 2)
    /// or by its sender (reason 3) leaves the list. Returns whether the
    /// toast closed and whether the list changed.
    pub fn on_closed_message(&mut self, value: &Json) -> (r: (bool, bool))
        ensures
            match msg_id(*value) {
                Some(id) => {
                    let reason: u64 = match value.spec_get("reason"@) {
                        Some(j) => match j.spec_as_u64() {
                            Some(n) => n,
                            None => 0,
                        },
                        None => 0,
                    };
                    &&& r.0 == (old(self).toast_id == Some(id))
                    &&& r.1 == (reason == 2 || reason == 3)
                    &&& final(self).notifications@ == if r.1 {
                        old(self).notifications@.filter(id_differs(id))
                    } else {
                        old(self).notifications@
                    }
                },
                None => r == (false, false) && final(self).notifications@ == old(self).notifications@
                    && final(self).toast_id == old(self).toast_id,
            },
            same_settings(*old(self), *final(self)),
    {
        match msg_id_exec(value) {
            Some(id) => {
                let closed = self.close_toast_for(id);
                let reason: u64 = match value.get("reason") {
                    Some(j) => match j.as_u64() {
                        Some(n) => n,
                        None => 0,
                    },
                    None => 0,
                };
                if reason == 2 || reason == 3 {
                    self.remove(id);
                    (closed, true)
                } else {
                    (closed, false)
                }
            },
            None => (false, false),
        }
    }

    /// Takes the daemon's list and do-not-disturb state from its status;
    /// nothing changes when the status holds no list.
    pub fn sync_from_status(&mut self, status: &Json) -> (applied: bool)
        ensures
            applied == (status.spec_get("notifications"@) matches Some(Json::Array(_))),
            applied ==> ({
                let recs = with_ids(status.spec_get("notifications"@)->Some_0->Array_0@);
                &&& final(self).notifications@.len() == recs.len()
                &&& forall|i: int| 0 <= i < recs.len() ==> record_item(#[trigger] final(self).notifications@[i], recs[i])
                &&& final(self).dnd == match status.spec_get("dnd"@) {
                    Some(j) => match j.spec_as_bool() {
                        Some(b) => b,
                        None => old(self).dnd,
                    },
                    None => old(self).dnd,
                }
            }),
            !applied ==> final(self).notifications@ == old(self).notifications@ && final(self).dnd == old(self).dnd,
            final(self).toast_id == old(self).toast_id,
    {
        let recs = match status.get("notifications") {
            Some(j) => match j.as_array() {
                Some(a) => a,
                None => return false,
            },
            None => return false,
        };
        let mut items: Vec<NotificationItem> = Vec::new();
        let mut i: usize = 0;
        let ghost pick = |r: Json| msg_id(r) is Some;
        while i < recs.len()
            invariant
                i <= recs.len(),
                pick == (|r: Json| msg_id(r) is Some),
                items@.len() == recs@.take(i as int).filter(pick).len(),
                forall|k: int| 0 <= k < items@.len() ==> record_item(#[trigger] items@[k], recs@.take(i as int).filter(pick)[k]),
            decreases recs.len() - i,
        {
            proof {
                recs@.take(i as int).lemma_filter_push(recs@[i as int], pick);
                assert(recs@.take(i + 1) =~= recs@.take(i as int).push(recs@[i as int]));
            }
            let rec = &recs[i];
            if let Some(id) = msg_id_exec(rec) {
                let image_path = match rec.get("image_path") {
                    Some(j) => match j.as_str() {
                        Some(s) => Some(s.clone()),
                        None => None,
                    },
                    None => None,
                };
                let timestamp: u64 = match rec.get("timestamp_ms") {
                    Some(j) => match j.as_u64() {
                        Some(t) => t,
                        None => 0,
                    },
                    None => 0,
                };
                items.push(NotificationItem {
                    id,
                    app_name: json_str_or_exec(rec, "app_name", "System"),
                    summary: json_str_or_exec(rec, "summary", ""),
                    body: json_str_or_exec(rec, "body", ""),
                    icon: json_str_or_exec(rec, "icon", ""),
                    image_path,
                    actions: Vec::new(),
                    timestamp,
                });
            }
            i = i + 1;
        }
        assert(recs@.take(recs.len() as int) =~= recs@);
        self.notifications = items;
        if let Some(j) = status.get("dnd") {
            if let Some(b) = j.as_bool() {
                self.dnd = b;
            }
        }
        true
    }

    /// The first notification whose id is not among `previous`.
    pub fn first_new(&self, previous: &Vec<u32>) -> (r: Option<usize>)
        ensures
            match r {
                Some(i) => i < self.notifications@.len() && !previous@.contains(self.notifications@[i as int].id)
                    && forall|j: int| 0 <= j < i ==> previous@.contains(#[trigger] self.notifications@[j].id),
                None => forall|j: int| 0 <= j < self.notifications@.len() ==> previous@.contains(#[trigger] self.notifications@[j].id),
            },
    {
        let mut i: usize = 0;
        while i < self.notifications.len()
            invariant
                i <= self.notifications.len(),
                forall|j: int| 0 <= j < i ==> previous@.contains(#[trigger] self.notifications@[j].id),
            decreases self.notifications.len() - i,
        {
            let id = self.notifications[i].id;
            let mut k: usize = 0;
            let mut seen = false;
            while k < previous.len()
                invariant
                    k <= previous.len(),
                    seen == exists|m: int| 0 <= m < k && previous@[m] == id,
                decreases previous.len() - k,
            {
                if previous[k] == id {
                    seen = true;
                }
                k = k + 1;
            }
            if !seen {
                return Some(i);
            }
            i = i + 1;
        }
        None
    }

    /// The ids of the notifications, in order.
    pub fn ids(&self) -> (r: Vec<u32>)
        ensures
            r@ == self.notifications@.map_values(|n: NotificationItem| n.id),
    {
        let mut r: Vec<u32> = Vec::new();
        let mut i: usize = 0;
        while i < self.notifications.len()
            invariant
                i <= self.notifications.len(),
                r@ == self.notifications@.take(i as int).map_values(|n: NotificationItem| n.id),
            decreases self.notifications.len() - i,
        {
            r.push(self.notifications[i].id);
            assert(self.notifications@.take(i + 1).map_values(|n: NotificationItem| n.id) =~= self.notifications@.take(i as int).map_values(|n: NotificationItem| n.id).push(self.notifications@[i as int].id));
            i = i + 1;
        }
        assert(self.notifications@.take(self.notifications.len() as int) =~= self.notifications@);
        r
    }

    /// Clears the list; returns the ids that were in it.
    pub fn clear_all(&mut self) -> (r: Vec<u32>)
        ensures
            r@ == old(self).notifications@.map_values(|n: NotificationItem| n.id),
            final(self).notifications@.len() == 0,
            final(self).toast_id == old(self).toast_id,
            same_settings(*old(self), *final(self)),
    {
        let ids = self.ids();
        self.notifications = Vec::new();
        ids
    }
}

} // verus!
