//! Notification history kept by the notification daemon.

use vstd::prelude::*;
use crate::text::str_is;

verus! {

broadcast use vstd::seq_lib::group_seq_properties;

/// Upper bound on the number of notifications kept.
pub const MAX_NOTIFICATIONS: usize = 32;

#[derive(Debug, Clone, Default)]
pub struct NotificationRecord {
    pub id: u32,
    pub app_name: String,
    pub summary: String,
    pub body: String,
    pub icon: String,
    pub image_path: Option<String>,
    pub timestamp_ms: u64,
}

#[derive(Debug, Clone, Default)]
pub struct NotificationStatus {
    pub notifications: Vec<NotificationRecord>,
    pub count: usize,
    pub dnd: bool,
}

/// The daemon's notification state.
#[derive(Debug)]
pub struct NotificationService {
    pub(crate) state: NotificationStatus,
}

impl NotificationRecord {
    /// A field-by-field copy.
    pub fn duplicate(&self) -> (r: NotificationRecord)
        ensures
            r == *self,
    {
        NotificationRecord {
            id: self.id,
            app_name: self.app_name.clone(),
            summary: self.summary.clone(),
            body: self.body.clone(),
            icon: self.icon.clone(),
            image_path: match &self.image_path {
                Some(p) => Some(p.clone()),
                None => None,
            },
            timestamp_ms: self.timestamp_ms,
        }
    }
}

impl NotificationStatus {
    /// The count agrees with the list, and the list is within its cap.
    pub open spec fn wf(&self) -> bool {
        &&& self.count == self.notifications@.len()
        &&& self.notifications@.len() <= MAX_NOTIFICATIONS
    }

    /// A copy of the whole status.
    pub fn duplicate(&self) -> (r: NotificationStatus)
        ensures
            r.notifications@ == self.notifications@,
            r.count == self.count,
            r.dnd == self.dnd,
    {
        let mut list: Vec<NotificationRecord> = Vec::new();
        let mut i: usize = 0;
        while i < self.notifications.len()
            invariant
                i <= self.notifications@.len(),
                list@ == self.notifications@.take(i as int),
            decreases self.notifications@.len() - i,
        {
            assert(self.notifications@.take(i + 1) == self.notifications@.take(i as int).push(
                self.notifications@[i as int],
            ));
            list.push(self.notifications[i].duplicate());
            i = i + 1;
        }
        assert(self.notifications@.take(self.notifications@.len() as int) == self.notifications@);
        NotificationStatus { notifications: list, count: self.count, dnd: self.dnd }
    }
}

/// The list after `r` is put in front and the list is cut to its cap.
pub open spec fn pushed(ns: Seq<NotificationRecord>, r: NotificationRecord) -> Seq<NotificationRecord> {
    let all = seq![r] + ns;
    if all.len() > MAX_NOTIFICATIONS { all.take(MAX_NOTIFICATIONS as int) } else { all }
}

/// Whether some notification of `ns` carries `id`.
pub open spec fn lists_id(ns: Seq<NotificationRecord>, id: u32) -> bool {
    exists|i: int| 0 <= i < ns.len() && #[trigger] ns[i].id == id
}

/// Whether `i` is the position of the first notification of `ns` with `id`.
pub open spec fn is_first_with_id(ns: Seq<NotificationRecord>, i: int, id: u32) -> bool {
    &&& 0 <= i < ns.len()
    &&& ns[i].id == id
    &&& forall|j: int| 0 <= j < i ==> #[trigger] ns[j].id != id
}

pub open spec fn id_differs(id: u32) -> spec_fn(NotificationRecord) -> bool {
    |n: NotificationRecord| n.id != id
}

/// The list without the notifications carrying `id`.
pub open spec fn without_id(ns: Seq<NotificationRecord>, id: u32) -> Seq<NotificationRecord> {
    ns.filter(id_differs(id))
}

impl View for NotificationService {
    type V = NotificationStatus;

    /// The status the service holds.
    closed spec fn view(&self) -> NotificationStatus {
        self.state
    }
}

impl NotificationService {
    /// Every service keeps its count equal to its list's length and the list
    /// within `MAX_NOTIFICATIONS`, whatever was done to it.
    #[verifier::type_invariant]
    spec fn keeps_status_wf(self) -> bool {
        self.state.wf()
    }

    /// An empty status, held while the real one is being changed.
    fn take_status(&mut self) -> (st: NotificationStatus)
        ensures
            st == old(self)@,
            st.wf(),
            final(self)@.notifications@.len() == 0,
    {
        proof {
            use_type_invariant(&*self);
        }
        let mut st = NotificationStatus { notifications: Vec::new(), count: 0, dnd: false };
        std::mem::swap(&mut st, &mut self.state);
        st
    }

    pub fn new() -> (s: Self)
        ensures
            s@.notifications@ == Seq::<NotificationRecord>::empty(),
            s@.count == 0,
            !s@.dnd,
            s@.wf(),
    {
        NotificationService {
            state: NotificationStatus { notifications: Vec::new(), count: 0, dnd: false },
        }
    }

    /// A snapshot of the current state; its count is always the length of
    /// its list, which never holds more than `MAX_NOTIFICATIONS`.
    pub fn status(&self) -> (r: NotificationStatus)
        ensures
            r.notifications@ == self@.notifications@,
            r.count == self@.count,
            r.dnd == self@.dnd,
            r.wf(),
    {
        proof {
            use_type_invariant(self);
        }
        self.state.duplicate()
    }

    /// Puts a notification in front, keeping at most `MAX_NOTIFICATIONS`.
    pub fn push(&mut self, record: NotificationRecord)
        ensures
            final(self)@.notifications@ == pushed(old(self)@.notifications@, record),
            final(self)@.count == final(self)@.notifications@.len(),
            final(self)@.dnd == old(self)@.dnd,
            final(self)@.wf(),
    {
        let mut st = self.take_status();
        st.notifications.insert(0, record);
        st.notifications.truncate(MAX_NOTIFICATIONS);
        st.count = st.notifications.len();
        self.state = st;
    }

    /// Removes every notification with the given id; true when one was removed.
    /// The close reason is accepted and not used.
    pub fn dismiss(&mut self, id: u32, reason: u32) -> (removed: bool)
        ensures
            final(self)@.notifications@ == without_id(old(self)@.notifications@, id),
            final(self)@.count == final(self)@.notifications@.len(),
            final(self)@.dnd == old(self)@.dnd,
            removed == (exists|i: int| 0 <= i < old(self)@.notifications@.len()
                && #[trigger] old(self)@.notifications@[i].id == id),
            final(self)@.wf(),
    {
        proof {
            use_type_invariant(&*self);
        }
        let ghost old_list = self.state.notifications@;
        let mut kept: Vec<NotificationRecord> = Vec::new();
        let mut found = false;
        let mut i: usize = 0;
        while i < self.state.notifications.len()
            invariant
                self.state.notifications@ == old_list,
                i <= old_list.len(),
                kept@ == without_id(old_list.take(i as int), id),
                found == (exists|j: int| 0 <= j < i && #[trigger] old_list[j].id == id),
            decreases old_list.len() - i,
        {
            assert(old_list.take(i + 1) == old_list.take(i as int).push(old_list[i as int]));
            proof {
                old_list.take(i as int).lemma_filter_push(old_list[i as int], id_differs(id));
            }
            if self.state.notifications[i].id != id {
                kept.push(self.state.notifications[i].duplicate());
            } else {
                found = true;
            }
            i = i + 1;
        }
        assert(old_list.take(old_list.len() as int) == old_list);
        proof {
            old_list.lemma_filter_len(id_differs(id));
        }
        let count = kept.len();
        self.state = NotificationStatus { notifications: kept, count, dnd: self.state.dnd };
        found
    }

    /// Removes every notification.
    pub fn clear(&mut self)
        ensures
            final(self)@.notifications@ == Seq::<NotificationRecord>::empty(),
            final(self)@.count == 0,
            final(self)@.dnd == old(self)@.dnd,
            final(self)@.wf(),
    {
        self.state = NotificationStatus { notifications: Vec::new(), count: 0, dnd: self.state.dnd };
    }

    /// Turns do-not-disturb on or off.
    pub fn set_dnd(&mut self, enabled: bool)
        ensures
            final(self)@.notifications@ == old(self)@.notifications@,
            final(self)@.count == old(self)@.count,
            final(self)@.dnd == enabled,
            final(self)@.wf(),
    {
        proof {
            use_type_invariant(&*self);
        }
        self.state.dnd = enabled;
    }
}

/// Pushing keeps the newest notification first, never keeps more than
/// `MAX_NOTIFICATIONS`, and keeps the older ones in order behind it.
pub proof fn law_push_newest_first_and_capped(ns: Seq<NotificationRecord>, r: NotificationRecord)
    ensures
        pushed(ns, r)[0] == r,
        pushed(ns, r).len() <= MAX_NOTIFICATIONS,
        pushed(ns, r).len() == if ns.len() < MAX_NOTIFICATIONS { ns.len() + 1 } else { MAX_NOTIFICATIONS as nat },
        forall|i: int| 0 < i < pushed(ns, r).len() ==> #[trigger] pushed(ns, r)[i] == ns[i - 1],
{
}

/// After dismissing an id no notification carries it, and no notification
/// with another id is lost.
pub proof fn law_dismiss_removes_exactly_id(ns: Seq<NotificationRecord>, id: u32)
    ensures
        forall|i: int| 0 <= i < without_id(ns, id).len() ==> (#[trigger] without_id(ns, id)[i]).id != id,
        forall|i: int| 0 <= i < ns.len() && ns[i].id != id ==> without_id(ns, id).contains(#[trigger] ns[i]),
        without_id(ns, id).len() <= ns.len(),
{
    ns.lemma_filter_len(id_differs(id));
    assert forall|i: int| 0 <= i < without_id(ns, id).len() implies (#[trigger] without_id(ns, id)[i]).id != id by {
        ns.lemma_filter_pred(id_differs(id), i);
    }
    assert forall|i: int| 0 <= i < ns.len() && ns[i].id != id implies without_id(ns, id).contains(#[trigger] ns[i]) by {
        ns.lemma_filter_contains(id_differs(id), i);
    }
}

/// Every operation of the service keeps the count equal to the list length
/// and the list within its cap.
pub proof fn law_service_keeps_status_wf(ns: Seq<NotificationRecord>, r: NotificationRecord, id: u32)
    requires
        ns.len() <= MAX_NOTIFICATIONS,
    ensures
        pushed(ns, r).len() <= MAX_NOTIFICATIONS,
        without_id(ns, id).len() <= MAX_NOTIFICATIONS,
{
    ns.lemma_filter_len(id_differs(id));
}

/// A change made to the service's history, as `push`, `notify`, `dismiss`,
/// `clear` and `set_dnd` make it.
#[derive(Debug)]
pub enum HistoryChange {
    Push(NotificationRecord),
    /// A notification from `notify`, with the `replaces_id` it came with.
    Notify(NotificationRecord, u32),
    Dismiss(u32),
    Clear,
    SetDnd(bool),
}

/// The list after one change, as the operations' contracts give it.
pub open spec fn changed(ns: Seq<NotificationRecord>, c: HistoryChange) -> Seq<NotificationRecord> {
    match c {
        HistoryChange::Push(r) => pushed(ns, r),
        HistoryChange::Notify(r, rid) => if rid != 0 && lists_id(ns, rid) {
            ns.update(choose|i: int| is_first_with_id(ns, i, rid), r)
        } else {
            pushed(ns, r)
        },
        HistoryChange::Dismiss(id) => without_id(ns, id),
        HistoryChange::Clear => Seq::empty(),
        HistoryChange::SetDnd(_) => ns,
    }
}

/// The list after a sequence of changes, first to last.
pub open spec fn replayed(ns: Seq<NotificationRecord>, cs: Seq<HistoryChange>) -> Seq<NotificationRecord>
    decreases cs.len(),
{
    if cs.len() == 0 {
        ns
    } else {
        changed(replayed(ns, cs.drop_last()), cs.last())
    }
}

proof fn lemma_first_with_id_exists(ns: Seq<NotificationRecord>, id: u32)
    requires
        lists_id(ns, id),
    ensures
        exists|i: int| is_first_with_id(ns, i, id),
    decreases ns.len(),
{
    let init = ns.drop_last();
    if lists_id(init, id) {
        lemma_first_with_id_exists(init, id);
        let i = choose|i: int| is_first_with_id(init, i, id);
        assert(init[i] == ns[i]);
        assert forall|j: int| 0 <= j < i implies #[trigger] ns[j].id != id by {
            assert(init[j] == ns[j]);
        }
        assert(is_first_with_id(ns, i, id));
    } else {
        let k = choose|k: int| 0 <= k < ns.len() && #[trigger] ns[k].id == id;
        assert forall|j: int| 0 <= j < ns.len() - 1 implies #[trigger] ns[j].id != id by {
            assert(init[j] == ns[j]);
        }
        assert(is_first_with_id(ns, ns.len() - 1, id));
    }
}

/// Whatever sequence of changes a fresh service goes through, its history
/// never holds more than `MAX_NOTIFICATIONS`; since every operation also
/// sets the count to the list's length, the status it reports stays
/// well-formed.
pub proof fn law_history_stays_capped(cs: Seq<HistoryChange>)
    ensures
        replayed(Seq::empty(), cs).len() <= MAX_NOTIFICATIONS,
    decreases cs.len(),
{
    if cs.len() > 0 {
        law_history_stays_capped(cs.drop_last());
        let ns = replayed(Seq::empty(), cs.drop_last());
        match cs.last() {
            HistoryChange::Dismiss(id) => {
                ns.lemma_filter_len(id_differs(id));
            },
            HistoryChange::Notify(r, rid) => {
                if rid != 0 && lists_id(ns, rid) {
                    lemma_first_with_id_exists(ns, rid);
                }
            },
            _ => {},
        }
    }
}

/// A request read from the daemon's socket.
#[derive(Debug)]
pub struct NotificationRequest {
    pub cmd: String,
    pub id: Option<u32>,
    pub reason: Option<u32>,
    pub dnd: Option<bool>,
}

/// What the daemon answers a socket request with.
#[derive(Debug)]
pub enum NotificationReply {
    /// The whole status (for `status` and `list`).
    Status(NotificationStatus),
    Dismissed { ok: bool, id: u32, reason: u32 },
    Cleared,
    Dnd(bool),
    /// The client is subscribed: events follow on its connection.
    Subscribe,
    /// A test notification was queued.
    Notified(NotificationRecord),
    UnknownCommand,
}

impl NotificationService {
    /// Answers a socket request, changing the state as it asks. `now_ms` is
    /// the time stamp given to a notification queued by `notify`.
    pub fn handle_request(&mut self, req: &NotificationRequest, now_ms: u64) -> (r: NotificationReply)
        ensures
            (req.cmd@ == "status"@ || req.cmd@ == "list"@) ==> (r matches NotificationReply::Status(st)
                && st.notifications@ == old(self)@.notifications@ && st.count == old(self)@.count
                && st.dnd == old(self)@.dnd && final(self)@ == old(self)@),
            req.cmd@ == "dismiss"@ ==> {
                let id = match req.id { Some(i) => i, None => 0u32 };
                let reason = match req.reason { Some(x) => x, None => 2u32 };
                &&& r matches NotificationReply::Dismissed { ok, id: rid, reason: rr }
                    && rid == id && rr == reason
                    && ok == (exists|i: int| 0 <= i < old(self)@.notifications@.len()
                        && #[trigger] old(self)@.notifications@[i].id == id)
                &&& final(self)@.notifications@ == without_id(old(self)@.notifications@, id)
                &&& final(self)@.count == final(self)@.notifications@.len()
                &&& final(self)@.dnd == old(self)@.dnd
            },
            req.cmd@ == "clear"@ ==> r is Cleared && final(self)@.notifications@.len() == 0
                && final(self)@.count == 0 && final(self)@.dnd == old(self)@.dnd,
            req.cmd@ == "dnd"@ ==> {
                let on = match req.dnd { Some(b) => b, None => false };
                &&& r == NotificationReply::Dnd(on)
                &&& final(self)@.dnd == on
                &&& final(self)@.notifications@ == old(self)@.notifications@
                &&& final(self)@.count == old(self)@.count
            },
            req.cmd@ == "subscribe"@ ==> r is Subscribe && final(self)@ == old(self)@,
            req.cmd@ == "notify"@ ==> {
                let id = match req.id { Some(i) => i, None => 1u32 };
                &&& r matches NotificationReply::Notified(rec) && rec.id == id && rec.timestamp_ms == now_ms
                    && rec.app_name@ == "daemon"@ && rec.summary@ == "Notification"@
                    && rec.body@ == "Queued via socket"@ && rec.icon@.len() == 0 && rec.image_path is None
                    && final(self)@.notifications@ == pushed(old(self)@.notifications@, rec)
                &&& final(self)@.count == final(self)@.notifications@.len()
                &&& final(self)@.dnd == old(self)@.dnd
            },
            !(req.cmd@ == "status"@ || req.cmd@ == "list"@ || req.cmd@ == "dismiss"@ || req.cmd@ == "clear"@
                || req.cmd@ == "dnd"@ || req.cmd@ == "subscribe"@ || req.cmd@ == "notify"@)
                ==> r is UnknownCommand && final(self)@ == old(self)@,
            final(self)@.wf(),
    {
        let cmd = req.cmd.as_str();
        proof {
            use_type_invariant(&*self);
            reveal_strlit("status");
            reveal_strlit("list");
            reveal_strlit("dismiss");
            reveal_strlit("clear");
            reveal_strlit("dnd");
            reveal_strlit("subscribe");
            reveal_strlit("notify");
            assert("status"@.len() == 6 && "list"@.len() == 4 && "dismiss"@.len() == 7 && "clear"@.len() == 5);
            assert("dnd"@.len() == 3 && "subscribe"@.len() == 9 && "notify"@.len() == 6);
            assert("status"@[0] != "notify"@[0]);
        }
        if str_is(cmd, "status") || str_is(cmd, "list") {
            NotificationReply::Status(self.status())
        } else if str_is(cmd, "dismiss") {
            let id = match req.id { Some(i) => i, None => 0 };
            let reason = match req.reason { Some(x) => x, None => 2 };
            let ok = self.dismiss(id, reason);
            NotificationReply::Dismissed { ok, id, reason }
        } else if str_is(cmd, "clear") {
            self.clear();
            NotificationReply::Cleared
        } else if str_is(cmd, "dnd") {
            let on = match req.dnd { Some(b) => b, None => false };
            self.set_dnd(on);
            NotificationReply::Dnd(on)
        } else if str_is(cmd, "subscribe") {
            NotificationReply::Subscribe
        } else if str_is(cmd, "notify") {
            let id = match req.id { Some(i) => i, None => 1 };
            let record = NotificationRecord {
                id,
                app_name: "daemon".to_string(),
                summary: "Notification".to_string(),
                body: "Queued via socket".to_string(),
                icon: String::new(),
                image_path: None,
                timestamp_ms: now_ms,
            };
            self.push(record.duplicate());
            NotificationReply::Notified(record)
        } else {
            NotificationReply::UnknownCommand
        }
    }

    /// The position of the first notification with id `id`, if any.
    fn position_of(&self, id: u32) -> (r: Option<usize>)
        ensures
            match r {
                Some(i) => is_first_with_id(self.state.notifications@, i as int, id),
                None => !lists_id(self.state.notifications@, id),
            },
    {
        let mut i: usize = 0;
        while i < self.state.notifications.len()
            invariant
                i <= self.state.notifications@.len(),
                forall|j: int| 0 <= j < i ==> #[trigger] self.state.notifications@[j].id != id,
            decreases self.state.notifications@.len() - i,
        {
            if self.state.notifications[i].id == id {
                return Some(i);
            }
            i = i + 1;
        }
        None
    }

    /// A notification arrives over D-Bus. With a `replaces_id` of zero it
    /// gets the id `*next_id` (which then moves on by one, wrapping) and is
    /// put in front. With a non-zero `replaces_id` it keeps that id, as the
    /// FreeDesktop notification protocol asks: it takes the place of the
    /// first notification listed with that id, or is put in front when none
    /// is. Its image path is that of the `image-path` hint, else of
    /// `image_path`.
    pub fn notify(
        &mut self,
        next_id: &mut u32,
        replaces_id: u32,
        app_name: String,
        icon: String,
        summary: String,
        body: String,
        image_path_hint: Option<String>,
        image_path_alt: Option<String>,
        now_ms: u64,
    ) -> (id: u32)
        ensures
            id == (if replaces_id == 0 { *old(next_id) } else { replaces_id }),
            *final(next_id) == (if replaces_id != 0 {
                *old(next_id)
            } else if *old(next_id) == u32::MAX {
                0
            } else {
                (*old(next_id) + 1) as u32
            }),
            ({
                let rec = NotificationRecord {
                    id,
                    app_name,
                    summary,
                    body,
                    icon,
                    image_path: match image_path_hint {
                        Some(p) => Some(p),
                        None => image_path_alt,
                    },
                    timestamp_ms: now_ms,
                };
                let ns = old(self)@.notifications@;
                if replaces_id != 0 && lists_id(ns, replaces_id) {
                    exists|i: int| is_first_with_id(ns, i, replaces_id)
                        && final(self)@.notifications@ == ns.update(i, rec)
                } else {
                    final(self)@.notifications@ == pushed(ns, rec)
                }
            }),
            final(self)@.count == final(self)@.notifications@.len(),
            final(self)@.dnd == old(self)@.dnd,
            final(self)@.wf(),
    {
        let id = if replaces_id == 0 {
            let fresh = *next_id;
            *next_id = next_id.wrapping_add(1);
            fresh
        } else {
            replaces_id
        };
        let image_path = match image_path_hint {
            Some(p) => Some(p),
            None => image_path_alt,
        };
        let record = NotificationRecord { id, app_name, summary, body, icon, image_path, timestamp_ms: now_ms };
        let at = if replaces_id == 0 { None } else { self.position_of(replaces_id) };
        match at {
            Some(i) => {
                let mut st = self.take_status();
                st.notifications.set(i, record);
                self.state = st;
            },
            None => {
                self.push(record);
            },
        }
        id
    }
}

} // verus!
