//! Clipboard history state kept by the clipboard daemon.

use std::collections::VecDeque;
use vstd::prelude::*;
use crate::text::{chars_of, spec_contains, spec_trim, trim};

verus! {

broadcast use vstd::seq_lib::group_seq_properties;

/// Upper bound on the number of text entries kept.
pub const MAX_ENTRIES: usize = 50;
/// Upper bound on the number of image entries kept.
pub const MAX_IMAGE_ENTRIES: usize = 16;

#[derive(Debug, Clone)]
pub struct ClipboardEntry {
    pub id: u64,
    pub text: String,
    pub mime: String,
    pub timestamp: u64,
}

#[derive(Debug, Clone)]
pub struct ImageEntry {
    pub id: u64,
    pub path: String,
    pub bytes: Vec<u8>,
    pub timestamp: u64,
}

#[derive(Debug, Clone)]
pub struct ClipboardEntryPreview {
    pub id: u64,
    pub kind: String,
    pub text_preview: String,
    pub mime: String,
    pub timestamp: u64,
}

#[derive(Debug, Clone)]
pub enum DataSourceData {
    Text(String),
    Image(Vec<u8>),
}

#[derive(Debug)]
pub enum WaylandCommand {
    Select(String),
    SelectImage(Vec<u8>),
    Clear,
}

#[derive(Debug)]
pub enum ClientCommand {
    List,
    Select { id: u64 },
    SetImage { path: String },
    Clear,
    Subscribe,
}

#[derive(Debug, Clone)]
pub struct ClipboardState {
    pub entries: VecDeque<ClipboardEntry>,
    pub images: VecDeque<ImageEntry>,
    pub active_selection: Option<String>,
    pub next_id: u64,
}

/// The id after `id`, wrapping around at the top of the range.
pub open spec fn next_after(id: u64) -> u64 {
    if id == u64::MAX { 0 } else { (id + 1) as u64 }
}

/// Entries whose text differs from `t`.
pub open spec fn entries_without(es: Seq<ClipboardEntry>, t: Seq<char>) -> Seq<ClipboardEntry> {
    es.filter(text_differs(t))
}

pub open spec fn text_differs(t: Seq<char>) -> spec_fn(ClipboardEntry) -> bool {
    |e: ClipboardEntry| e.text@ != t
}

pub open spec fn path_differs(p: Seq<char>) -> spec_fn(ImageEntry) -> bool {
    |e: ImageEntry| e.path@ != p
}

/// Images whose path differs from `p`.
pub open spec fn images_without(is: Seq<ImageEntry>, p: Seq<char>) -> Seq<ImageEntry> {
    is.filter(path_differs(p))
}

/// `s` with its last element dropped when it holds more than `cap` elements.
pub open spec fn capped<T>(s: Seq<T>, cap: nat) -> Seq<T> {
    if s.len() > cap { s.drop_last() } else { s }
}

/// The history after `e` is put in front and any older entry with its text removed.
pub open spec fn with_text_entry(es: Seq<ClipboardEntry>, e: ClipboardEntry) -> Seq<ClipboardEntry> {
    capped(seq![e] + entries_without(es, e.text@), MAX_ENTRIES as nat)
}

/// The image history after `e` is put in front and any older image with its path removed.
pub open spec fn with_image_entry(is: Seq<ImageEntry>, e: ImageEntry) -> Seq<ImageEntry> {
    capped(seq![e] + images_without(is, e.path@), MAX_IMAGE_ENTRIES as nat)
}

/// The largest id among the entries, or zero when there are none.
pub open spec fn max_id(es: Seq<ClipboardEntry>) -> u64
    decreases es.len(),
{
    if es.len() == 0 {
        0
    } else {
        let m = max_id(es.drop_last());
        if es.last().id > m { es.last().id } else { m }
    }
}

/// The first element of `es` with id `id`, if any.
pub open spec fn first_with_id(es: Seq<ClipboardEntry>, id: u64) -> Option<ClipboardEntry>
    decreases es.len(),
{
    if es.len() == 0 {
        None
    } else if es[0].id == id {
        Some(es[0])
    } else {
        first_with_id(es.drop_first(), id)
    }
}

/// The first image of `is` with id `id`, if any.
pub open spec fn first_image_with_id(is: Seq<ImageEntry>, id: u64) -> Option<ImageEntry>
    decreases is.len(),
{
    if is.len() == 0 {
        None
    } else if is[0].id == id {
        Some(is[0])
    } else {
        first_image_with_id(is.drop_first(), id)
    }
}


/// No two entries of `es` carry the same text.
pub open spec fn texts_distinct(es: Seq<ClipboardEntry>) -> bool {
    forall|i: int, j: int| 0 <= i < j < es.len() ==> es[i].text@ != es[j].text@
}

/// Adding text puts the new entry first and leaves no other entry with its
/// text, whatever the history held before.
pub proof fn law_added_text_is_unique_front(es: Seq<ClipboardEntry>, e: ClipboardEntry)
    ensures
        with_text_entry(es, e).len() > 0,
        with_text_entry(es, e)[0] == e,
        forall|i: int| 0 < i < with_text_entry(es, e).len()
            ==> (#[trigger] with_text_entry(es, e)[i]).text@ != e.text@,
{
    let kept = entries_without(es, e.text@);
    let all = seq![e] + kept;
    assert forall|i: int| 0 < i < all.len() implies (#[trigger] all[i]).text@ != e.text@ by {
        assert(all[i] == kept[i - 1]);
        es.lemma_filter_pred(text_differs(e.text@), i - 1);
    }
}

/// Text just added is what a lookup of its id finds, so selecting that id
/// puts the same text back on the clipboard.
pub proof fn law_added_text_is_found_by_id(es: Seq<ClipboardEntry>, e: ClipboardEntry)
    ensures
        first_with_id(with_text_entry(es, e), e.id) == Some(e),
{
    law_added_text_is_unique_front(es, e);
}

/// Adding text never takes the history beyond `MAX_ENTRIES` and keeps texts
/// distinct when they were distinct before.
pub proof fn law_added_text_keeps_history_wf(es: Seq<ClipboardEntry>, e: ClipboardEntry)
    requires
        es.len() <= MAX_ENTRIES,
        texts_distinct(es),
    ensures
        with_text_entry(es, e).len() <= MAX_ENTRIES,
        texts_distinct(with_text_entry(es, e)),
{
    let kept = entries_without(es, e.text@);
    es.lemma_filter_len(text_differs(e.text@));
    lemma_filter_keeps_distinct(es, e.text@);
    law_added_text_is_unique_front(es, e);
    let all = seq![e] + kept;
    let r = with_text_entry(es, e);
    assert forall|i: int, j: int| 0 <= i < j < r.len() implies r[i].text@ != r[j].text@ by {
        assert(r[i] == all[i] && r[j] == all[j]);
        if i > 0 {
            assert(all[i] == kept[i - 1] && all[j] == kept[j - 1]);
        }
    }
}

proof fn lemma_filter_keeps_distinct(es: Seq<ClipboardEntry>, t: Seq<char>)
    requires
        texts_distinct(es),
    ensures
        texts_distinct(entries_without(es, t)),
    decreases es.len(),
{
    reveal(Seq::filter);
    if es.len() > 0 {
        let init = es.drop_last();
        assert(texts_distinct(init));
        lemma_filter_keeps_distinct(init, t);
        let f = entries_without(init, t);
        if text_differs(t)(es.last()) {
            assert forall|k: int| 0 <= k < f.len() implies f[k].text@ != es.last().text@ by {
                init.lemma_filter_contains_rev(text_differs(t), f[k]);
                let m = choose|m: int| 0 <= m < init.len() && init[m] == f[k];
                assert(es[m] == init[m]);
            }
        }
    }
}

/// Adding an image puts it first, leaves no other image with its path and
/// keeps the image history within `MAX_IMAGE_ENTRIES`.
pub proof fn law_added_image_is_unique_front(is: Seq<ImageEntry>, e: ImageEntry)
    requires
        is.len() <= MAX_IMAGE_ENTRIES,
    ensures
        with_image_entry(is, e)[0] == e,
        with_image_entry(is, e).len() <= MAX_IMAGE_ENTRIES,
        forall|i: int| 0 < i < with_image_entry(is, e).len()
            ==> (#[trigger] with_image_entry(is, e)[i]).path@ != e.path@,
{
    let kept = images_without(is, e.path@);
    is.lemma_filter_len(path_differs(e.path@));
    let all = seq![e] + kept;
    assert forall|i: int| 0 < i < all.len() implies (#[trigger] all[i]).path@ != e.path@ by {
        assert(all[i] == kept[i - 1]);
        is.lemma_filter_pred(path_differs(e.path@), i - 1);
    }
}

impl ClipboardEntry {
    /// A field-by-field copy.
    pub fn duplicate(&self) -> (r: ClipboardEntry)
        ensures
            r == *self,
    {
        ClipboardEntry {
            id: self.id,
            text: self.text.clone(),
            mime: self.mime.clone(),
            timestamp: self.timestamp,
        }
    }
}

impl ImageEntry {
    /// A field-by-field copy.
    pub fn duplicate(&self) -> (r: ImageEntry)
        ensures
            r.id == self.id,
            r.path == self.path,
            r.bytes@ == self.bytes@,
            r.timestamp == self.timestamp,
    {
        let mut bytes: Vec<u8> = Vec::new();
        let mut i: usize = 0;
        while i < self.bytes.len()
            invariant
                i <= self.bytes.len(),
                bytes@ == self.bytes@.subrange(0, i as int),
            decreases self.bytes.len() - i,
        {
            bytes.push(self.bytes[i]);
            i = i + 1;
        }
        ImageEntry { id: self.id, path: self.path.clone(), bytes, timestamp: self.timestamp }
    }
}

/// The current Unix time in whole seconds, or zero when the clock reads
/// before the epoch.
/// Calls `SystemTime::now`, `duration_since(UNIX_EPOCH)` and `as_secs`; the
/// result depends on the clock, so nothing is claimed of it.
#[verifier::external_body]
fn unix_time_secs() -> u64 {
    std::time::SystemTime::now()
        .duration_since(std::time::UNIX_EPOCH)
        .map(|d| d.as_secs())
        .unwrap_or(0)
}

impl ClipboardState {
    /// The id that the next added entry receives.
    pub open spec fn spec_next_id(&self) -> u64 {
        self.next_id
    }

    /// Both histories are within their caps.
    pub open spec fn wf(&self) -> bool {
        &&& self.entries@.len() <= MAX_ENTRIES
        &&& self.images@.len() <= MAX_IMAGE_ENTRIES
    }

    pub fn new() -> (s: Self)
        ensures
            s.entries@ == Seq::<ClipboardEntry>::empty(),
            s.images@ == Seq::<ImageEntry>::empty(),
            s.active_selection is None,
            s.spec_next_id() == 1,
            s.wf(),
    {
        ClipboardState {
            entries: VecDeque::with_capacity(MAX_ENTRIES),
            images: VecDeque::with_capacity(MAX_IMAGE_ENTRIES),
            active_selection: None,
            next_id: 1,
        }
    }

    /// Replaces the text history with the first `MAX_ENTRIES` of `loaded`;
    /// new ids continue after the largest loaded id.
    pub fn load_from_entries(&mut self, loaded: Vec<ClipboardEntry>)
        ensures
            final(self).entries@ == (if loaded@.len() > MAX_ENTRIES {
                loaded@.take(MAX_ENTRIES as int)
            } else {
                loaded@
            }),
            final(self).spec_next_id() == next_after(max_id(final(self).entries@)),
            final(self).images == old(self).images,
            final(self).active_selection == old(self).active_selection,
    {
        let mut loaded = loaded;
        if loaded.len() > MAX_ENTRIES {
            loaded.truncate(MAX_ENTRIES);
        }
        let mut max: u64 = 0;
        let mut entries: VecDeque<ClipboardEntry> = VecDeque::new();
        let ghost kept = loaded@;
        let mut i: usize = 0;
        while i < loaded.len()
            invariant
                kept == loaded@,
                i <= loaded.len(),
                entries@ == kept.take(i as int),
                max == max_id(kept.take(i as int)),
            decreases loaded.len() - i,
        {
            assert(kept.take(i + 1).drop_last() == kept.take(i as int));
            let e = loaded[i].duplicate();
            if e.id > max {
                max = e.id;
            }
            entries.push_back(e);
            i = i + 1;
        }
        assert(kept.take(kept.len() as int) == kept);
        self.next_id = if max == u64::MAX { 0 } else { max + 1 };
        self.entries = entries;
    }

    /// Records copied text at the given time, as `add_text` does with the clock.
    /// Blank text is ignored; text equal to the newest entry keeps that entry;
    /// otherwise a new entry goes in front, any older entry with the same
    /// text is dropped, and the oldest is dropped beyond `MAX_ENTRIES`.
    pub fn add_text_at(&mut self, text: String, mime: String, timestamp: u64) -> (r: Option<u64>)
        ensures
            spec_trim(text@).len() == 0 ==> r is None && *final(self) == *old(self),
            spec_trim(text@).len() != 0 && old(self).entries@.len() > 0
                && old(self).entries@[0].text@ == text@ ==> r == Some(old(self).entries@[0].id)
                && *final(self) == *old(self),
            spec_trim(text@).len() != 0 && !(old(self).entries@.len() > 0
                && old(self).entries@[0].text@ == text@) ==> {
                &&& r == Some(old(self).spec_next_id())
                &&& final(self).entries@ == with_text_entry(
                    old(self).entries@,
                    ClipboardEntry { id: old(self).spec_next_id(), text, mime, timestamp },
                )
                &&& final(self).spec_next_id() == next_after(old(self).spec_next_id())
                &&& final(self).active_selection == Some(text)
                &&& final(self).images == old(self).images
            },
    {
        let chars = chars_of(text.as_str());
        let trimmed = trim(&chars);
        if trimmed.len() == 0 {
            return None;
        }
        if self.entries.len() > 0 {
            if self.entries[0].text == text {
                return Some(self.entries[0].id);
            }
        }
        let ghost old_entries = self.entries@;
        let n = self.entries.len();
        let mut kept: VecDeque<ClipboardEntry> = VecDeque::new();
        let mut i: usize = 0;
        while i < n
            invariant
                n == old_entries.len(),
                i <= n,
                self.entries@ == old_entries.subrange(i as int, n as int),
                kept@ == entries_without(old_entries.take(i as int), text@),
                self.next_id == old(self).next_id,
                self.images == old(self).images,
                self.active_selection == old(self).active_selection,
            decreases n - i,
        {
            let e = self.entries.pop_front();
            assert(old_entries.take(i + 1) == old_entries.take(i as int).push(old_entries[i as int]));
            proof {
                old_entries.take(i as int).lemma_filter_push(old_entries[i as int], text_differs(text@));
            }
            match e {
                Some(e) => {
                    if e.text != text {
                        kept.push_back(e);
                    }
                },
                None => {},
            }
            i = i + 1;
        }
        assert(old_entries.take(n as int) == old_entries);
        let id = self.next_id;
        self.next_id = if self.next_id == u64::MAX { 0 } else { self.next_id + 1 };
        kept.push_front(ClipboardEntry { id, text: text.clone(), mime, timestamp });
        if kept.len() > MAX_ENTRIES {
            kept.pop_back();
        }
        self.entries = kept;
        self.active_selection = Some(text);
        Some(id)
    }

    /// Records copied text, stamped with the current time.
    pub fn add_text(&mut self, text: String, mime: String) -> (r: Option<u64>)
        ensures
            spec_trim(text@).len() == 0 ==> r is None && *final(self) == *old(self),
            spec_trim(text@).len() != 0 && old(self).entries@.len() > 0
                && old(self).entries@[0].text@ == text@ ==> r == Some(old(self).entries@[0].id)
                && *final(self) == *old(self),
            spec_trim(text@).len() != 0 && !(old(self).entries@.len() > 0
                && old(self).entries@[0].text@ == text@) ==> {
                &&& r == Some(old(self).spec_next_id())
                &&& final(self).entries@ == with_text_entry(
                    old(self).entries@,
                    ClipboardEntry {
                        id: old(self).spec_next_id(),
                        text,
                        mime,
                        timestamp: final(self).entries@[0].timestamp,
                    },
                )
                &&& final(self).spec_next_id() == next_after(old(self).spec_next_id())
                &&& final(self).active_selection == Some(text)
                &&& final(self).images == old(self).images
            },
    {
        let now = unix_time_secs();
        let r = self.add_text_at(text, mime, now);
        proof {
            if spec_trim(text@).len() != 0 && !(old(self).entries@.len() > 0
                && old(self).entries@[0].text@ == text@) {
                assert(self.entries@[0].timestamp == now);
            }
        }
        r
    }

    /// Records a copied image at the given time, as `add_image` does with the clock.
    pub fn add_image_at(&mut self, path: String, bytes: Vec<u8>, timestamp: u64) -> (r: u64)
        ensures
            r == old(self).spec_next_id(),
            final(self).images@ == with_image_entry(
                old(self).images@,
                ImageEntry { id: r, path, bytes, timestamp },
            ),
            final(self).spec_next_id() == next_after(old(self).spec_next_id()),
            final(self).entries == old(self).entries,
            final(self).active_selection == old(self).active_selection,
    {
        let ghost old_images = self.images@;
        let n = self.images.len();
        let mut kept: VecDeque<ImageEntry> = VecDeque::new();
        let mut i: usize = 0;
        while i < n
            invariant
                n == old_images.len(),
                i <= n,
                self.images@ == old_images.subrange(i as int, n as int),
                kept@ == images_without(old_images.take(i as int), path@),
                self.next_id == old(self).next_id,
                self.entries == old(self).entries,
                self.active_selection == old(self).active_selection,
            decreases n - i,
        {
            let e = self.images.pop_front();
            assert(old_images.take(i + 1) == old_images.take(i as int).push(old_images[i as int]));
            proof {
                old_images.take(i as int).lemma_filter_push(old_images[i as int], path_differs(path@));
            }
            match e {
                Some(e) => {
                    if e.path != path {
                        kept.push_back(e);
                    }
                },
                None => {},
            }
            i = i + 1;
        }
        assert(old_images.take(n as int) == old_images);
        let id = self.next_id;
        self.next_id = if self.next_id == u64::MAX { 0 } else { self.next_id + 1 };
        kept.push_front(ImageEntry { id, path, bytes, timestamp });
        if kept.len() > MAX_IMAGE_ENTRIES {
            kept.pop_back();
        }
        self.images = kept;
        id
    }

    /// Records a copied image, stamped with the current time.
    pub fn add_image(&mut self, path: String, bytes: Vec<u8>) -> (r: u64)
        ensures
            r == old(self).spec_next_id(),
            final(self).images@ == with_image_entry(
                old(self).images@,
                ImageEntry { id: r, path, bytes, timestamp: final(self).images@[0].timestamp },
            ),
            final(self).spec_next_id() == next_after(old(self).spec_next_id()),
            final(self).entries == old(self).entries,
            final(self).active_selection == old(self).active_selection,
    {
        let now = unix_time_secs();
        self.add_image_at(path, bytes, now)
    }

    /// Copies of the text entries, newest first.
    pub fn get_entries(&self) -> (r: Vec<ClipboardEntry>)
        ensures
            r@ == self.entries@,
    {
        let mut r: Vec<ClipboardEntry> = Vec::new();
        let mut i: usize = 0;
        while i < self.entries.len()
            invariant
                i <= self.entries@.len(),
                r@ == self.entries@.take(i as int),
            decreases self.entries@.len() - i,
        {
            assert(self.entries@.take(i + 1) == self.entries@.take(i as int).push(self.entries@[i as int]));
            r.push(self.entries[i].duplicate());
            i = i + 1;
        }
        assert(self.entries@.take(self.entries@.len() as int) == self.entries@);
        r
    }

    /// The newest text entry with the given id.
    pub fn get_entry_by_id(&self, id: u64) -> (r: Option<ClipboardEntry>)
        ensures
            r == first_with_id(self.entries@, id),
    {
        let mut i: usize = 0;
        while i < self.entries.len()
            invariant
                i <= self.entries@.len(),
                first_with_id(self.entries@, id) == first_with_id(
                    self.entries@.subrange(i as int, self.entries@.len() as int),
                    id,
                ),
            decreases self.entries@.len() - i,
        {
            let ghost rest = self.entries@.subrange(i as int, self.entries@.len() as int);
            assert(rest.drop_first() == self.entries@.subrange(i + 1, self.entries@.len() as int));
            if self.entries[i].id == id {
                return Some(self.entries[i].duplicate());
            }
            i = i + 1;
        }
        None
    }

    /// The newest image entry with the given id.
    pub fn get_image_by_id(&self, id: u64) -> (r: Option<ImageEntry>)
        ensures
            match (r, first_image_with_id(self.images@, id)) {
                (Some(a), Some(b)) => a.id == b.id && a.path == b.path && a.bytes@ == b.bytes@
                    && a.timestamp == b.timestamp,
                (None, None) => true,
                _ => false,
            },
    {
        let mut i: usize = 0;
        while i < self.images.len()
            invariant
                i <= self.images@.len(),
                first_image_with_id(self.images@, id) == first_image_with_id(
                    self.images@.subrange(i as int, self.images@.len() as int),
                    id,
                ),
            decreases self.images@.len() - i,
        {
            let ghost rest = self.images@.subrange(i as int, self.images@.len() as int);
            assert(rest.drop_first() == self.images@.subrange(i + 1, self.images@.len() as int));
            if self.images[i].id == id {
                return Some(self.images[i].duplicate());
            }
            i = i + 1;
        }
        None
    }

    /// Empties both histories and forgets the active selection.
    pub fn clear(&mut self)
        ensures
            final(self).entries@ == Seq::<ClipboardEntry>::empty(),
            final(self).images@ == Seq::<ImageEntry>::empty(),
            final(self).active_selection is None,
            final(self).spec_next_id() == old(self).spec_next_id(),
    {
        self.entries.clear();
        self.images.clear();
        self.active_selection = None;
    }
}

/// The listing of a text entry: its first 120 characters.
pub open spec fn text_preview(e: ClipboardEntry) -> (u64, Seq<char>, Seq<char>, Seq<char>, u64) {
    (e.id, "text"@, if e.text@.len() > 120 { e.text@.take(120) } else { e.text@ }, e.mime@, e.timestamp)
}

/// The listing of an image entry: its path.
pub open spec fn image_preview(e: ImageEntry) -> (u64, Seq<char>, Seq<char>, Seq<char>, u64) {
    (e.id, "image"@, e.path@, "image/png"@, e.timestamp)
}

pub open spec fn preview_view(p: ClipboardEntryPreview) -> (u64, Seq<char>, Seq<char>, Seq<char>, u64) {
    (p.id, p.kind@, p.text_preview@, p.mime@, p.timestamp)
}

pub open spec fn preview_views(ps: Seq<ClipboardEntryPreview>) -> Seq<(u64, Seq<char>, Seq<char>, Seq<char>, u64)> {
    ps.map_values(|p: ClipboardEntryPreview| preview_view(p))
}

/// `s` with `x` put after the last listing at least as recent.
pub open spec fn insert_by_time(s: Seq<(u64, Seq<char>, Seq<char>, Seq<char>, u64)>, x: (u64, Seq<char>, Seq<char>, Seq<char>, u64)) -> Seq<(u64, Seq<char>, Seq<char>, Seq<char>, u64)>
    decreases s.len(),
{
    if s.len() == 0 {
        seq![x]
    } else if s.last().4 >= x.4 {
        s.push(x)
    } else {
        insert_by_time(s.drop_last(), x).push(s.last())
    }
}

/// The listings newest first, those of equal time in their given order.
pub open spec fn newest_first(s: Seq<(u64, Seq<char>, Seq<char>, Seq<char>, u64)>) -> Seq<(u64, Seq<char>, Seq<char>, Seq<char>, u64)>
    decreases s.len(),
{
    if s.len() == 0 {
        Seq::empty()
    } else {
        insert_by_time(newest_first(s.drop_last()), s.last())
    }
}

/// Listings whose times never increase from one to the next.
pub open spec fn time_descending(s: Seq<(u64, Seq<char>, Seq<char>, Seq<char>, u64)>) -> bool {
    forall|i: int, j: int| 0 <= i < j < s.len() ==> s[i].4 >= s[j].4
}

proof fn lemma_insert_by_time_bound(t: Seq<(u64, Seq<char>, Seq<char>, Seq<char>, u64)>, x: (u64, Seq<char>, Seq<char>, Seq<char>, u64), v: u64)
    requires
        forall|i: int| 0 <= i < t.len() ==> t[i].4 >= v,
        x.4 >= v,
    ensures
        forall|i: int| 0 <= i < insert_by_time(t, x).len() ==> insert_by_time(t, x)[i].4 >= v,
        insert_by_time(t, x).len() == t.len() + 1,
    decreases t.len(),
{
    if t.len() > 0 && t.last().4 < x.4 {
        lemma_insert_by_time_bound(t.drop_last(), x, v);
    }
}

proof fn lemma_insert_by_time(t: Seq<(u64, Seq<char>, Seq<char>, Seq<char>, u64)>, x: (u64, Seq<char>, Seq<char>, Seq<char>, u64))
    requires
        time_descending(t),
    ensures
        time_descending(insert_by_time(t, x)),
        insert_by_time(t, x).to_multiset() =~= t.to_multiset().insert(x),
    decreases t.len(),
{
    if t.len() == 0 {
        vstd::seq_lib::to_multiset_build(t, x);
        assert(t.push(x) =~= seq![x]);
    } else if t.last().4 >= x.4 {
        vstd::seq_lib::to_multiset_build(t, x);
        assert forall|i: int, j: int| 0 <= i < j < t.push(x).len() implies t.push(x)[i].4 >= t.push(x)[j].4 by {
            if j == t.len() {
                assert(t[i].4 >= t[t.len() - 1].4);
            }
        }
    } else {
        let init = t.drop_last();
        assert(time_descending(init));
        lemma_insert_by_time(init, x);
        assert forall|i: int| 0 <= i < init.len() implies init[i].4 >= t.last().4 by {
            assert(t[i].4 >= t[t.len() - 1].4);
        }
        lemma_insert_by_time_bound(init, x, t.last().4);
        let r = insert_by_time(init, x);
        vstd::seq_lib::to_multiset_build(r, t.last());
        vstd::seq_lib::to_multiset_build(init, t.last());
        assert(init.push(t.last()) =~= t);
        assert forall|i: int, j: int| 0 <= i < j < r.push(t.last()).len() implies r.push(t.last())[i].4 >= r.push(t.last())[j].4 by {
            if j == r.len() {
                assert(r[i].4 >= t.last().4);
            }
        }
    }
}

/// The client's listing is newest first: no listing is older than one that
/// follows it, and it holds exactly the listings it was built from.
pub proof fn law_previews_newest_first(s: Seq<(u64, Seq<char>, Seq<char>, Seq<char>, u64)>)
    ensures
        forall|i: int, j: int| 0 <= i < j < newest_first(s).len() ==> newest_first(s)[i].4 >= newest_first(s)[j].4,
        newest_first(s).to_multiset() =~= s.to_multiset(),
    decreases s.len(),
{
    if s.len() > 0 {
        law_previews_newest_first(s.drop_last());
        lemma_insert_by_time(newest_first(s.drop_last()), s.last());
        vstd::seq_lib::to_multiset_build(s.drop_last(), s.last());
        assert(s.drop_last().push(s.last()) =~= s);
    }
}

#[verifier::spinoff_prover]
#[verifier::rlimit(40)]
fn sort_newest_first(ps: Vec<ClipboardEntryPreview>) -> (r: Vec<ClipboardEntryPreview>)
    ensures
        preview_views(r@) == newest_first(preview_views(ps@)),
{
    let ghost input = preview_views(ps@);
    assert(input.len() == ps.len());
    let mut rest = ps;
    let mut out: Vec<ClipboardEntryPreview> = Vec::new();
    let mut k: usize = 0;
    while rest.len() > 0
        invariant
            k <= input.len(),
            input.len() <= usize::MAX,
            preview_views(rest@) == input.skip(k as int),
            preview_views(out@) == newest_first(input.take(k as int)),
        decreases rest.len(),
    {
        let ghost before_rest = rest@;
        assert(preview_views(before_rest).len() == before_rest.len());
        assert(input.skip(k as int).len() > 0);
        let x = rest.remove(0);
        assert(preview_views(before_rest)[0] == preview_view(x));
        assert(input.skip(k as int)[0] == input[k as int]);
        assert(input[k as int] == preview_view(x));
        assert(input.take(k + 1).drop_last() =~= input.take(k as int));
        assert(input.take(k + 1).last() == preview_view(x));
        assert(preview_views(rest@) =~= input.skip(k + 1));
        let mut j: usize = out.len();
        let ghost s = preview_views(out@);
        let ghost xv = preview_view(x);
        assert(s.take(j as int) =~= s);
        assert(s.skip(j as int) =~= Seq::<(u64, Seq<char>, Seq<char>, Seq<char>, u64)>::empty());
        while j > 0 && out[j - 1].timestamp < x.timestamp
            invariant
                j <= out.len(),
                preview_views(out@) == s,
                xv == preview_view(x),
                insert_by_time(s, xv) == insert_by_time(s.take(j as int), xv) + s.skip(j as int),
            decreases j,
        {
            assert(s[j - 1] == preview_view(out@[j - 1]));
            assert(s.take(j as int).drop_last() =~= s.take(j - 1));
            assert(s.take(j as int).last() == s[j - 1]);
            assert(s.skip(j - 1) =~= seq![s[j - 1]] + s.skip(j as int));
            assert(insert_by_time(s.take(j - 1), xv).push(s[j - 1]) + s.skip(j as int) =~= insert_by_time(s.take(j - 1), xv) + s.skip(j - 1));
            j = j - 1;
        }
        proof {
            if j > 0 {
                assert(s[j - 1] == preview_view(out@[j - 1]));
                assert(s.take(j as int).last() == s[j - 1]);
            }
            assert(insert_by_time(s.take(j as int), xv) =~= s.take(j as int).push(xv));
        }
        out.insert(j, x);
        assert(preview_views(out@) =~= s.take(j as int).push(xv) + s.skip(j as int));
        k = k + 1;
    }
    assert(input.take(k as int) =~= input);
    out
}

fn text_previews(entries: &VecDeque<ClipboardEntry>) -> (ps: Vec<ClipboardEntryPreview>)
    ensures
        preview_views(ps@) == entries@.map_values(|e: ClipboardEntry| text_preview(e)),
{
    let mut ps: Vec<ClipboardEntryPreview> = Vec::new();
    let mut i: usize = 0;
    while i < entries.len()
        invariant
            i <= entries@.len(),
            preview_views(ps@) == entries@.take(i as int).map_values(|e: ClipboardEntry| text_preview(e)),
        decreases entries@.len() - i,
    {
        let e = &entries[i];
        let t = chars_of(e.text.as_str());
        let shown = if t.len() > 120 {
            assert(t@.subrange(0, 120) =~= t@.take(120));
            crate::text::string_of(&crate::text::slice(&t, 0, 120))
        } else {
            e.text.clone()
        };
        let p = ClipboardEntryPreview {
            id: e.id,
            kind: "text".to_string(),
            text_preview: shown,
            mime: e.mime.clone(),
            timestamp: e.timestamp,
        };
        let ghost before = preview_views(ps@);
        ps.push(p);
        assert(preview_views(ps@) =~= before.push(preview_view(p)));
        assert(entries@.take(i + 1).map_values(|e: ClipboardEntry| text_preview(e)) =~= entries@.take(i as int).map_values(|e: ClipboardEntry| text_preview(e)).push(text_preview(entries@[i as int])));
        i = i + 1;
    }
    assert(entries@.take(entries@.len() as int) =~= entries@);
    ps
}

fn image_previews(ps: &mut Vec<ClipboardEntryPreview>, images: &VecDeque<ImageEntry>)
    ensures
        preview_views(final(ps)@) == preview_views(old(ps)@) + images@.map_values(|e: ImageEntry| image_preview(e)),
{
    let ghost start = preview_views(ps@);
    let mut k: usize = 0;
    while k < images.len()
        invariant
            k <= images@.len(),
            preview_views(ps@) == start + images@.take(k as int).map_values(|e: ImageEntry| image_preview(e)),
        decreases images@.len() - k,
    {
        let e = &images[k];
        let p = ClipboardEntryPreview {
            id: e.id,
            kind: "image".to_string(),
            text_preview: e.path.clone(),
            mime: "image/png".to_string(),
            timestamp: e.timestamp,
        };
        let ghost before = preview_views(ps@);
        ps.push(p);
        assert(preview_views(ps@) =~= before.push(preview_view(p)));
        assert(images@.take(k + 1).map_values(|e: ImageEntry| image_preview(e)) =~= images@.take(k as int).map_values(|e: ImageEntry| image_preview(e)).push(image_preview(images@[k as int])));
        k = k + 1;
    }
    assert(images@.take(images@.len() as int) =~= images@);
}

impl ClipboardState {
    /// The listing a client is sent: text entries (their first 120
    /// characters) and images, newest first.
    pub fn previews(&self) -> (r: Vec<ClipboardEntryPreview>)
        ensures
            preview_views(r@) == newest_first(
                self.entries@.map_values(|e: ClipboardEntry| text_preview(e))
                    + self.images@.map_values(|e: ImageEntry| image_preview(e)),
            ),
            forall|i: int, j: int| 0 <= i < j < r@.len() ==> r@[i].timestamp >= r@[j].timestamp,
            preview_views(r@).to_multiset() =~= (self.entries@.map_values(|e: ClipboardEntry| text_preview(e))
                + self.images@.map_values(|e: ImageEntry| image_preview(e))).to_multiset(),
    {
        let mut ps = text_previews(&self.entries);
        image_previews(&mut ps, &self.images);
        let r = sort_newest_first(ps);
        proof {
            let all = self.entries@.map_values(|e: ClipboardEntry| text_preview(e))
                + self.images@.map_values(|e: ImageEntry| image_preview(e));
            law_previews_newest_first(all);
            assert forall|i: int, j: int| 0 <= i < j < r@.len() implies r@[i].timestamp >= r@[j].timestamp by {
                assert(preview_views(r@)[i] == preview_view(r@[i]));
                assert(preview_views(r@)[j] == preview_view(r@[j]));
            }
        }
        r
    }
}

/// What becomes of a selection offered by another program.
#[derive(Debug, PartialEq, Eq)]
pub enum OfferDecision {
    /// A password manager marked it secret: it is not kept.
    Secret,
    /// It offers no text type this daemon reads.
    Unsupported,
    /// Read it as this type.
    Read(&'static str),
}

pub open spec fn ascii_lowered(s: Seq<char>) -> Seq<char> {
    s.map_values(|c: char| crate::launcher::ascii_lower(c))
}

/// Whether a type marks the offer as secret.
pub open spec fn secret_mime(m: Seq<char>) -> bool {
    spec_contains(ascii_lowered(m), "passwordmanagerhint"@) || spec_contains(ascii_lowered(m), "secret"@)
}

pub open spec fn offers(mimes: Seq<String>, m: Seq<char>) -> bool {
    exists|i: int| 0 <= i < mimes.len() && #[trigger] mimes[i]@ == m
}

/// What to do with an offer of types `mimes`: drop it when any type marks
/// it secret, else read it as the first available of UTF-8 plain text,
/// plain text and `UTF8_STRING`.
pub open spec fn spec_offer(mimes: Seq<String>) -> OfferDecision {
    if exists|i: int| 0 <= i < mimes.len() && secret_mime(#[trigger] mimes[i]@) {
        OfferDecision::Secret
    } else if offers(mimes, "text/plain;charset=utf-8"@) {
        OfferDecision::Read("text/plain;charset=utf-8")
    } else if offers(mimes, "text/plain"@) {
        OfferDecision::Read("text/plain")
    } else if offers(mimes, "UTF8_STRING"@) {
        OfferDecision::Read("UTF8_STRING")
    } else {
        OfferDecision::Unsupported
    }
}

fn ascii_lowered_exec(s: &str) -> (r: Vec<char>)
    ensures
        r@ == ascii_lowered(s@),
{
    let v = chars_of(s);
    let mut out: Vec<char> = Vec::new();
    let mut i: usize = 0;
    while i < v.len()
        invariant
            i <= v.len(),
            out@ == ascii_lowered(v@.take(i as int)),
        decreases v.len() - i,
    {
        let c = v[i];
        let l = if 'A' <= c && c <= 'Z' { ((c as u8) + 32) as char } else { c };
        out.push(l);
        assert(ascii_lowered(v@.take(i + 1)) =~= ascii_lowered(v@.take(i as int)).push(crate::launcher::ascii_lower(v@[i as int])));
        i = i + 1;
    }
    assert(v@.take(v.len() as int) =~= v@);
    out
}

fn offers_exec(mimes: &Vec<String>, m: &str) -> (r: bool)
    ensures
        r == offers(mimes@, m@),
{
    let mut i: usize = 0;
    while i < mimes.len()
        invariant
            i <= mimes.len(),
            forall|j: int| 0 <= j < i ==> mimes@[j]@ != m@,
        decreases mimes.len() - i,
    {
        if crate::text::str_is(mimes[i].as_str(), m) {
            return true;
        }
        i = i + 1;
    }
    false
}

/// Decides what to do with an offered selection.
pub fn offer_decision(mimes: &Vec<String>) -> (r: OfferDecision)
    ensures
        r == spec_offer(mimes@),
{
    let mut i: usize = 0;
    while i < mimes.len()
        invariant
            i <= mimes.len(),
            forall|j: int| 0 <= j < i ==> !secret_mime(#[trigger] mimes@[j]@),
        decreases mimes.len() - i,
    {
        let l = ascii_lowered_exec(mimes[i].as_str());
        if crate::text::contains(&l, &chars_of("passwordmanagerhint")) || crate::text::contains(&l, &chars_of("secret")) {
            assert(secret_mime(mimes@[i as int]@));
            return OfferDecision::Secret;
        }
        i = i + 1;
    }
    if offers_exec(mimes, "text/plain;charset=utf-8") {
        OfferDecision::Read("text/plain;charset=utf-8")
    } else if offers_exec(mimes, "text/plain") {
        OfferDecision::Read("text/plain")
    } else if offers_exec(mimes, "UTF8_STRING") {
        OfferDecision::Read("UTF8_STRING")
    } else {
        OfferDecision::Unsupported
    }
}

/// What a `select` request makes of the clipboard.
#[derive(Debug)]
pub enum SelectOutcome {
    /// Offer this text.
    Text(String),
    /// Offer these image bytes.
    Image(Vec<u8>),
    /// Offer the image stored at this path; its bytes were not kept.
    ImageFile(String),
    NotFound,
}

impl ClipboardState {
    /// Looks up entry `id` to put back on the clipboard: a text entry
    /// first, then an image (whose bytes, if none were kept, are to be read
    /// from its path).
    pub fn select_entry(&self, id: u64) -> (r: SelectOutcome)
        ensures
            match first_with_id(self.entries@, id) {
                Some(e) => (r matches SelectOutcome::Text(t) && t == e.text),
                None => match first_image_with_id(self.images@, id) {
                    Some(img) => if img.bytes@.len() == 0 {
                        (r matches SelectOutcome::ImageFile(p) && p == img.path)
                    } else {
                        (r matches SelectOutcome::Image(b) && b@ == img.bytes@)
                    },
                    None => r is NotFound,
                },
            },
    {
        if let Some(e) = self.get_entry_by_id(id) {
            return SelectOutcome::Text(e.text);
        }
        match self.get_image_by_id(id) {
            Some(img) => if img.bytes.len() == 0 {
                SelectOutcome::ImageFile(img.path)
            } else {
                SelectOutcome::Image(img.bytes)
            },
            None => SelectOutcome::NotFound,
        }
    }
}

} // verus!
