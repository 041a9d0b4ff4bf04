//! System metrics widget: what `/proc/stat` and `/proc/meminfo` say, the
//! change in CPU time between two samples, and what each event asks.

use vstd::prelude::*;
use crate::number::{parse_u64, spec_parse_nat};
use crate::sdk::{spec_words, words};
use crate::text::{
    char_views, chars_of, contains, spec_contains, spec_split, spec_starts_with, split_chars,
    starts_with, str_is, string_of,
};

verus! {

broadcast use vstd::seq_lib::group_seq_properties;

/// The system metrics widget's state.
#[derive(Debug)]
pub struct SystemModule {
    pub prev_total: u64,
    pub prev_idle: u64,
    pub popup_open: bool,
    pub last_text: String,
}

impl Default for SystemModule {
    fn default() -> (r: SystemModule)
        ensures
            r.prev_total == 0 && r.prev_idle == 0 && !r.popup_open && r.last_text@.len() == 0,
    {
        SystemModule { prev_total: 0, prev_idle: 0, popup_open: false, last_text: String::new() }
    }
}

/// A decimal that fits in a `u64`.
pub open spec fn u64_field(s: Seq<char>) -> Option<nat> {
    match spec_parse_nat(s) {
        Some(n) => if n <= u64::MAX { Some(n) } else { None },
        None => None,
    }
}

/// The eight counters after `cpu` on the first line of `/proc/stat`, if
/// they are all there and read.
pub open spec fn cpu_fields(content: Seq<char>) -> Option<Seq<nat>> {
    let line = spec_split(content, '\n')[0];
    let ws = spec_words(line);
    if !spec_starts_with(line, "cpu "@) || ws.len() < 9 {
        None
    } else if forall|k: int| 1 <= k < 9 ==> #[trigger] u64_field(ws[k]) is Some {
        Some(Seq::new(8, |k: int| u64_field(ws[k + 1])->0))
    } else {
        None
    }
}

/// The total CPU time and the idle part of it (idle and iowait), from
/// `/proc/stat`.
pub open spec fn spec_cpu_stat(content: Seq<char>) -> Option<(nat, nat)> {
    match cpu_fields(content) {
        Some(f) => Some(((f[0] + f[1] + f[2] + f[3] + f[4] + f[5] + f[6] + f[7]) as nat, (f[3] + f[4]) as nat)),
        None => None,
    }
}

/// Reads the CPU counters of `/proc/stat`.
pub fn read_cpu_stat(content: &str) -> (r: Option<(u64, u64)>)
    requires
        spec_cpu_stat(content@) matches Some(p) ==> p.0 <= u64::MAX,
    ensures
        match spec_cpu_stat(content@) {
            Some(p) => r == Some((p.0 as u64, p.1 as u64)),
            None => r is None,
        },
{
    let lines = split_chars(&chars_of(content), '\n');
    proof {
        crate::text::lemma_split_nonempty(content@, '\n');
    }
    let line = &lines[0];
    let ws = words(line);
    if !starts_with(line, &chars_of("cpu ")) || ws.len() < 9 {
        return None;
    }
    let mut f: Vec<u64> = Vec::new();
    let mut k: usize = 1;
    while k < 9
        invariant
            1 <= k <= 9,
            ws@.len() >= 9,
            char_views(ws@) == spec_words(spec_split(content@, '\n')[0]),
            f@.len() == k - 1,
            forall|j: int| 1 <= j < k ==> u64_field(char_views(ws@)[j]) == Some(f@[j - 1] as nat),
        decreases 9 - k,
    {
        match parse_u64(string_of(&ws[k]).as_str()) {
            Some(n) => {
                assert(char_views(ws@)[k as int] == ws@[k as int]@);
                f.push(n);
            },
            None => {
                assert(char_views(ws@)[k as int] == ws@[k as int]@);
                assert(u64_field(char_views(ws@)[k as int]) is None);
                return None;
            },
        }
        k = k + 1;
    }
    let ghost fs = Seq::new(8, |j: int| u64_field(char_views(ws@)[j + 1])->0);
    assert(cpu_fields(content@) == Some(fs));
    assert(forall|j: int| 0 <= j < 8 ==> fs[j] == f@[j]);
    let total = f[0] + f[1] + f[2] + f[3] + f[4] + f[5] + f[6] + f[7];
    let idle = f[3] + f[4];
    Some((total, idle))
}

/// What has been read of `/proc/meminfo`: the total and available memory
/// in kB, or `None` once a line could not be read.
pub open spec fn mem_scan(lines: Seq<Seq<char>>) -> Option<(nat, nat)>
    decreases lines.len(),
{
    if lines.len() == 0 {
        Some((0, 0))
    } else {
        match mem_scan(lines.drop_last()) {
            Some(st) => {
                let l = lines.last();
                let ws = spec_words(l);
                if spec_starts_with(l, "MemTotal:"@) {
                    if ws.len() >= 2 && u64_field(ws[1]) is Some { Some((u64_field(ws[1])->0, st.1)) } else { None }
                } else if spec_starts_with(l, "MemAvailable:"@) {
                    if ws.len() >= 2 && u64_field(ws[1]) is Some { Some((st.0, u64_field(ws[1])->0)) } else { None }
                } else {
                    Some(st)
                }
            },
            None => None,
        }
    }
}

/// The lines of a text as `str::lines` gives them, but for a trailing `\r`
/// that nothing here looks at: the pieces between line breaks, without the
/// empty piece after a final break.
pub open spec fn text_lines(s: Seq<char>) -> Seq<Seq<char>> {
    let parts = spec_split(s, '\n');
    if parts.last().len() == 0 { parts.drop_last() } else { parts }
}

/// Total and available memory in kB from `/proc/meminfo`; `None` when a
/// `MemTotal` or `MemAvailable` line cannot be read or the total is zero.
pub open spec fn spec_mem_info(content: Seq<char>) -> Option<(nat, nat)> {
    match mem_scan(text_lines(content)) {
        Some(st) => if st.0 == 0 { None } else { Some(st) },
        None => None,
    }
}

proof fn lemma_mem_scan_stays_none(s: Seq<Seq<char>>, k: int)
    requires
        0 <= k <= s.len(),
        mem_scan(s.take(k)) is None,
    ensures
        mem_scan(s) is None,
    decreases s.len(),
{
    if k == s.len() {
        assert(s.take(k) =~= s);
    } else {
        assert(s.drop_last().take(k) =~= s.take(k));
        lemma_mem_scan_stays_none(s.drop_last(), k);
    }
}

fn second_field(l: &Vec<char>) -> (r: Option<u64>)
    ensures
        match r {
            Some(n) => spec_words(l@).len() >= 2 && u64_field(spec_words(l@)[1]) == Some(n as nat),
            None => !(spec_words(l@).len() >= 2 && u64_field(spec_words(l@)[1]) is Some),
        },
{
    let ws = words(l);
    if ws.len() < 2 {
        return None;
    }
    assert(char_views(ws@)[1] == ws@[1]@);
    parse_u64(string_of(&ws[1]).as_str())
}

/// Reads the total and available memory of `/proc/meminfo`.
pub fn read_mem_info(content: &str) -> (r: Option<(u64, u64)>)
    ensures
        match spec_mem_info(content@) {
            Some(p) => r == Some((p.0 as u64, p.1 as u64)),
            None => r is None,
        },
{
    let parts = split_chars(&chars_of(content), '\n');
    proof {
        crate::text::lemma_split_nonempty(content@, '\n');
    }
    let n = if parts[parts.len() - 1].len() == 0 { parts.len() - 1 } else { parts.len() };
    let ghost lines = text_lines(content@);
    assert(lines =~= char_views(parts@).take(n as int));
    let mut total: u64 = 0;
    let mut avail: u64 = 0;
    let mut i: usize = 0;
    while i < n
        invariant
            n <= parts.len(),
            i <= n,
            lines == char_views(parts@).take(n as int),
            lines == text_lines(content@),
            mem_scan(lines.take(i as int)) == Some((total as nat, avail as nat)),
        decreases n - i,
    {
        assert(lines.take(i + 1).drop_last() =~= lines.take(i as int));
        assert(lines.take(i + 1).last() == parts@[i as int]@);
        let l = &parts[i];
        if starts_with(l, &chars_of("MemTotal:")) {
            match second_field(l) {
                Some(v) => total = v,
                None => {
                    proof {
                        lemma_mem_scan_stays_none(lines, i + 1);
                    }
                    return None;
                },
            }
        } else if starts_with(l, &chars_of("MemAvailable:")) {
            match second_field(l) {
                Some(v) => avail = v,
                None => {
                    proof {
                        lemma_mem_scan_stays_none(lines, i + 1);
                    }
                    return None;
                },
            }
        }
        i = i + 1;
    }
    assert(lines.take(n as int) =~= lines);
    if total == 0 {
        None
    } else {
        Some((total, avail))
    }
}

impl SystemModule {
    /// Takes a new CPU sample; returns the time elapsed and the idle time
    /// elapsed since the last one, neither below zero.
    pub fn take_sample(&mut self, total: u64, idle: u64) -> (r: (u64, u64))
        ensures
            r.0 == (if total >= old(self).prev_total { total - old(self).prev_total } else { 0 }),
            r.1 == (if idle >= old(self).prev_idle { idle - old(self).prev_idle } else { 0 }),
            final(self).prev_total == total,
            final(self).prev_idle == idle,
            final(self).popup_open == old(self).popup_open,
            final(self).last_text == old(self).last_text,
    {
        let dt = total.saturating_sub(self.prev_total);
        let di = idle.saturating_sub(self.prev_idle);
        self.prev_total = total;
        self.prev_idle = idle;
        (dt, di)
    }

    /// Opens or closes the popup; returns whether the metrics are to be
    /// read and shown now.
    pub fn on_event(&mut self, widget_id: &str, event: &str) -> (refresh: bool)
        ensures
            ({
                let w = widget_id@;
                let e = event@;
                let root = w == "system"@ || w == "popup:system"@;
                let is_sys = w == "cpu"@ || w == "ram"@ || w == "memory"@ || w == "system"@
                    || spec_contains(w, "cpu"@) || spec_contains(w, "ram"@) || spec_contains(w, "mem"@)
                    || spec_contains(w, "sys"@);
                if root && e == "open"@ {
                    refresh && final(self).popup_open
                } else if root && e == "close"@ {
                    !refresh && !final(self).popup_open
                } else if is_sys && (e == "open"@ || e == "click"@) {
                    refresh && final(self).popup_open == (old(self).popup_open || e == "open"@)
                } else {
                    !refresh && final(self).popup_open == old(self).popup_open
                }
            }),
            final(self).prev_total == old(self).prev_total,
            final(self).prev_idle == old(self).prev_idle,
            final(self).last_text == old(self).last_text,
    {
        let w = chars_of(widget_id);
        if str_is(widget_id, "system") || str_is(widget_id, "popup:system") {
            if str_is(event, "open") {
                self.popup_open = true;
                return true;
            } else if str_is(event, "close") {
                self.popup_open = false;
                return false;
            }
        }
        let is_sys = str_is(widget_id, "cpu") || str_is(widget_id, "ram") || str_is(widget_id, "memory")
            || str_is(widget_id, "system") || contains(&w, &chars_of("cpu")) || contains(&w, &chars_of("ram"))
            || contains(&w, &chars_of("mem")) || contains(&w, &chars_of("sys"));
        if is_sys && (str_is(event, "open") || str_is(event, "click")) {
            if str_is(event, "open") {
                self.popup_open = true;
            }
            true
        } else {
            false
        }
    }
}

} // verus!
