//! Application launcher: desktop entries as the launcher reads them, the
//! cleaning of their command lines, the search over the index, and the
//! ways a command is started.

use vstd::prelude::*;
use crate::json::Json;
use crate::sdk::{data_dirs_apps, spec_words, strip_trailing, words, CommandLine};
use crate::number::{parse_u64, spec_parse_nat};
use crate::text::{
    char_views, chars_eq, chars_of, spec_split, spec_starts_with, spec_ends_with, spec_trim,
    split_chars, starts_with, ends_with, str_is, string_of, string_views, trim, contains,
    spec_contains, spec_to_lowercase, to_lowercase, spec_trim_start_matches, trim_start_matches,
};

verus! {

broadcast use vstd::seq_lib::group_seq_properties;

#[verifier::external_type_specification]
#[verifier::external_body]
pub struct ExShellParseError(shell_words::ParseError);

/// The words `shell_words::split` finds in a command line, or `None` when it
/// reports a quote left open.
pub uninterp spec fn spec_shell_split(s: Seq<char>) -> Option<Seq<Seq<char>>>;

/// The command line `shell_words::join` writes for a list of words.
pub uninterp spec fn spec_shell_join(words: Seq<Seq<char>>) -> Seq<char>;

/// Calls `shell_words::split`, which splits a command line into words the
/// way a POSIX shell would, quotes and backslashes included, and fails only
/// on an unclosed quote. The contract names the outcome as a function of the
/// line and says nothing more of it.
#[verifier::external_body]
fn shell_split(s: &str) -> (r: Result<Vec<String>, shell_words::ParseError>)
    ensures
        match r {
            Ok(v) => spec_shell_split(s@) == Some(string_views(v@)),
            Err(_) => spec_shell_split(s@) is None,
        },
{
    shell_words::split(s)
}

/// Calls `shell_words::join`, which quotes each word as needed and puts one
/// space between them. The contract names the result as a function of the
/// words and says nothing more of it.
#[verifier::external_body]
fn shell_join(ws: &Vec<String>) -> (r: String)
    ensures
        r@ == spec_shell_join(string_views(ws@)),
{
    shell_words::join(ws)
}

/// One installed application, from its desktop entry.
#[derive(Debug, Clone)]
pub struct AppInfo {
    pub id: String,
    pub name: String,
    /// The `Exec` command line, cleaned (`exec` in desktop-entry terms;
    /// that word is reserved here).
    pub command: String,
    pub comment: String,
    pub icon: String,
    pub terminal: bool,
    pub categories: Vec<String>,
}

/// Whether a token of an `Exec` line is kept: field codes (`%` and one
/// byte) and `@@` markers are dropped.
pub open spec fn keep_token(t: Seq<char>) -> bool {
    !(t.len() == 2 && t[0] == '%' && (t[1] as u32) < 128) && !spec_starts_with(t, "@@"@)
}

pub open spec fn keep_token_fn() -> spec_fn(Seq<char>) -> bool {
    |t: Seq<char>| keep_token(t)
}

/// The words of an `Exec` line: as a shell splits them, or at whitespace
/// when the line does not parse.
pub open spec fn exec_tokens(raw: Seq<char>) -> Seq<Seq<char>> {
    match spec_shell_split(raw) {
        Some(ws) => ws,
        None => spec_words(raw),
    }
}

/// `ts` without a final `--`.
pub open spec fn without_final_dashes(ts: Seq<Seq<char>>) -> Seq<Seq<char>> {
    if ts.len() > 0 && ts.last() == "--"@ { ts.drop_last() } else { ts }
}

/// The command line of an `Exec` value with field codes and markers
/// removed.
pub open spec fn spec_clean_exec(raw: Seq<char>) -> Seq<char> {
    spec_shell_join(without_final_dashes(exec_tokens(raw).filter(keep_token_fn())))
}

fn keep_token_exec(t: &String) -> (r: bool)
    ensures
        r == keep_token(t@),
{
    let v = chars_of(t.as_str());
    let code = v.len() == 2 && v[0] == '%' && (v[1] as u32) < 128;
    !code && !starts_with(&v, &chars_of("@@"))
}

/// The tokens an `Exec` line keeps: those of a shell split of it, or its
/// whitespace-separated words when the split failed, without field codes,
/// `@@` markers and a final `--`.
pub open spec fn spec_kept_exec_words(split: Option<Seq<Seq<char>>>, raw: Seq<char>) -> Seq<Seq<char>> {
    let toks = match split {
        Some(ws) => ws,
        None => spec_words(raw),
    };
    without_final_dashes(toks.filter(keep_token_fn()))
}

/// The words of a shell split, when there was one.
pub open spec fn split_view(split: Option<Vec<String>>) -> Option<Seq<Seq<char>>> {
    match split {
        Some(v) => Some(string_views(v@)),
        None => None,
    }
}

/// The tokens kept of an `Exec` line `raw`, given what splitting it as a
/// shell would gave (`None` when it did not parse).
pub fn kept_exec_words(split: Option<Vec<String>>, raw: &str) -> (r: Vec<String>)
    ensures
        string_views(r@) == spec_kept_exec_words(split_view(split), raw@),
{
    let ghost sv = split_view(split);
    let tokens: Vec<String> = match split {
        Some(v) => v,
        None => {
            let ws = words(&chars_of(raw));
            let mut out: Vec<String> = Vec::new();
            let mut i: usize = 0;
            while i < ws.len()
                invariant
                    i <= ws.len(),
                    string_views(out@) == char_views(ws@).take(i as int),
                decreases ws.len() - i,
            {
                let ghost before = string_views(out@);
                out.push(string_of(&ws[i]));
                assert(string_views(out@) =~= before.push(ws@[i as int]@));
                assert(char_views(ws@).take(i + 1) =~= char_views(ws@).take(i as int).push(ws@[i as int]@));
                i = i + 1;
            }
            assert(char_views(ws@).take(ws.len() as int) =~= char_views(ws@));
            out
        },
    };
    let ghost toks = string_views(tokens@);
    assert(toks == match sv { Some(ws) => ws, None => spec_words(raw@) });
    let mut filtered: Vec<String> = Vec::new();
    let mut i: usize = 0;
    while i < tokens.len()
        invariant
            i <= tokens.len(),
            toks == string_views(tokens@),
            string_views(filtered@) == toks.take(i as int).filter(keep_token_fn()),
        decreases tokens.len() - i,
    {
        proof {
            toks.take(i as int).lemma_filter_push(toks[i as int], keep_token_fn());
            assert(toks.take(i + 1) =~= toks.take(i as int).push(toks[i as int]));
        }
        if keep_token_exec(&tokens[i]) {
            let ghost before = string_views(filtered@);
            filtered.push(tokens[i].clone());
            assert(string_views(filtered@) =~= before.push(toks[i as int]));
        }
        i = i + 1;
    }
    assert(toks.take(tokens.len() as int) =~= toks);
    let n = filtered.len();
    if n > 0 && str_is(filtered[n - 1].as_str(), "--") {
        let ghost before = string_views(filtered@);
        filtered.pop();
        assert(string_views(filtered@) =~= before.drop_last());
    }
    filtered
}

/// Removes field codes such as `%U` and `@@` markers from an `Exec` value,
/// and a trailing `--`.
pub fn clean_exec_line(raw: &str) -> (r: String)
    ensures
        r@ == spec_clean_exec(raw@),
{
    let split = match shell_split(raw) {
        Ok(v) => Some(v),
        Err(_) => None,
    };
    shell_join(&kept_exec_words(split, raw))
}

/// What has been read of a desktop entry so far.
pub struct DesktopScan {
    pub in_entry: bool,
    pub name: Option<Seq<char>>,
    pub command: Option<Seq<char>>,
    pub comment: Option<Seq<char>>,
    pub icon: Option<Seq<char>>,
    pub no_display: bool,
    pub terminal: bool,
    pub categories: Seq<Seq<char>>,
}

pub open spec fn scan_start() -> DesktopScan {
    DesktopScan {
        in_entry: false,
        name: None,
        command: None,
        comment: None,
        icon: None,
        no_display: false,
        terminal: false,
        categories: Seq::empty(),
    }
}

/// The position of the first `c` in `s`.
pub open spec fn first_index_of(s: Seq<char>, c: char) -> Option<int>
    decreases s.len(),
{
    if s.len() == 0 {
        None
    } else {
        match first_index_of(s.drop_last(), c) {
            Some(i) => Some(i),
            None => if s.last() == c { Some(s.len() - 1) } else { None },
        }
    }
}

pub open spec fn ascii_lower(c: char) -> char {
    if 'A' <= c && c <= 'Z' { ((c as u32) + 32) as char } else { c }
}

/// Equality of two texts with ASCII letters compared without case.
pub open spec fn eq_ignore_ascii_case(a: Seq<char>, b: Seq<char>) -> bool {
    a.len() == b.len() && forall|i: int| 0 <= i < a.len() ==> ascii_lower(#[trigger] a[i]) == ascii_lower(b[i])
}

/// The categories of a `Categories` value: its `;`-separated parts,
/// trimmed, blank ones left out.
pub open spec fn category_list(parts: Seq<Seq<char>>) -> Seq<Seq<char>>
    decreases parts.len(),
{
    if parts.len() == 0 {
        Seq::empty()
    } else {
        let rest = category_list(parts.drop_last());
        let c = spec_trim(parts.last());
        if c.len() == 0 { rest } else { rest.push(c) }
    }
}

/// The scan after the key `key` with value `value` in the entry section.
pub open spec fn scan_pair(st: DesktopScan, key: Seq<char>, value: Seq<char>) -> DesktopScan {
    if key == "Name"@ && st.name is None {
        DesktopScan { name: Some(value), ..st }
    } else if spec_starts_with(key, "Name["@) && st.name is None {
        DesktopScan { name: Some(value), ..st }
    } else if key == "Exec"@ && st.command is None {
        DesktopScan { command: Some(spec_clean_exec(value)), ..st }
    } else if key == "Comment"@ && st.comment is None {
        DesktopScan { comment: Some(value), ..st }
    } else if key == "Icon"@ && st.icon is None {
        DesktopScan { icon: Some(value), ..st }
    } else if key == "NoDisplay"@ {
        DesktopScan { no_display: eq_ignore_ascii_case(value, "true"@), ..st }
    } else if key == "Terminal"@ {
        DesktopScan { terminal: eq_ignore_ascii_case(value, "true"@), ..st }
    } else if key == "Categories"@ {
        DesktopScan { categories: category_list(spec_split(value, ';')), ..st }
    } else {
        st
    }
}

/// The scan after one more line: a `[section]` header opens or closes the
/// entry section; inside it, a `key=value` line that is no comment is read.
pub open spec fn scan_line(st: DesktopScan, raw: Seq<char>) -> DesktopScan {
    let l = spec_trim(raw);
    if spec_starts_with(l, "["@) && spec_ends_with(l, "]"@) {
        DesktopScan { in_entry: l == "[Desktop Entry]"@, ..st }
    } else if !st.in_entry || spec_starts_with(l, "#"@) || first_index_of(l, '=') is None {
        st
    } else {
        let i = first_index_of(l, '=')->0;
        scan_pair(st, spec_trim(l.take(i)), spec_trim(l.skip(i + 1)))
    }
}

pub open spec fn scan_lines(lines: Seq<Seq<char>>) -> DesktopScan
    decreases lines.len(),
{
    if lines.len() == 0 {
        scan_start()
    } else {
        scan_line(scan_lines(lines.drop_last()), lines.last())
    }
}

/// The scan of a whole desktop file.
pub open spec fn scan_desktop(content: Seq<char>) -> DesktopScan {
    scan_lines(spec_split(content, '\n'))
}

/// Whether a desktop file describes an application to list: it has a name
/// and a command and is not hidden.
pub open spec fn listed(st: DesktopScan) -> bool {
    !st.no_display && st.name is Some && st.command is Some
}

struct ScanState {
    in_entry: bool,
    name: Option<String>,
    exec_line: Option<String>,
    comment: Option<String>,
    icon: Option<String>,
    no_display: bool,
    terminal: bool,
    categories: Vec<String>,
}

spec fn opt_view(o: Option<String>) -> Option<Seq<char>> {
    match o {
        Some(s) => Some(s@),
        None => None,
    }
}

impl ScanState {
    spec fn view_scan(&self) -> DesktopScan {
        DesktopScan {
            in_entry: self.in_entry,
            name: opt_view(self.name),
            command: opt_view(self.exec_line),
            comment: opt_view(self.comment),
            icon: opt_view(self.icon),
            no_display: self.no_display,
            terminal: self.terminal,
            categories: string_views(self.categories@),
        }
    }
}

fn first_index_of_exec(s: &Vec<char>, c: char) -> (r: Option<usize>)
    ensures
        match r {
            Some(i) => first_index_of(s@, c) == Some(i as int) && i < s.len(),
            None => first_index_of(s@, c) is None,
        },
{
    let mut i: usize = 0;
    while i < s.len()
        invariant
            i <= s.len(),
            first_index_of(s@.take(i as int), c) is None,
        decreases s.len() - i,
    {
        assert(s@.take(i + 1).drop_last() =~= s@.take(i as int));
        if s[i] == c {
            proof {
                lemma_first_index_prefix(s@, i + 1, c);
            }
            return Some(i);
        }
        i = i + 1;
    }
    assert(s@.take(s.len() as int) =~= s@);
    None
}

proof fn lemma_first_index_prefix(s: Seq<char>, k: int, c: char)
    requires
        0 <= k <= s.len(),
        first_index_of(s.take(k), c) is Some,
    ensures
        first_index_of(s, c) == first_index_of(s.take(k), c),
    decreases s.len(),
{
    if k == s.len() {
        assert(s.take(k) =~= s);
    } else {
        assert(s.drop_last().take(k) =~= s.take(k));
        lemma_first_index_prefix(s.drop_last(), k, c);
    }
}

fn ascii_lower_exec(c: char) -> (r: char)
    ensures
        r == ascii_lower(c),
{
    if 'A' <= c && c <= 'Z' {
        let n: u8 = (c as u8) + 32;
        n as char
    } else {
        c
    }
}

pub(crate) fn eq_ignore_ascii_case_exec(a: &Vec<char>, b: &str) -> (r: bool)
    ensures
        r == eq_ignore_ascii_case(a@, b@),
{
    let bv = chars_of(b);
    if a.len() != bv.len() {
        return false;
    }
    let mut i: usize = 0;
    while i < a.len()
        invariant
            a.len() == bv.len(),
            bv@ == b@,
            i <= a.len(),
            forall|j: int| 0 <= j < i ==> ascii_lower(#[trigger] a@[j]) == ascii_lower(bv@[j]),
        decreases a.len() - i,
    {
        if ascii_lower_exec(a[i]) != ascii_lower_exec(bv[i]) {
            return false;
        }
        i = i + 1;
    }
    true
}

fn category_list_exec(parts: &Vec<Vec<char>>) -> (r: Vec<String>)
    ensures
        string_views(r@) == category_list(char_views(parts@)),
{
    let mut out: Vec<String> = Vec::new();
    let mut i: usize = 0;
    while i < parts.len()
        invariant
            i <= parts.len(),
            string_views(out@) == category_list(char_views(parts@).take(i as int)),
        decreases parts.len() - i,
    {
        let ghost pre = char_views(parts@).take(i + 1);
        assert(pre.drop_last() =~= char_views(parts@).take(i as int));
        assert(pre.last() == parts@[i as int]@);
        let c = trim(&parts[i]);
        if c.len() > 0 {
            let ghost before = string_views(out@);
            out.push(string_of(&c));
            assert(string_views(out@) =~= before.push(c@));
        }
        i = i + 1;
    }
    assert(char_views(parts@).take(parts.len() as int) =~= char_views(parts@));
    out
}

fn scan_pair_exec(st: &mut ScanState, key: &Vec<char>, value: &Vec<char>)
    ensures
        final(st).view_scan() == scan_pair(old(st).view_scan(), key@, value@),
{
    let k = string_of(key);
    if str_is(k.as_str(), "Name") && st.name.is_none() {
        st.name = Some(string_of(value));
    } else if starts_with(key, &chars_of("Name[")) && st.name.is_none() {
        st.name = Some(string_of(value));
    } else if str_is(k.as_str(), "Exec") && st.exec_line.is_none() {
        st.exec_line = Some(clean_exec_line(string_of(value).as_str()));
    } else if str_is(k.as_str(), "Comment") && st.comment.is_none() {
        st.comment = Some(string_of(value));
    } else if str_is(k.as_str(), "Icon") && st.icon.is_none() {
        st.icon = Some(string_of(value));
    } else if str_is(k.as_str(), "NoDisplay") {
        st.no_display = eq_ignore_ascii_case_exec(value, "true");
    } else if str_is(k.as_str(), "Terminal") {
        st.terminal = eq_ignore_ascii_case_exec(value, "true");
    } else if str_is(k.as_str(), "Categories") {
        st.categories = category_list_exec(&split_chars(value, ';'));
    }
}

fn scan_line_exec(st: &mut ScanState, raw: &Vec<char>)
    ensures
        final(st).view_scan() == scan_line(old(st).view_scan(), raw@),
{
    let l = trim(raw);
    if starts_with(&l, &chars_of("[")) && ends_with(&l, &chars_of("]")) {
        st.in_entry = chars_eq(&l, &chars_of("[Desktop Entry]"));
        return;
    }
    if !st.in_entry || starts_with(&l, &chars_of("#")) {
        return;
    }
    match first_index_of_exec(&l, '=') {
        None => {},
        Some(i) => {
            let key = trim(&crate::text::slice(&l, 0, i));
            let value = trim(&crate::text::slice(&l, i + 1, l.len()));
            assert(l@.take(i as int) =~= l@.subrange(0, i as int));
            assert(l@.skip(i + 1) =~= l@.subrange(i + 1, l@.len() as int));
            scan_pair_exec(st, &key, &value);
        },
    }
}

/// Reads a desktop file's text into an application entry with id `id`;
/// `None` when the file names no application, or a hidden one.
pub fn parse_desktop_content(content: &str, id: &str) -> (r: Option<AppInfo>)
    ensures
        r is Some <==> listed(scan_desktop(content@)),
        r matches Some(app) ==> {
            let st = scan_desktop(content@);
            &&& app.id@ == id@
            &&& Some(app.name@) == st.name
            &&& Some(app.command@) == st.command
            &&& app.comment@ == (match st.comment { Some(c) => c, None => ""@ })
            &&& app.icon@ == (match st.icon { Some(c) => c, None => ""@ })
            &&& app.terminal == st.terminal
            &&& string_views(app.categories@) == st.categories
        },
{
    let lines = split_chars(&chars_of(content), '\n');
    let mut st = ScanState {
        in_entry: false,
        name: None,
        exec_line: None,
        comment: None,
        icon: None,
        no_display: false,
        terminal: false,
        categories: Vec::new(),
    };
    assert(string_views(st.categories@) =~= Seq::<Seq<char>>::empty());
    assert(st.view_scan() == scan_start());
    let mut i: usize = 0;
    while i < lines.len()
        invariant
            i <= lines.len(),
            st.view_scan() == scan_lines(char_views(lines@).take(i as int)),
        decreases lines.len() - i,
    {
        let ghost pre = char_views(lines@).take(i + 1);
        assert(pre.drop_last() =~= char_views(lines@).take(i as int));
        assert(pre.last() == lines@[i as int]@);
        scan_line_exec(&mut st, &lines[i]);
        i = i + 1;
    }
    assert(char_views(lines@).take(lines.len() as int) =~= char_views(lines@));
    if st.no_display || st.name.is_none() || st.exec_line.is_none() {
        return None;
    }
    let comment = match st.comment {
        Some(c) => c,
        None => "".to_string(),
    };
    let icon = match st.icon {
        Some(c) => c,
        None => "".to_string(),
    };
    Some(AppInfo {
        id: id.to_string(),
        name: st.name.unwrap(),
        command: st.exec_line.unwrap(),
        comment,
        icon,
        terminal: st.terminal,
        categories: st.categories,
    })
}

/// The application launcher's state.
#[derive(Debug)]
pub struct LauncherModule {
    pub apps: Vec<AppInfo>,
    pub query: String,
    pub selected: usize,
    pub initialized: bool,
    pub config: Json,
    pub max_items: usize,
}

pub open spec fn lower(s: Seq<char>) -> Seq<char> {
    spec_to_lowercase(s)
}

/// Whether an application matches the lower-cased query `q`: its name,
/// comment, id or command contains it, case aside.
pub open spec fn app_matches(a: AppInfo, q: Seq<char>) -> bool {
    spec_contains(lower(a.name@), q) || spec_contains(lower(a.comment@), q) || spec_contains(
        lower(a.id@),
        q,
    ) || spec_contains(lower(a.command@), q)
}

pub open spec fn matches_fn(q: Seq<char>) -> spec_fn(AppInfo) -> bool {
    |a: AppInfo| app_matches(a, q)
}

/// The first `n` elements of `s`, or all of them.
pub open spec fn take_at_most<T>(s: Seq<T>, n: nat) -> Seq<T> {
    if s.len() <= n { s } else { s.take(n as int) }
}

/// The applications shown for the query: the first `max_items` of those
/// that match it, or of all when it is blank.
pub open spec fn spec_filtered(apps: Seq<AppInfo>, query: Seq<char>, limit: nat) -> Seq<AppInfo> {
    let q = lower(spec_trim(query));
    if q.len() == 0 {
        take_at_most(apps, limit)
    } else {
        take_at_most(apps.filter(matches_fn(q)), limit)
    }
}

/// The search keeps exactly the applications whose name, comment, id or
/// command contains the trimmed, lower-cased query (each lower-cased too),
/// in their order: when the limit cuts nothing, every such application is
/// shown, and every shown one is such an application.
pub proof fn law_search_matches_name_comment_id_command(apps: Seq<AppInfo>, query: Seq<char>, limit: nat)
    requires
        lower(spec_trim(query)).len() > 0,
    ensures
        ({
            let q = lower(spec_trim(query));
            let shown = spec_filtered(apps, query, limit);
            &&& limit >= apps.len() ==> forall|k: int| 0 <= k < apps.len() && (spec_contains(lower(apps[k].name@), q)
                || spec_contains(lower(apps[k].comment@), q) || spec_contains(lower(apps[k].id@), q)
                || spec_contains(lower(apps[k].command@), q)) ==> shown.contains(#[trigger] apps[k])
            &&& forall|i: int| 0 <= i < shown.len() ==> apps.contains(#[trigger] shown[i]) && (spec_contains(
                lower(shown[i].name@),
                q,
            ) || spec_contains(lower(shown[i].comment@), q) || spec_contains(lower(shown[i].id@), q)
                || spec_contains(lower(shown[i].command@), q))
        }),
{
    let q = lower(spec_trim(query));
    let f = apps.filter(matches_fn(q));
    apps.lemma_filter_len(matches_fn(q));
    assert forall|k: int| 0 <= k < apps.len() && (spec_contains(lower(apps[k].name@), q)
        || spec_contains(lower(apps[k].comment@), q) || spec_contains(lower(apps[k].id@), q)
        || spec_contains(lower(apps[k].command@), q)) implies f.contains(#[trigger] apps[k]) by {
        apps.lemma_filter_contains(matches_fn(q), k);
    }
    let shown = spec_filtered(apps, query, limit);
    assert forall|i: int| 0 <= i < shown.len() implies apps.contains(#[trigger] shown[i]) && (spec_contains(
        lower(shown[i].name@),
        q,
    ) || spec_contains(lower(shown[i].comment@), q) || spec_contains(lower(shown[i].id@), q)
        || spec_contains(lower(shown[i].command@), q)) by {
        assert(shown[i] == f[i]);
        apps.lemma_filter_pred(matches_fn(q), i);
        apps.lemma_filter_contains_rev(matches_fn(q), f[i]);
    }
}

fn lower_contains(s: &String, q: &Vec<char>) -> (r: bool)
    ensures
        r == spec_contains(lower(s@), q@),
{
    contains(&chars_of(to_lowercase(s.as_str()).as_str()), q)
}

fn app_matches_exec(a: &AppInfo, q: &Vec<char>) -> (r: bool)
    ensures
        r == app_matches(*a, q@),
{
    lower_contains(&a.name, q) || lower_contains(&a.comment, q) || lower_contains(&a.id, q)
        || lower_contains(&a.command, q)
}

/// The first application of id `id`.
pub open spec fn app_with_id(apps: Seq<AppInfo>, id: Seq<char>) -> Option<AppInfo>
    decreases apps.len(),
{
    if apps.len() == 0 {
        None
    } else if apps[0].id@ == id {
        Some(apps[0])
    } else {
        app_with_id(apps.drop_first(), id)
    }
}

/// What the launcher is to do after an event.
#[derive(Debug)]
pub enum LauncherAction {
    /// Draw the launcher again.
    Show,
    /// Start this application and close the launcher.
    Launch(AppInfo),
    Nothing,
}

impl LauncherModule {
    /// The applications shown for the current query.
    pub fn filtered_apps(&self) -> (r: Vec<&AppInfo>)
        ensures
            r@.len() == spec_filtered(self.apps@, self.query@, self.max_items as nat).len(),
            forall|i: int| 0 <= i < r@.len() ==> *(#[trigger] r@[i]) == spec_filtered(self.apps@, self.query@, self.max_items as nat)[i],
    {
        let qv = chars_of(to_lowercase(string_of(&trim(&chars_of(self.query.as_str()))).as_str()).as_str());
        let limit = self.max_items;
        let ghost q = qv@;
        let ghost src: Seq<AppInfo> = if q.len() == 0 { self.apps@ } else { self.apps@.filter(matches_fn(q)) };
        let mut out: Vec<&AppInfo> = Vec::new();
        let mut i: usize = 0;
        while i < self.apps.len()
            invariant
                i <= self.apps.len(),
                q == qv@,
                q == lower(spec_trim(self.query@)),
                src == (if q.len() == 0 { self.apps@ } else { self.apps@.filter(matches_fn(q)) }),
                limit == self.max_items,
                out@.len() == take_at_most(
                    if q.len() == 0 { self.apps@.take(i as int) } else { self.apps@.take(i as int).filter(matches_fn(q)) },
                    limit as nat,
                ).len(),
                forall|j: int| 0 <= j < out@.len() ==> *(#[trigger] out@[j]) == take_at_most(
                    if q.len() == 0 { self.apps@.take(i as int) } else { self.apps@.take(i as int).filter(matches_fn(q)) },
                    limit as nat,
                )[j],
            decreases self.apps.len() - i,
        {
            let ghost before = if q.len() == 0 { self.apps@.take(i as int) } else { self.apps@.take(i as int).filter(matches_fn(q)) };
            proof {
                self.apps@.take(i as int).lemma_filter_push(self.apps@[i as int], matches_fn(q));
                assert(self.apps@.take(i + 1) =~= self.apps@.take(i as int).push(self.apps@[i as int]));
            }
            let keep = qv.len() == 0 || app_matches_exec(&self.apps[i], &qv);
            if keep && out.len() < limit {
                out.push(&self.apps[i]);
            }
            i = i + 1;
        }
        assert(self.apps@.take(self.apps.len() as int) =~= self.apps@);
        out
    }
}

fn find_app(apps: &Vec<AppInfo>, id: &Vec<char>) -> (r: Option<usize>)
    ensures
        match r {
            Some(i) => i < apps@.len() && app_with_id(apps@, id@) == Some(apps@[i as int]),
            None => app_with_id(apps@, id@) is None,
        },
{
    let mut i: usize = 0;
    assert(apps@.subrange(0, apps@.len() as int) =~= apps@);
    while i < apps.len()
        invariant
            i <= apps.len(),
            app_with_id(apps@, id@) == app_with_id(apps@.subrange(i as int, apps@.len() as int), id@),
        decreases apps.len() - i,
    {
        let ghost rest = apps@.subrange(i as int, apps@.len() as int);
        assert(rest.drop_first() =~= apps@.subrange(i + 1, apps@.len() as int));
        assert(rest[0] == apps@[i as int]);
        if chars_eq(&chars_of(apps[i].id.as_str()), id) {
            return Some(i);
        }
        i = i + 1;
    }
    None
}

impl AppInfo {
    /// A field-by-field copy.
    pub fn duplicate(&self) -> (r: AppInfo)
        ensures
            r.id == self.id && r.name == self.name && r.command == self.command,
            r.comment == self.comment && r.icon == self.icon && r.terminal == self.terminal,
            r.categories@ == self.categories@,
    {
        let mut categories: Vec<String> = Vec::new();
        let mut i: usize = 0;
        while i < self.categories.len()
            invariant
                i <= self.categories.len(),
                categories@ == self.categories@.take(i as int),
            decreases self.categories.len() - i,
        {
            categories.push(self.categories[i].clone());
            assert(self.categories@.take(i + 1) =~= self.categories@.take(i as int).push(self.categories@[i as int]));
            i = i + 1;
        }
        assert(self.categories@.take(self.categories.len() as int) =~= self.categories@);
        AppInfo {
            id: self.id.clone(),
            name: self.name.clone(),
            command: self.command.clone(),
            comment: self.comment.clone(),
            icon: self.icon.clone(),
            terminal: self.terminal,
            categories,
        }
    }
}

/// The same application: equal fields, the category lists taken as
/// sequences.
pub open spec fn same_app(a: AppInfo, b: AppInfo) -> bool {
    &&& a.id == b.id && a.name == b.name && a.command == b.command
    &&& a.comment == b.comment && a.icon == b.icon && a.terminal == b.terminal
    &&& a.categories@ == b.categories@
}

/// The launcher is left as it was.
pub open spec fn unchanged(a: LauncherModule, b: LauncherModule) -> bool {
    &&& b.apps@ == a.apps@ && b.query == a.query && b.selected == a.selected
    &&& b.max_items == a.max_items && b.initialized == a.initialized && b.config == a.config
}

/// The launcher with the same index and settings.
pub open spec fn same_index(a: LauncherModule, b: LauncherModule) -> bool {
    &&& b.apps@ == a.apps@ && b.max_items == a.max_items
    &&& b.initialized == a.initialized && b.config == a.config
}

/// The search and selection are reset.
pub open spec fn reset(a: LauncherModule, b: LauncherModule) -> bool {
    same_index(a, b) && b.query@.len() == 0 && b.selected == 0
}

/// The selection after one step down (round to the first match) or up
/// (round to the last) among `n` matches.
pub open spec fn moved_selection(s: usize, n: nat, down: bool) -> usize {
    if down {
        ((s + 1) % (n as int)) as usize
    } else if s == 0 {
        (n - 1) as usize
    } else {
        (s - 1) as usize
    }
}

/// Stepping through the matches keeps the selection on a match, and a step
/// down followed by a step up comes back to the same match.
pub proof fn law_selection_steps(s: usize, n: nat)
    requires
        s < n,
        n <= usize::MAX,
    ensures
        moved_selection(s, n, true) < n,
        moved_selection(s, n, false) < n,
        moved_selection(moved_selection(s, n, true), n, false) == s,
        moved_selection(moved_selection(s, n, false), n, true) == s,
{
    if s + 1 < n {
        assert((s + 1) % (n as int) == s + 1) by (nonlinear_arith)
            requires
                s + 1 < n,
                s >= 0,
        ;
    } else {
        assert((s + 1) % (n as int) == 0) by (nonlinear_arith)
            requires
                s + 1 == n,
        ;
    }
    if s == 0 {
        assert(((n - 1) + 1) % (n as int) == 0) by (nonlinear_arith)
            requires
                n > 0,
        ;
    } else {
        assert(((s - 1) + 1) % (n as int) == s) by (nonlinear_arith)
            requires
                0 < s < n,
        ;
    }
}

impl LauncherModule {
    /// Handles an event: opening the launcher clears the search; a click on
    /// an application, or submitting the search, starts the application (the
    /// selected match, else the first) and clears the search; `down` and `up`
    /// move the selection round the matches; any other text on the search
    /// field becomes the query.
    pub fn on_event(&mut self, widget_id: &str, event: &str) -> (r: LauncherAction)
        ensures
            (widget_id@ == "launcher"@ || widget_id@ == "appmenu"@ || widget_id@ == "launcher_btn"@) ==> {
                if event@ == "open"@ || event@ == "click"@ {
                    r is Show && reset(*old(self), *final(self))
                } else {
                    r is Nothing && unchanged(*old(self), *final(self))
                }
            },
            !(widget_id@ == "launcher"@ || widget_id@ == "appmenu"@ || widget_id@ == "launcher_btn"@)
                && spec_starts_with(widget_id@, "app_launch_"@) ==> match app_with_id(
                old(self).apps@,
                spec_trim_start_matches(widget_id@, "app_launch_"@),
            ) {
                Some(a) => r matches LauncherAction::Launch(b) && same_app(a, b) && reset(*old(self), *final(self)),
                None => r is Nothing && unchanged(*old(self), *final(self)),
            },
            !(widget_id@ == "launcher"@ || widget_id@ == "appmenu"@ || widget_id@ == "launcher_btn"@)
                && !spec_starts_with(widget_id@, "app_launch_"@) && widget_id@ == "launcher_search"@ ==> {
                let m = spec_filtered(old(self).apps@, old(self).query@, old(self).max_items as nat);
                let s = old(self).selected;
                if event@ == "submit"@ || event@ == "enter"@ {
                    if m.len() > 0 {
                        r matches LauncherAction::Launch(b) && same_app(if s < m.len() { m[s as int] } else { m[0] }, b)
                            && reset(*old(self), *final(self))
                    } else {
                        r is Nothing && unchanged(*old(self), *final(self))
                    }
                } else if event@ == "down"@ || event@ == "up"@ {
                    if m.len() > 0 {
                        &&& r is Show
                        &&& same_index(*old(self), *final(self))
                        &&& final(self).query == old(self).query
                        &&& final(self).selected == moved_selection(s, m.len(), event@ == "down"@)
                    } else {
                        r is Nothing && unchanged(*old(self), *final(self))
                    }
                } else {
                    r is Show && same_index(*old(self), *final(self)) && final(self).query@ == event@
                        && final(self).selected == 0
                }
            },
            !(widget_id@ == "launcher"@ || widget_id@ == "appmenu"@ || widget_id@ == "launcher_btn"@)
                && !spec_starts_with(widget_id@, "app_launch_"@) && widget_id@ != "launcher_search"@
                ==> r is Nothing && unchanged(*old(self), *final(self)),
    {
        if str_is(widget_id, "launcher") || str_is(widget_id, "appmenu") || str_is(widget_id, "launcher_btn") {
            if str_is(event, "open") || str_is(event, "click") {
                self.query = String::new();
                self.selected = 0;
                return LauncherAction::Show;
            }
            return LauncherAction::Nothing;
        }
        if starts_with(&chars_of(widget_id), &chars_of("app_launch_")) {
            let id = trim_start_matches(widget_id, "app_launch_");
            match find_app(&self.apps, &chars_of(id.as_str())) {
                Some(i) => {
                    let app = self.apps[i].duplicate();
                    self.query = String::new();
                    self.selected = 0;
                    return LauncherAction::Launch(app);
                },
                None => return LauncherAction::Nothing,
            }
        }
        if !str_is(widget_id, "launcher_search") {
            return LauncherAction::Nothing;
        }
        if str_is(event, "submit") || str_is(event, "enter") {
            let target = {
                let m = self.filtered_apps();
                if m.len() == 0 {
                    None
                } else if self.selected < m.len() {
                    Some(m[self.selected].duplicate())
                } else {
                    Some(m[0].duplicate())
                }
            };
            match target {
                Some(app) => {
                    self.query = String::new();
                    self.selected = 0;
                    LauncherAction::Launch(app)
                },
                None => LauncherAction::Nothing,
            }
        } else if str_is(event, "down") || str_is(event, "up") {
            let n = self.filtered_apps().len();
            if n == 0 {
                return LauncherAction::Nothing;
            }
            if str_is(event, "down") {
                let s = self.selected;
                proof {
                    lemma_mod_step(s as int, n as int);
                }
                self.selected = (s % n + 1) % n;
            } else if self.selected == 0 {
                self.selected = n - 1;
            } else {
                self.selected = self.selected - 1;
            }
            LauncherAction::Show
        } else {
            self.query = event.to_string();
            self.selected = 0;
            LauncherAction::Show
        }
    }
}

proof fn lemma_mod_step(s: int, n: int)
    requires
        s >= 0,
        n > 0,
    ensures
        ((s % n) + 1) % n == (s + 1) % n,
        (s % n) + 1 <= n,
{
    vstd::arithmetic::div_mod::lemma_mod_bound(s, n);
    if n == 1 {
        vstd::arithmetic::div_mod::lemma_mod_bound((s % n) + 1, n);
        vstd::arithmetic::div_mod::lemma_mod_bound(s + 1, n);
    } else {
        vstd::arithmetic::div_mod::lemma_add_mod_noop(s, 1, n);
        vstd::arithmetic::div_mod::lemma_small_mod(1nat, n as nat);
        vstd::arithmetic::div_mod::lemma_mod_bound((s % n) + 1, n);
    }
}

/// The terminals tried, in order, for an application that runs in one.
pub open spec fn terminals() -> Seq<Seq<char>> {
    seq![
        "foot"@, "kitty"@, "alacritty"@, "wezterm"@, "ghostty"@, "gnome-terminal"@, "konsole"@,
        "xfce4-terminal"@, "xterm"@,
    ]
}

/// A way to start a program, as a program and its arguments.
pub open spec fn plan_view(c: CommandLine) -> (Seq<char>, Seq<Seq<char>>) {
    (c.program@, string_views(c.args@))
}

pub open spec fn in_terminal(term: Seq<char>, argv: Seq<Seq<char>>) -> (Seq<char>, Seq<Seq<char>>) {
    (term, seq!["-e"@] + argv)
}

/// The ways to start the command line `command`, to be tried in order until
/// one starts: in a terminal (`$TERMINAL` first, when set, then the usual
/// ones) when `terminal` holds, else directly. `None` when the line does not
/// split into at least one word.
pub open spec fn spec_launch_plans(command: Seq<char>, terminal: bool, term_env: Option<Seq<char>>) -> Option<Seq<(Seq<char>, Seq<Seq<char>>)>> {
    match spec_shell_split(command) {
        Some(argv) => spec_plans_for_words(argv, terminal, term_env),
        None => None,
    }
}

/// The ways to start a command split into the words `argv`: none for no
/// words; in a terminal, through `$TERMINAL` if set and then each known
/// terminal; else the program with its arguments.
pub open spec fn spec_plans_for_words(argv: Seq<Seq<char>>, terminal: bool, term_env: Option<Seq<char>>) -> Option<Seq<(Seq<char>, Seq<Seq<char>>)>> {
    if argv.len() == 0 {
        None
    } else if terminal {
        let env_plan: Seq<(Seq<char>, Seq<Seq<char>>)> = match term_env {
            Some(t) => seq![in_terminal(t, argv)],
            None => Seq::empty(),
        };
        Some(env_plan + terminals().map_values(|t: Seq<char>| in_terminal(t, argv)))
    } else {
        Some(seq![(argv[0], argv.drop_first())])
    }
}

fn strings_from(v: &Vec<String>, from: usize) -> (r: Vec<String>)
    requires
        from <= v.len(),
    ensures
        string_views(r@) == string_views(v@).skip(from as int),
{
    let mut r: Vec<String> = Vec::new();
    let mut i: usize = from;
    while i < v.len()
        invariant
            from <= i <= v.len(),
            string_views(r@) == string_views(v@).subrange(from as int, i as int),
        decreases v.len() - i,
    {
        let ghost before = string_views(r@);
        r.push(v[i].clone());
        assert(string_views(r@) =~= before.push(v@[i as int]@));
        assert(string_views(v@).subrange(from as int, i + 1) =~= string_views(v@).subrange(from as int, i as int).push(v@[i as int]@));
        i = i + 1;
    }
    assert(string_views(v@).subrange(from as int, v@.len() as int) =~= string_views(v@).skip(from as int));
    r
}

fn terminal_plan(term: &str, argv: &Vec<String>) -> (r: CommandLine)
    ensures
        plan_view(r) == in_terminal(term@, string_views(argv@)),
{
    let mut args: Vec<String> = Vec::new();
    args.push("-e".to_string());
    let rest = strings_from(argv, 0);
    let mut i: usize = 0;
    while i < rest.len()
        invariant
            i <= rest.len(),
            string_views(args@) == seq!["-e"@] + string_views(rest@).take(i as int),
        decreases rest.len() - i,
    {
        let ghost before = string_views(args@);
        args.push(rest[i].clone());
        assert(string_views(args@) =~= before.push(rest@[i as int]@));
        assert(string_views(rest@).take(i + 1) =~= string_views(rest@).take(i as int).push(rest@[i as int]@));
        i = i + 1;
    }
    assert(string_views(rest@).take(rest.len() as int) =~= string_views(rest@));
    assert(string_views(argv@).skip(0) =~= string_views(argv@));
    CommandLine { program: term.to_string(), args }
}

/// The ways to start `command`; see `spec_launch_plans`.
pub fn launch_plans(command: &str, terminal: bool, term_env: Option<String>) -> (r: Option<Vec<CommandLine>>)
    ensures
        match spec_launch_plans(command@, terminal, match term_env { Some(t) => Some(t@), None => None }) {
            Some(p) => r matches Some(v) && v@.map_values(|c: CommandLine| plan_view(c)) == p,
            None => r is None,
        },
{
    match shell_split(command) {
        Ok(argv) => plans_for_words(&argv, terminal, term_env),
        Err(_) => None,
    }
}

/// The ways to start a command already split into the words `argv`.
pub fn plans_for_words(argv: &Vec<String>, terminal: bool, term_env: Option<String>) -> (r: Option<Vec<CommandLine>>)
    ensures
        match spec_plans_for_words(string_views(argv@), terminal, match term_env { Some(t) => Some(t@), None => None }) {
            Some(p) => r matches Some(v) && v@.map_values(|c: CommandLine| plan_view(c)) == p,
            None => r is None,
        },
{
    if argv.len() == 0 {
        return None;
    }
    let ghost av = string_views(argv@);
    let mut plans: Vec<CommandLine> = Vec::new();
    if terminal {
        if let Some(t) = &term_env {
            plans.push(terminal_plan(t.as_str(), argv));
        }
        let ghost env_plan: Seq<(Seq<char>, Seq<Seq<char>>)> = match term_env {
            Some(t) => seq![in_terminal(t@, av)],
            None => Seq::empty(),
        };
        assert(plans@.map_values(|c: CommandLine| plan_view(c)) =~= env_plan);
        let names: [&str; 9] = [
            "foot", "kitty", "alacritty", "wezterm", "ghostty", "gnome-terminal", "konsole",
            "xfce4-terminal", "xterm",
        ];
        let ghost all = terminals().map_values(|t: Seq<char>| in_terminal(t, av));
        assert(names@.map_values(|s: &str| s@) =~= terminals());
        let mut i: usize = 0;
        while i < 9
            invariant
                i <= 9,
                names@.map_values(|s: &str| s@) == terminals(),
                av == string_views(argv@),
                all == terminals().map_values(|t: Seq<char>| in_terminal(t, av)),
                plans@.map_values(|c: CommandLine| plan_view(c)) == env_plan + all.take(i as int),
            decreases 9 - i,
        {
            let ghost before = plans@.map_values(|c: CommandLine| plan_view(c));
            let p = terminal_plan(names[i], argv);
            assert(names@[i as int]@ == terminals()[i as int]);
            plans.push(p);
            assert(plans@.map_values(|c: CommandLine| plan_view(c)) =~= before.push(plan_view(p)));
            assert(all.take(i + 1) =~= all.take(i as int).push(all[i as int]));
            i = i + 1;
        }
        assert(all.take(9) =~= all);
    } else {
        let program = argv[0].clone();
        let args = strings_from(argv, 1);
        plans.push(CommandLine { program, args });
        assert(av.skip(1) =~= av.drop_first());
        assert(plans@.map_values(|c: CommandLine| plan_view(c)) =~= seq![(av[0], av.drop_first())]);
    }
    Some(plans)
}

/// `s` with every copy of the non-empty `p` at its end removed, as
/// `str::trim_end_matches` does.
pub open spec fn spec_trim_end_matches(s: Seq<char>, p: Seq<char>) -> Seq<char>
    decreases s.len(),
{
    if p.len() > 0 && spec_ends_with(s, p) {
        spec_trim_end_matches(s.subrange(0, s.len() - p.len()), p)
    } else {
        s
    }
}

fn trim_end_matches_exec(s: &Vec<char>, p: &Vec<char>) -> (r: Vec<char>)
    ensures
        r@ == spec_trim_end_matches(s@, p@),
{
    if p.len() == 0 {
        return s.clone();
    }
    let mut n: usize = s.len();
    assert(s@.subrange(0, s@.len() as int) =~= s@);
    loop
        invariant
            p@.len() > 0,
            n <= s.len(),
            spec_trim_end_matches(s@, p@) == spec_trim_end_matches(s@.subrange(0, n as int), p@),
        decreases n,
    {
        let cur = crate::text::slice(s, 0, n);
        if ends_with(&cur, p) {
            assert(cur@.subrange(0, cur@.len() - p@.len()) =~= s@.subrange(0, n - p@.len()));
            n = n - p.len();
        } else {
            return cur;
        }
    }
}

/// The id of a desktop file: its file name without the `.desktop`
/// suffixes; `None` for another kind of file or an empty name.
pub open spec fn spec_desktop_id(path: Seq<char>) -> Option<Seq<char>> {
    if !spec_ends_with(path, ".desktop"@) {
        None
    } else {
        let stem = spec_trim_end_matches(crate::tray::spec_after_last(path, '/'), ".desktop"@);
        if stem.len() == 0 { None } else { Some(stem) }
    }
}

/// The id of the desktop file at `path`.
pub fn desktop_file_id(path: &str) -> (r: Option<String>)
    ensures
        match spec_desktop_id(path@) {
            Some(id) => r matches Some(s) && s@ == id,
            None => r is None,
        },
{
    let pv = chars_of(path);
    let suffix = chars_of(".desktop");
    if !ends_with(&pv, &suffix) {
        return None;
    }
    let name = crate::tray::after_last(&pv, '/');
    let stem = trim_end_matches_exec(&name, &suffix);
    if stem.len() == 0 { None } else { Some(string_of(&stem)) }
}

/// Takes the desktop file at `path` into the index when it is one whose id
/// has not been seen; returns that id, recorded in `seen`.
pub fn admit_desktop_file(seen: &mut Vec<String>, path: &str) -> (r: Option<String>)
    ensures
        match spec_desktop_id(path@) {
            Some(id) => if string_views(old(seen)@).contains(id) {
                r is None && final(seen)@ == old(seen)@
            } else {
                r matches Some(s) && s@ == id && string_views(final(seen)@) == string_views(old(seen)@).push(id)
            },
            None => r is None && final(seen)@ == old(seen)@,
        },
{
    match desktop_file_id(path) {
        Some(id) => {
            let idv = chars_of(id.as_str());
            let mut i: usize = 0;
            while i < seen.len()
                invariant
                    i <= seen.len(),
                    idv@ == id@,
                    seen@ == old(seen)@,
                    spec_desktop_id(path@) == Some(id@),
                    forall|j: int| 0 <= j < i ==> seen@[j]@ != id@,
                decreases seen.len() - i,
            {
                if chars_eq(&chars_of(seen[i].as_str()), &idv) {
                    assert(string_views(seen@)[i as int] == id@);
                    assert(string_views(seen@).contains(id@));
                    return None;
                }
                i = i + 1;
            }
            proof {
                if string_views(seen@).contains(id@) {
                    let j = choose|j: int| 0 <= j < string_views(seen@).len() && string_views(seen@)[j] == id@;
                    assert(seen@[j]@ == id@);
                }
            }
            let ghost before = string_views(seen@);
            seen.push(id.clone());
            assert(string_views(seen@) =~= before.push(id@));
            Some(id)
        },
        None => None,
    }
}

/// `list` with `x` added at the end unless it is already there.
pub open spec fn add_missing(list: Seq<Seq<char>>, x: Seq<char>) -> Seq<Seq<char>> {
    if list.contains(x) { list } else { list.push(x) }
}

pub open spec fn add_all(list: Seq<Seq<char>>, xs: Seq<Seq<char>>) -> Seq<Seq<char>>
    decreases xs.len(),
{
    if xs.len() == 0 { list } else { add_missing(add_all(list, xs.drop_last()), xs.last()) }
}

/// The strings among a list of JSON values.
pub open spec fn json_strings(vs: Seq<Json>) -> Seq<Seq<char>>
    decreases vs.len(),
{
    if vs.len() == 0 {
        Seq::empty()
    } else {
        let rest = json_strings(vs.drop_last());
        match vs.last().spec_as_str() {
            Some(s) => rest.push(s),
            None => rest,
        }
    }
}

/// The directories searched for desktop files: the standard ones, then the
/// configured `application_dirs`, with the configured `home`'s directory put
/// first and the configured `xdg_data_dirs` ones added, each once.
pub open spec fn spec_search_dirs(base: Seq<Seq<char>>, config: Json) -> Seq<Seq<char>> {
    let a = match config.spec_get("application_dirs"@) {
        Some(Json::Array(vs)) => add_all(base, json_strings(vs@)),
        _ => base,
    };
    let b = match config.spec_get("home"@) {
        Some(Json::Str(h)) => {
            let u = strip_trailing(h@, '/') + "/.local/share/applications"@;
            if a.contains(u) { a } else { seq![u] + a }
        },
        _ => a,
    };
    match config.spec_get("xdg_data_dirs"@) {
        Some(Json::Str(x)) => add_all(b, data_dirs_apps(spec_split(x@, ':'))),
        _ => b,
    }
}

fn add_all_exec(list: &mut Vec<Vec<char>>, xs: &Vec<Vec<char>>)
    ensures
        char_views(final(list)@) == add_all(char_views(old(list)@), char_views(xs@)),
{
    let ghost start = char_views(list@);
    let mut i: usize = 0;
    while i < xs.len()
        invariant
            i <= xs.len(),
            char_views(list@) == add_all(start, char_views(xs@).take(i as int)),
        decreases xs.len() - i,
    {
        let ghost pre = char_views(xs@).take(i + 1);
        assert(pre.drop_last() =~= char_views(xs@).take(i as int));
        assert(pre.last() == xs@[i as int]@);
        if !crate::text::list_contains(list, &xs[i]) {
            let ghost before = char_views(list@);
            list.push(xs[i].clone());
            assert(char_views(list@) =~= before.push(xs@[i as int]@));
        }
        i = i + 1;
    }
    assert(char_views(xs@).take(xs.len() as int) =~= char_views(xs@));
}

fn json_strings_exec(vs: &Vec<Json>) -> (r: Vec<Vec<char>>)
    ensures
        char_views(r@) == json_strings(vs@),
{
    let mut out: Vec<Vec<char>> = Vec::new();
    let mut i: usize = 0;
    while i < vs.len()
        invariant
            i <= vs.len(),
            char_views(out@) == json_strings(vs@.take(i as int)),
        decreases vs.len() - i,
    {
        assert(vs@.take(i + 1).drop_last() =~= vs@.take(i as int));
        if let Some(s) = vs[i].as_str() {
            let ghost before = char_views(out@);
            out.push(chars_of(s.as_str()));
            assert(char_views(out@) =~= before.push(s@));
        }
        i = i + 1;
    }
    assert(vs@.take(vs.len() as int) =~= vs@);
    out
}

/// The directories to search for desktop files.
pub fn search_dirs(base: &Vec<String>, config: &Json) -> (r: Vec<String>)
    ensures
        string_views(r@) == spec_search_dirs(string_views(base@), *config),
{
    let mut list: Vec<Vec<char>> = Vec::new();
    let mut i: usize = 0;
    while i < base.len()
        invariant
            i <= base.len(),
            char_views(list@) == string_views(base@).take(i as int),
        decreases base.len() - i,
    {
        let ghost before = char_views(list@);
        list.push(chars_of(base[i].as_str()));
        assert(char_views(list@) =~= before.push(base@[i as int]@));
        assert(string_views(base@).take(i + 1) =~= string_views(base@).take(i as int).push(base@[i as int]@));
        i = i + 1;
    }
    assert(string_views(base@).take(base.len() as int) =~= string_views(base@));
    if let Some(v) = config.get("application_dirs") {
        if let Some(vs) = v.as_array() {
            add_all_exec(&mut list, &json_strings_exec(vs));
        }
    }
    if let Some(v) = config.get("home") {
        if let Some(h) = v.as_str() {
            let u = crate::text::concat(
                &crate::sdk::strip_trailing_chars(&chars_of(h.as_str()), '/'),
                &chars_of("/.local/share/applications"),
            );
            if !crate::text::list_contains(&list, &u) {
                let ghost before = char_views(list@);
                list.insert(0, u);
                assert(char_views(list@) =~= seq![u@] + before);
            }
        }
    }
    if let Some(v) = config.get("xdg_data_dirs") {
        if let Some(x) = v.as_str() {
            let parts = split_chars(&chars_of(x.as_str()), ':');
            add_all_exec(&mut list, &crate::sdk::data_dirs_apps_exec(&parts));
        }
    }
    let mut out: Vec<String> = Vec::new();
    let mut k: usize = 0;
    while k < list.len()
        invariant
            k <= list.len(),
            string_views(out@) == char_views(list@).take(k as int),
        decreases list.len() - k,
    {
        let ghost before = string_views(out@);
        out.push(string_of(&list[k]));
        assert(string_views(out@) =~= before.push(list@[k as int]@));
        assert(char_views(list@).take(k + 1) =~= char_views(list@).take(k as int).push(list@[k as int]@));
        k = k + 1;
    }
    assert(char_views(list@).take(list.len() as int) =~= char_views(list@));
    out
}

/// Lexicographic order of character sequences, as `String`'s `Ord` orders
/// them.
pub open spec fn seq_le(a: Seq<char>, b: Seq<char>) -> bool
    decreases a.len(),
{
    if a.len() == 0 {
        true
    } else if b.len() == 0 {
        false
    } else if a[0] != b[0] {
        a[0] < b[0]
    } else {
        seq_le(a.drop_first(), b.drop_first())
    }
}

pub(crate) fn chars_le(a: &Vec<char>, b: &Vec<char>) -> (r: bool)
    ensures
        r == seq_le(a@, b@),
{
    let mut i: usize = 0;
    while i < a.len() && i < b.len() && a[i] == b[i]
        invariant
            i <= a.len() && i <= b.len(),
            a@.take(i as int) == b@.take(i as int),
            seq_le(a@, b@) == seq_le(a@.skip(i as int), b@.skip(i as int)),
        decreases a.len() - i,
    {
        assert(a@.skip(i as int).drop_first() =~= a@.skip(i + 1));
        assert(b@.skip(i as int).drop_first() =~= b@.skip(i + 1));
        assert(a@.take(i + 1) =~= a@.take(i as int).push(a@[i as int]));
        assert(b@.take(i + 1) =~= b@.take(i as int).push(b@[i as int]));
        i = i + 1;
    }
    if i == a.len() {
        true
    } else if i == b.len() {
        false
    } else {
        a[i] < b[i]
    }
}

/// The sort key of an application: its name, lower-cased.
pub open spec fn name_key(a: AppInfo) -> Seq<char> {
    lower(a.name@)
}

/// `s` with `x` put after the last element whose key is not above its own.
pub open spec fn insert_by_name(s: Seq<AppInfo>, x: AppInfo) -> Seq<AppInfo>
    decreases s.len(),
{
    if s.len() == 0 {
        seq![x]
    } else if seq_le(name_key(s.last()), name_key(x)) {
        s.push(x)
    } else {
        insert_by_name(s.drop_last(), x).push(s.last())
    }
}

/// The applications ordered by name, case aside, by stable insertion.
pub open spec fn sorted_by_name(s: Seq<AppInfo>) -> Seq<AppInfo>
    decreases s.len(),
{
    if s.len() == 0 {
        Seq::empty()
    } else {
        insert_by_name(sorted_by_name(s.drop_last()), s.last())
    }
}

fn name_key_exec(a: &AppInfo) -> (r: Vec<char>)
    ensures
        r@ == name_key(*a),
{
    chars_of(to_lowercase(a.name.as_str()).as_str())
}

/// Orders the applications by name, case aside; applications of equal
/// names keep their order.
pub fn sort_apps(apps: Vec<AppInfo>) -> (r: Vec<AppInfo>)
    ensures
        r@ == sorted_by_name(apps@),
{
    let ghost input = apps@;
    assert(input.len() == apps.len());
    let mut rest = apps;
    let mut out: Vec<AppInfo> = Vec::new();
    let mut k: usize = 0;
    while rest.len() > 0
        invariant
            k <= input.len(),
            input.len() <= usize::MAX,
            rest@ == input.skip(k as int),
            out@ == sorted_by_name(input.take(k as int)),
        decreases rest.len(),
    {
        let x = rest.remove(0);
        assert(input.take(k + 1).drop_last() =~= input.take(k as int));
        assert(input.take(k + 1).last() == x);
        assert(rest@ =~= input.skip(k + 1));
        let kx = name_key_exec(&x);
        let mut j: usize = out.len();
        let ghost s = out@;
        assert(s.take(j as int) =~= s);
        assert(s.skip(j as int) =~= Seq::<AppInfo>::empty());
        while j > 0 && !chars_le(&name_key_exec(&out[j - 1]), &kx)
            invariant
                j <= out.len(),
                out@ == s,
                kx@ == name_key(x),
                insert_by_name(s, x) == insert_by_name(s.take(j as int), x) + s.skip(j as int),
            decreases j,
        {
            assert(s.take(j as int).drop_last() =~= s.take(j - 1));
            assert(s.take(j as int).last() == s[j - 1]);
            assert(s.skip(j - 1) =~= seq![s[j - 1]] + s.skip(j as int));
            assert(insert_by_name(s.take(j - 1), x).push(s[j - 1]) + s.skip(j as int) =~= insert_by_name(s.take(j - 1), x) + s.skip(j - 1));
            j = j - 1;
        }
        proof {
            if j > 0 {
                assert(s.take(j as int).last() == s[j - 1]);
            }
            assert(insert_by_name(s.take(j as int), x) =~= s.take(j as int).push(x));
        }
        out.insert(j, x);
        assert(out@ =~= s.take(j as int).push(x) + s.skip(j as int));
        k = k + 1;
    }
    assert(input.skip(k as int).len() == 0);
    assert(input.take(k as int) =~= input);
    out
}

/// Any two strings are ordered one way or the other.
pub(crate) proof fn lemma_seq_le_total(a: Seq<char>, b: Seq<char>)
    ensures
        seq_le(a, b) || seq_le(b, a),
    decreases a.len(),
{
    if a.len() > 0 && b.len() > 0 && a[0] == b[0] {
        lemma_seq_le_total(a.drop_first(), b.drop_first());
    }
}

/// The string order is transitive.
pub(crate) proof fn lemma_seq_le_transitive(a: Seq<char>, b: Seq<char>, c: Seq<char>)
    requires
        seq_le(a, b),
        seq_le(b, c),
    ensures
        seq_le(a, c),
    decreases a.len(),
{
    if a.len() > 0 && b.len() > 0 && c.len() > 0 && a[0] == b[0] && b[0] == c[0] {
        lemma_seq_le_transitive(a.drop_first(), b.drop_first(), c.drop_first());
    }
}

/// Applications ordered by name, case aside.
pub open spec fn ordered_by_name(s: Seq<AppInfo>) -> bool {
    forall|i: int, j: int| 0 <= i < j < s.len() ==> seq_le(name_key(#[trigger] s[i]), name_key(#[trigger] s[j]))
}

proof fn lemma_insert_by_name(s: Seq<AppInfo>, x: AppInfo)
    requires
        ordered_by_name(s),
    ensures
        ordered_by_name(insert_by_name(s, x)),
        insert_by_name(s, x).to_multiset() =~= s.to_multiset().insert(x),
        insert_by_name(s, x).len() == s.len() + 1,
    decreases s.len(),
{
    broadcast use vstd::seq_lib::to_multiset_build;
    if s.len() == 0 {
        assert(seq![x] =~= Seq::<AppInfo>::empty().push(x));
    } else if seq_le(name_key(s.last()), name_key(x)) {
        let r = s.push(x);
        assert forall|i: int, j: int| 0 <= i < j < r.len() implies seq_le(name_key(#[trigger] r[i]), name_key(#[trigger] r[j])) by {
            if j == s.len() {
                if i < s.len() - 1 {
                    assert(seq_le(name_key(s[i]), name_key(s[s.len() - 1])));
                    lemma_seq_le_transitive(name_key(s[i]), name_key(s.last()), name_key(x));
                }
            } else {
                assert(r[i] == s[i] && r[j] == s[j]);
            }
        }
        assert(s.drop_last().push(s.last()) =~= s);
    } else {
        let d = s.drop_last();
        assert(ordered_by_name(d)) by {
            assert forall|i: int, j: int| 0 <= i < j < d.len() implies seq_le(name_key(#[trigger] d[i]), name_key(#[trigger] d[j])) by {
                assert(d[i] == s[i] && d[j] == s[j]);
            }
        }
        lemma_insert_by_name(d, x);
        let t = insert_by_name(d, x);
        let r = t.push(s.last());
        lemma_seq_le_total(name_key(s.last()), name_key(x));
        assert forall|i: int, j: int| 0 <= i < j < r.len() implies seq_le(name_key(#[trigger] r[i]), name_key(#[trigger] r[j])) by {
            if j == t.len() {
                assert(r[i] == t[i]);
                assert(t.to_multiset().count(t[i]) > 0);
                if t[i] != x {
                    assert(d.to_multiset().count(t[i]) > 0);
                    assert(d.contains(t[i]));
                    let k = choose|k: int| 0 <= k < d.len() && d[k] == t[i];
                    assert(s[k] == d[k]);
                    assert(seq_le(name_key(s[k]), name_key(s[s.len() - 1])));
                }
            } else {
                assert(r[i] == t[i] && r[j] == t[j]);
            }
        }
        assert(d.push(s.last()) =~= s);
    }
}

/// The launcher lists its applications ordered by name, case aside, and
/// sorting loses and adds none.
pub proof fn law_apps_sorted_by_name(s: Seq<AppInfo>)
    ensures
        ordered_by_name(sorted_by_name(s)),
        sorted_by_name(s).to_multiset() =~= s.to_multiset(),
    decreases s.len(),
{
    broadcast use vstd::seq_lib::to_multiset_build;
    if s.len() > 0 {
        law_apps_sorted_by_name(s.drop_last());
        lemma_insert_by_name(sorted_by_name(s.drop_last()), s.last());
        assert(s.drop_last().push(s.last()) =~= s);
    }
}

/// The member holding the configured result limit: the first of
/// `max_items`, `max_results`, `limit` and `count` that is present.
pub open spec fn limit_member(config: Json) -> Option<Json> {
    match config.spec_get("max_items"@) {
        Some(v) => Some(v),
        None => match config.spec_get("max_results"@) {
            Some(v) => Some(v),
            None => match config.spec_get("limit"@) {
                Some(v) => Some(v),
                None => config.spec_get("count"@),
            },
        },
    }
}

/// The number a limit member holds: an unsigned integer, or a string of
/// decimal digits that fits in 64 bits.
pub open spec fn limit_value(v: Json) -> Option<u64> {
    match v {
        Json::Int(n) => if 0 <= n <= u64::MAX { Some(n as u64) } else { None },
        Json::Str(s) => match spec_parse_nat(s@) {
            Some(n) => if n <= u64::MAX { Some(n as u64) } else { None },
            None => None,
        },
        _ => None,
    }
}

/// The result limit the module's configuration sets, if any.
pub fn configured_limit(config: &Json) -> (r: Option<u64>)
    ensures
        r == match limit_member(*config) {
            Some(v) => limit_value(v),
            None => None,
        },
{
    let member = match config.get("max_items") {
        Some(v) => Some(v),
        None => match config.get("max_results") {
            Some(v) => Some(v),
            None => match config.get("limit") {
                Some(v) => Some(v),
                None => config.get("count"),
            },
        },
    };
    match member {
        Some(v) => match v.as_u64() {
            Some(n) => Some(n),
            None => match v.as_str() {
                Some(s) => parse_u64(s.as_str()),
                None => None,
            },
        },
        None => None,
    }
}

} // verus!
