//! What the module host offers modules that needs no host call itself: the
//! directories that hold desktop entries, the splitting of command lines,
//! and the requests sent to the audio and notification daemons with the
//! reading of their answers.

use vstd::prelude::*;
use crate::json::Json;
use crate::number::{decimal, spec_decimal};
use crate::text::{
    char_views, chars_of, concat, ends_with, is_whitespace, list_contains, spec_ends_with, spec_starts_with, starts_with,
    spec_is_whitespace, spec_split, spec_trim, split_chars, str_is, string_of, string_views, trim,
};

verus! {

/// A message from the shell core to a module.
#[derive(Debug)]
pub enum CoreMessage {
    Init { version: u32, config: Json },
    Event { widget_id: String, event: String },
    PopupEvent { popup_id: String, event: String },
    TopicEvent { topic: String, value: Json },
    Shutdown,
}

/// A message from a module to the shell core.
#[derive(Debug)]
pub enum ModuleMessage {
    Ready,
    Update { widget_id: String, payload: Json },
    Surface { action: String, params: Json },
    Publish { topic: String, value: Json },
    RequestCapability { capability: String, action: String, params: Json },
    FocusRequest { popup_id: String },
    Ping,
}

broadcast use vstd::seq_lib::group_seq_properties;

/// A lower-case hexadecimal digit.
pub open spec fn hex_digit(n: nat) -> char {
    if n < 10 { ((n + 48) as u32) as char } else { ((n + 87) as u32) as char }
}

/// How serde_json writes one character inside a string literal: `"` and
/// `\` behind a backslash, the short escapes `\b \f \n \r \t`, `\u00XX`
/// (lower-case hex) for the other control characters below 0x20, and any
/// other character as it is.
pub open spec fn json_escape_char(c: char) -> Seq<char> {
    if c == '"' {
        seq!['\\', '"']
    } else if c == '\\' {
        seq!['\\', '\\']
    } else if c == '\u{8}' {
        seq!['\\', 'b']
    } else if c == '\u{c}' {
        seq!['\\', 'f']
    } else if c == '\n' {
        seq!['\\', 'n']
    } else if c == '\r' {
        seq!['\\', 'r']
    } else if c == '\t' {
        seq!['\\', 't']
    } else if (c as u32) < 0x20 {
        seq!['\\', 'u', '0', '0', hex_digit((c as u32 / 16) as nat), hex_digit((c as u32 % 16) as nat)]
    } else {
        seq![c]
    }
}

/// The characters of `s` escaped one by one, as serde_json writes them.
pub open spec fn json_escaped(s: Seq<char>) -> Seq<char>
    decreases s.len(),
{
    if s.len() == 0 {
        Seq::empty()
    } else {
        json_escaped(s.drop_last()) + json_escape_char(s.last())
    }
}

/// The JSON string literal, quotes included, that serde_json writes for a
/// string.
pub open spec fn spec_json_quoted(s: Seq<char>) -> Seq<char> {
    seq!['"'] + json_escaped(s) + seq!['"']
}

/// Calls `serde_json::to_string` on a `&str`: the JSON text of the string,
/// escapes and surrounding quotes included. Writing a string into memory
/// cannot fail, so the empty fallback is never taken. serde_json escapes
/// each character through its `ESCAPE` table and `write_char_escape`, as
/// `json_escape_char` states.
#[verifier::external_body]
pub(crate) fn json_quoted(s: &str) -> (r: String)
    ensures
        r@ == spec_json_quoted(s@),
{
    serde_json::to_string(s).unwrap_or_default()
}

/// The socket a request goes to, and the line sent on it.
#[derive(Debug)]
pub struct SocketRequest {
    pub socket: String,
    pub payload: String,
}

pub open spec fn bool_text(b: bool) -> Seq<char> {
    if b { "true"@ } else { "false"@ }
}

fn bool_string(b: bool) -> (r: String)
    ensures
        r@ == bool_text(b),
{
    if b { "true".to_string() } else { "false".to_string() }
}

fn join3(a: &str, b: &str, c: &str) -> (r: String)
    ensures
        r@ == a@ + b@ + c@,
{
    let ab = concat(&chars_of(a), &chars_of(b));
    string_of(&concat(&ab, &chars_of(c)))
}

/// Whether a daemon's answer reports success: its `status` is the string `ok`.
pub fn reply_ok(resp: &Json) -> (r: bool)
    ensures
        r == (match resp.spec_get("status"@) {
            Some(v) => v.spec_as_str() == Some("ok"@),
            None => false,
        }),
{
    match resp.get("status") {
        Some(v) => match v.as_str() {
            Some(s) => str_is(s.as_str(), "ok"),
            None => false,
        },
        None => false,
    }
}

pub open spec fn audio_socket() -> Seq<char> {
    "wyrd-audio.sock"@
}

pub open spec fn notifications_socket() -> Seq<char> {
    "wyrd-notifications.sock"@
}

/// The request that mutes or unmutes `target` at the audio daemon.
pub fn audio_set_mute(target: &str, mute: bool) -> (r: SocketRequest)
    ensures
        r.socket@ == audio_socket(),
        r.payload@ == "{\"cmd\":\"set_mute\",\"mute\":"@ + bool_text(mute) + ",\"target\":"@
            + spec_json_quoted(target@) + "}"@,
{
    let head = join3("{\"cmd\":\"set_mute\",\"mute\":", bool_string(mute).as_str(), ",\"target\":");
    SocketRequest {
        socket: "wyrd-audio.sock".to_string(),
        payload: join3(head.as_str(), json_quoted(target).as_str(), "}"),
    }
}

/// The request that flips the mute state of `target` at the audio daemon.
pub fn audio_toggle_mute(target: &str) -> (r: SocketRequest)
    ensures
        r.socket@ == audio_socket(),
        r.payload@ == "{\"cmd\":\"toggle_mute\",\"target\":"@ + spec_json_quoted(target@) + "}"@,
{
    SocketRequest {
        socket: "wyrd-audio.sock".to_string(),
        payload: join3("{\"cmd\":\"toggle_mute\",\"target\":", json_quoted(target).as_str(), "}"),
    }
}

/// The daemon-side kind of device a target names: `source` for a
/// microphone, else `sink`.
pub open spec fn daemon_kind(target: Seq<char>) -> Seq<char> {
    if crate::audio::spec_is_source_target(target) { "source"@ } else { "sink"@ }
}

/// The request that makes the device `name` the default of its kind.
pub fn audio_set_default(target: &str, name: &str) -> (r: SocketRequest)
    ensures
        r.socket@ == audio_socket(),
        r.payload@ == "{\"cmd\":\"set_default\",\"name\":"@ + spec_json_quoted(name@)
            + ",\"target\":\""@ + daemon_kind(target@) + "\"}"@,
{
    let kind = if crate::audio::is_source_target(target) { "source" } else { "sink" };
    let head = join3("{\"cmd\":\"set_default\",\"name\":", json_quoted(name).as_str(), ",\"target\":\"");
    SocketRequest {
        socket: "wyrd-audio.sock".to_string(),
        payload: join3(head.as_str(), kind, "\"}"),
    }
}

/// The request that dismisses notification `id` for `reason`.
pub fn notifications_dismiss(id: u32, reason: u32) -> (r: SocketRequest)
    ensures
        r.socket@ == notifications_socket(),
        r.payload@ == "{\"cmd\":\"dismiss\",\"id\":"@ + spec_decimal(id as nat) + ",\"reason\":"@
            + spec_decimal(reason as nat) + "}"@,
{
    let head = join3("{\"cmd\":\"dismiss\",\"id\":", decimal(id as u64).as_str(), ",\"reason\":");
    SocketRequest {
        socket: "wyrd-notifications.sock".to_string(),
        payload: join3(head.as_str(), decimal(reason as u64).as_str(), "}"),
    }
}

/// The request that dismisses every notification.
pub fn notifications_clear() -> (r: SocketRequest)
    ensures
        r.socket@ == notifications_socket(),
        r.payload@ == "{\"cmd\":\"clear\"}"@,
{
    SocketRequest {
        socket: "wyrd-notifications.sock".to_string(),
        payload: "{\"cmd\":\"clear\"}".to_string(),
    }
}

/// The request that turns do-not-disturb on or off.
pub fn notifications_set_dnd(enabled: bool) -> (r: SocketRequest)
    ensures
        r.socket@ == notifications_socket(),
        r.payload@ == "{\"cmd\":\"dnd\",\"dnd\":"@ + bool_text(enabled) + "}"@,
{
    SocketRequest {
        socket: "wyrd-notifications.sock".to_string(),
        payload: join3("{\"cmd\":\"dnd\",\"dnd\":", bool_string(enabled).as_str(), "}"),
    }
}

/// The whitespace-separated words of `s`, as `split_whitespace` gives them.
pub open spec fn spec_words(s: Seq<char>) -> Seq<Seq<char>>
    decreases s.len(),
{
    if s.len() == 0 {
        Seq::empty()
    } else {
        let w = spec_words(s.drop_last());
        let c = s.last();
        if spec_is_whitespace(c) {
            w
        } else if s.len() >= 2 && !spec_is_whitespace(s[s.len() - 2]) {
            w.update(w.len() - 1, w.last().push(c))
        } else {
            w.push(seq![c])
        }
    }
}

proof fn lemma_words_last_run(s: Seq<char>)
    requires
        s.len() >= 1,
        !spec_is_whitespace(s.last()),
    ensures
        spec_words(s).len() >= 1,
    decreases s.len(),
{
    if s.len() >= 2 && !spec_is_whitespace(s[s.len() - 2]) {
        assert(s.drop_last().last() == s[s.len() - 2]);
        lemma_words_last_run(s.drop_last());
    }
}

/// The words of `s`, as a list of vectors.
pub fn words(s: &Vec<char>) -> (r: Vec<Vec<char>>)
    ensures
        char_views(r@) == spec_words(s@),
{
    let mut out: Vec<Vec<char>> = Vec::new();
    let mut i: usize = 0;
    while i < s.len()
        invariant
            i <= s.len(),
            char_views(out@) == spec_words(s@.subrange(0, i as int)),
        decreases s.len() - i,
    {
        let ghost pre = s@.subrange(0, i + 1);
        assert(pre.drop_last() == s@.subrange(0, i as int));
        assert(pre.last() == s@[i as int]);
        let c = s[i];
        if is_whitespace(c) {
        } else if i >= 1 && !is_whitespace(s[i - 1]) {
            assert(pre[pre.len() - 2] == s@[i - 1]);
            proof {
                lemma_words_last_run(s@.subrange(0, i as int));
                assert(s@.subrange(0, i as int).last() == s@[i - 1]);
            }
            let last = out.len() - 1;
            let mut w = out[last].clone();
            w.push(c);
            let ghost before = char_views(out@);
            out.set(last, w);
            assert(char_views(out@) =~= before.update(before.len() - 1, before.last().push(c)));
        } else {
            let ghost before = char_views(out@);
            let mut w: Vec<char> = Vec::new();
            w.push(c);
            out.push(w);
            assert(char_views(out@) =~= before.push(seq![c]));
        }
        i = i + 1;
    }
    assert(s@.subrange(0, s.len() as int) == s@);
    out
}

/// Every word of a command line is a non-empty run of characters that are
/// not whitespace.
pub proof fn law_words_are_runs(s: Seq<char>)
    ensures
        forall|i: int| 0 <= i < spec_words(s).len() ==> (#[trigger] spec_words(s)[i]).len() > 0,
        forall|i: int, j: int| 0 <= i < spec_words(s).len() && 0 <= j < spec_words(s)[i].len()
            ==> !spec_is_whitespace(#[trigger] spec_words(s)[i][j]),
    decreases s.len(),
{
    if s.len() > 0 {
        law_words_are_runs(s.drop_last());
        let w = spec_words(s.drop_last());
        let c = s.last();
        if !spec_is_whitespace(c) && s.len() >= 2 && !spec_is_whitespace(s[s.len() - 2]) {
            assert(s.drop_last().last() == s[s.len() - 2]);
            lemma_words_last_run(s.drop_last());
            let n = w.update(w.len() - 1, w.last().push(c));
            assert forall|i: int, j: int| 0 <= i < n.len() && 0 <= j < n[i].len()
                implies !spec_is_whitespace(#[trigger] n[i][j]) by {
                if i == w.len() - 1 {
                    if j < w.last().len() {
                        assert(n[i][j] == w[i][j]);
                    }
                } else {
                    assert(n[i] == w[i]);
                }
            }
            assert forall|i: int| 0 <= i < n.len() implies (#[trigger] n[i]).len() > 0 by {
                if i != w.len() - 1 {
                    assert(n[i] == w[i]);
                }
            }
        } else if !spec_is_whitespace(c) {
            let n = w.push(seq![c]);
            assert forall|i: int, j: int| 0 <= i < n.len() && 0 <= j < n[i].len()
                implies !spec_is_whitespace(#[trigger] n[i][j]) by {
                if i < w.len() {
                    assert(n[i] == w[i]);
                }
            }
            assert forall|i: int| 0 <= i < n.len() implies (#[trigger] n[i]).len() > 0 by {
                if i < w.len() {
                    assert(n[i] == w[i]);
                }
            }
        }
    }
}

/// A program and the arguments to run it with.
#[derive(Debug)]
pub struct CommandLine {
    pub program: String,
    pub args: Vec<String>,
}

fn strings_of(v: &Vec<Vec<char>>, from: usize) -> (r: Vec<String>)
    requires
        from <= v.len(),
    ensures
        string_views(r@) == char_views(v@).subrange(from as int, v@.len() as int),
{
    let mut r: Vec<String> = Vec::new();
    let mut i: usize = from;
    while i < v.len()
        invariant
            from <= i <= v.len(),
            string_views(r@) == char_views(v@).subrange(from as int, i as int),
        decreases v.len() - i,
    {
        let ghost before = string_views(r@);
        r.push(string_of(&v[i]));
        assert(string_views(r@) =~= before.push(v@[i as int]@));
        assert(char_views(v@).subrange(from as int, i + 1) =~= char_views(v@).subrange(from as int, i as int).push(v@[i as int]@));
        i = i + 1;
    }
    r
}

/// The program and arguments a command line names: its first word and the
/// words after it; `None` when it holds no word.
pub fn exec_command(cmd: &str) -> (r: Option<CommandLine>)
    ensures
        r is None <==> spec_words(cmd@).len() == 0,
        r matches Some(c) ==> c.program@ == spec_words(cmd@)[0]
            && string_views(c.args@) == spec_words(cmd@).drop_first(),
{
    let ws = words(&chars_of(cmd));
    if ws.len() == 0 {
        return None;
    }
    let program = string_of(&ws[0]);
    let args = strings_of(&ws, 1);
    assert(char_views(ws@).subrange(1, ws@.len() as int) =~= char_views(ws@).drop_first());
    Some(CommandLine { program, args })
}

/// `s` without the copies of `c` at its end.
pub open spec fn strip_trailing(s: Seq<char>, c: char) -> Seq<char>
    decreases s.len(),
{
    if s.len() > 0 && s.last() == c { strip_trailing(s.drop_last(), c) } else { s }
}

pub(crate) fn strip_trailing_chars(s: &Vec<char>, c: char) -> (r: Vec<char>)
    ensures
        r@ == strip_trailing(s@, c),
{
    let mut n: usize = s.len();
    while n > 0 && s[n - 1] == c
        invariant
            n <= s.len(),
            strip_trailing(s@.subrange(0, n as int), c) == strip_trailing(s@, c),
        decreases n,
    {
        assert(s@.subrange(0, n as int).drop_last() == s@.subrange(0, n - 1));
        n = n - 1;
    }
    crate::text::slice(s, 0, n)
}

/// The directory of desktop entries under one entry of `XDG_DATA_DIRS`.
pub open spec fn data_dir_apps(e: Seq<char>) -> Seq<char> {
    if spec_ends_with(e, "/applications"@) { e } else { strip_trailing(e, '/') + "/applications"@ }
}

/// The application directories named by the pieces of `XDG_DATA_DIRS`;
/// blank pieces and relative ones (not starting with `/`), which the XDG
/// base directory rules call invalid, are left out.
pub open spec fn data_dirs_apps(parts: Seq<Seq<char>>) -> Seq<Seq<char>>
    decreases parts.len(),
{
    if parts.len() == 0 {
        Seq::empty()
    } else {
        let rest = data_dirs_apps(parts.drop_last());
        let e = spec_trim(parts.last());
        if !spec_starts_with(e, "/"@) { rest } else { rest.push(data_dir_apps(e)) }
    }
}

pub open spec fn is_set(v: Option<String>) -> bool {
    match v {
        Some(s) => spec_trim(s@).len() > 0,
        None => false,
    }
}

/// Whether `XDG_DATA_HOME` holds a usable value: set and absolute.
pub open spec fn is_absolute_set(v: Option<String>) -> bool {
    is_set(v) && spec_starts_with(v->0@, "/"@)
}

/// The user's application directory: under `XDG_DATA_HOME` when it is set
/// to an absolute path (a relative one is ignored), else under `HOME` if it
/// is set.
pub open spec fn user_apps(data_home: Option<String>, home: Option<String>) -> Seq<Seq<char>> {
    if is_absolute_set(data_home) {
        seq![strip_trailing(data_home->0@, '/') + "/applications"@]
    } else if is_set(home) {
        seq![strip_trailing(home->0@, '/') + "/.local/share/applications"@]
    } else {
        Seq::empty()
    }
}

/// The system application directories: those of `XDG_DATA_DIRS`, or the
/// usual two when it is not set.
pub open spec fn system_apps(data_dirs: Option<String>) -> Seq<Seq<char>> {
    if is_set(data_dirs) {
        data_dirs_apps(spec_split(data_dirs->0@, ':'))
    } else {
        seq!["/usr/local/share/applications"@, "/usr/share/applications"@]
    }
}

/// `s` with every element that occurred earlier left out.
pub open spec fn dedup(s: Seq<Seq<char>>) -> Seq<Seq<char>>
    decreases s.len(),
{
    if s.len() == 0 {
        Seq::empty()
    } else {
        let d = dedup(s.drop_last());
        if d.contains(s.last()) { d } else { d.push(s.last()) }
    }
}

fn is_set_exec(v: &Option<String>) -> (r: bool)
    ensures
        r == is_set(*v),
{
    match v {
        Some(s) => trim(&chars_of(s.as_str())).len() > 0,
        None => false,
    }
}

pub(crate) fn data_dirs_apps_exec(parts: &Vec<Vec<char>>) -> (r: Vec<Vec<char>>)
    ensures
        char_views(r@) == data_dirs_apps(char_views(parts@)),
{
    let mut out: Vec<Vec<char>> = Vec::new();
    let mut i: usize = 0;
    while i < parts.len()
        invariant
            i <= parts.len(),
            char_views(out@) == data_dirs_apps(char_views(parts@).take(i as int)),
        decreases parts.len() - i,
    {
        let ghost pre = char_views(parts@).take(i + 1);
        assert(pre.drop_last() =~= char_views(parts@).take(i as int));
        assert(pre.last() == parts@[i as int]@);
        let e = trim(&parts[i]);
        if starts_with(&e, &chars_of("/")) {
            let d = if ends_with(&e, &chars_of("/applications")) {
                e
            } else {
                concat(&strip_trailing_chars(&e, '/'), &chars_of("/applications"))
            };
            let ghost before = char_views(out@);
            out.push(d);
            assert(char_views(out@) =~= before.push(d@));
        }
        i = i + 1;
    }
    assert(char_views(parts@).take(parts.len() as int) =~= char_views(parts@));
    out
}

/// The directories that hold desktop entries, per the XDG base directory
/// rules, from the values of `XDG_DATA_HOME`, `HOME` and `XDG_DATA_DIRS`:
/// the user's directory first, then the system ones, each once.
#[verifier::spinoff_prover]
#[verifier::rlimit(40)]
pub fn get_application_dirs(
    data_home: Option<String>,
    home: Option<String>,
    data_dirs: Option<String>,
) -> (r: Vec<String>)
    ensures
        string_views(r@) == dedup(user_apps(data_home, home) + system_apps(data_dirs)),
{
    let mut cands: Vec<Vec<char>> = Vec::new();
    let absolute_home = match &data_home {
        Some(d) => is_set_exec(&data_home) && starts_with(&chars_of(d.as_str()), &chars_of("/")),
        None => false,
    };
    if absolute_home {
        let d = data_home.unwrap();
        cands.push(concat(&strip_trailing_chars(&chars_of(d.as_str()), '/'), &chars_of("/applications")));
    } else if is_set_exec(&home) {
        let h = home.unwrap();
        cands.push(concat(&strip_trailing_chars(&chars_of(h.as_str()), '/'), &chars_of("/.local/share/applications")));
    }
    let ghost user = char_views(cands@);
    assert(user =~= user_apps(data_home, home));
    let sys = if is_set_exec(&data_dirs) {
        let dd = data_dirs.unwrap();
        data_dirs_apps_exec(&split_chars(&chars_of(dd.as_str()), ':'))
    } else {
        let mut v: Vec<Vec<char>> = Vec::new();
        v.push(chars_of("/usr/local/share/applications"));
        v.push(chars_of("/usr/share/applications"));
        v
    };
    assert(char_views(sys@) =~= system_apps(data_dirs));
    let mut j: usize = 0;
    while j < sys.len()
        invariant
            j <= sys.len(),
            char_views(cands@) == user + char_views(sys@).take(j as int),
        decreases sys.len() - j,
    {
        let ghost before = char_views(cands@);
        cands.push(sys[j].clone());
        assert(char_views(cands@) =~= before.push(sys@[j as int]@));
        assert(char_views(sys@).take(j + 1) =~= char_views(sys@).take(j as int).push(sys@[j as int]@));
        j = j + 1;
    }
    assert(char_views(sys@).take(sys.len() as int) =~= char_views(sys@));
    let mut out: Vec<Vec<char>> = Vec::new();
    let mut i: usize = 0;
    while i < cands.len()
        invariant
            i <= cands.len(),
            char_views(out@) == dedup(char_views(cands@).take(i as int)),
        decreases cands.len() - i,
    {
        let ghost pre = char_views(cands@).take(i + 1);
        assert(pre.drop_last() =~= char_views(cands@).take(i as int));
        assert(pre.last() == cands@[i as int]@);
        if !list_contains(&out, &cands[i]) {
            let ghost before = char_views(out@);
            out.push(cands[i].clone());
            assert(char_views(out@) =~= before.push(cands@[i as int]@));
        }
        i = i + 1;
    }
    assert(char_views(cands@).take(cands.len() as int) =~= char_views(cands@));
    strings_of(&out, 0)
}

/// The directory list names each directory once, and every candidate
/// directory appears in it.
pub proof fn law_dedup_lists_each_once(s: Seq<Seq<char>>)
    ensures
        forall|i: int, j: int| 0 <= i < j < dedup(s).len() ==> dedup(s)[i] != dedup(s)[j],
        forall|k: int| 0 <= k < s.len() ==> dedup(s).contains(#[trigger] s[k]),
        forall|x: Seq<char>| dedup(s).contains(x) ==> s.contains(x),
    decreases s.len(),
{
    if s.len() > 0 {
        let init = s.drop_last();
        law_dedup_lists_each_once(init);
        let d = dedup(init);
        assert forall|k: int| 0 <= k < s.len() implies dedup(s).contains(#[trigger] s[k]) by {
            if k < s.len() - 1 {
                assert(s[k] == init[k]);
                assert(d.contains(init[k]));
                if !d.contains(s.last()) {
                    let m = choose|m: int| 0 <= m < d.len() && d[m] == init[k];
                    assert(dedup(s)[m] == init[k]);
                }
            } else {
                if !d.contains(s.last()) {
                    assert(dedup(s)[d.len() as int] == s.last());
                }
            }
        }
        assert forall|x: Seq<char>| dedup(s).contains(x) implies s.contains(x) by {
            let m = choose|m: int| 0 <= m < dedup(s).len() && dedup(s)[m] == x;
            if m < d.len() {
                assert(d[m] == x);
                assert(d.contains(x));
                assert(init.contains(x));
                let q = choose|q: int| 0 <= q < init.len() && init[q] == x;
                assert(s[q] == x);
            } else {
                assert(x == s.last());
                assert(s[s.len() - 1] == x);
            }
        }
    }
}

} // verus!
