//! System tray logic: D-Bus menu layouts, icon name candidates, and the
//! meaning of clicks on tray widgets.

use vstd::prelude::*;
use crate::json::Json;
use crate::number::{
    all_digits, decimal, law_decimal_parses_back, lemma_decimal_digits, parse_i32, parse_usize, signed_decimal,
    spec_decimal, spec_parse_int, spec_parse_nat, spec_signed_decimal,
};
use crate::text::{
    chars_eq, chars_of, concat, contains, lowercase_chars, occurs_at, slice, spec_ends_with,
    spec_occurs_at, spec_starts_with, spec_to_lowercase, spec_trim, starts_with, str_is, string_of,
    trim, char_views, list_contains, spec_split, split_chars, lemma_split_nonempty,
};

verus! {

broadcast use vstd::seq_lib::group_seq_properties;

/// One entry of a D-Bus menu, flattened, with its nesting depth.
#[derive(Debug, Clone)]
pub struct DBusMenuItem {
    pub id: i32,
    pub label: String,
    pub is_separator: bool,
    pub enabled: bool,
    pub is_submenu: bool,
    pub toggle_type: Option<String>,
    pub toggle_state: Option<i32>,
    pub indent_level: usize,
}

/// Step one of label cleaning: each `__`, read left to right, becomes NUL.
pub open spec fn mark_double_underscores(s: Seq<char>) -> Seq<char>
    decreases s.len(),
{
    if s.len() == 0 {
        s
    } else if s.len() >= 2 && s[0] == '_' && s[1] == '_' {
        seq!['\0'] + mark_double_underscores(s.subrange(2, s.len() as int))
    } else {
        seq![s[0]] + mark_double_underscores(s.subrange(1, s.len() as int))
    }
}

/// Step two: every remaining `_` (a mnemonic marker) is dropped.
pub open spec fn drop_underscores(s: Seq<char>) -> Seq<char>
    decreases s.len(),
{
    if s.len() == 0 {
        s
    } else if s[0] == '_' {
        drop_underscores(s.subrange(1, s.len() as int))
    } else {
        seq![s[0]] + drop_underscores(s.subrange(1, s.len() as int))
    }
}

/// Step three: every NUL becomes a literal `_`.
pub open spec fn nul_to_underscore(s: Seq<char>) -> Seq<char> {
    s.map_values(|c: char| if c == '\0' { '_' } else { c })
}

/// A D-Bus menu label with mnemonic underscores removed and `__` kept as `_`.
pub open spec fn spec_clean_label(s: Seq<char>) -> Seq<char> {
    nul_to_underscore(drop_underscores(mark_double_underscores(s)))
}

/// Removes mnemonic underscores from a D-Bus menu label; a doubled
/// underscore stands for a literal one.
pub fn clean_label(label: &str) -> (r: String)
    ensures
        r@ == spec_clean_label(label@),
{
    let s = chars_of(label);
    let n = s.len();
    // step one
    let mut a: Vec<char> = Vec::new();
    let mut i: usize = 0;
    assert(s@.subrange(0, n as int) == s@);
    while i < n
        invariant
            n == s@.len(),
            i <= n,
            mark_double_underscores(s@) == a@ + mark_double_underscores(s@.subrange(i as int, n as int)),
        decreases n - i,
    {
        let ghost rest = s@.subrange(i as int, n as int);
        let ghost a0 = a@;
        if i + 1 < n && s[i] == '_' && s[i + 1] == '_' {
            assert(rest.subrange(2, rest.len() as int) == s@.subrange(i + 2, n as int));
            assert(mark_double_underscores(rest) == seq!['\0'] + mark_double_underscores(s@.subrange(i + 2, n as int)));
            a.push('\0');
            assert(a0 + (seq!['\0'] + mark_double_underscores(s@.subrange(i + 2, n as int))) =~= a@ + mark_double_underscores(s@.subrange(i + 2, n as int)));
            i = i + 2;
        } else {
            assert(rest.subrange(1, rest.len() as int) == s@.subrange(i + 1, n as int));
            assert(mark_double_underscores(rest) == seq![s@[i as int]] + mark_double_underscores(s@.subrange(i + 1, n as int)));
            a.push(s[i]);
            assert(a0 + (seq![s@[i as int]] + mark_double_underscores(s@.subrange(i + 1, n as int))) =~= a@ + mark_double_underscores(s@.subrange(i + 1, n as int)));
            i = i + 1;
        }
    }
    assert(a@ + mark_double_underscores(s@.subrange(n as int, n as int)) == a@);
    // steps two and three
    let m = a.len();
    let mut b: Vec<char> = Vec::new();
    let mut j: usize = 0;
    assert(a@.subrange(0, m as int) == a@);
    while j < m
        invariant
            m == a@.len(),
            j <= m,
            drop_underscores(a@) == b@ + drop_underscores(a@.subrange(j as int, m as int)),
        decreases m - j,
    {
        let ghost rest = a@.subrange(j as int, m as int);
        let ghost b0 = b@;
        assert(rest.subrange(1, rest.len() as int) == a@.subrange(j + 1, m as int));
        if a[j] != '_' {
            assert(drop_underscores(rest) == seq![a@[j as int]] + drop_underscores(a@.subrange(j + 1, m as int)));
            b.push(a[j]);
            assert(b0 + (seq![a@[j as int]] + drop_underscores(a@.subrange(j + 1, m as int))) =~= b@ + drop_underscores(a@.subrange(j + 1, m as int)));
        }
        j = j + 1;
    }
    assert(b@ + drop_underscores(a@.subrange(m as int, m as int)) == b@);
    let mut c: Vec<char> = Vec::new();
    let mut k: usize = 0;
    while k < b.len()
        invariant
            k <= b@.len(),
            c@ == nul_to_underscore(b@.subrange(0, k as int)),
        decreases b@.len() - k,
    {
        let ch = if b[k] == '\0' { '_' } else { b[k] };
        c.push(ch);
        assert(nul_to_underscore(b@.subrange(0, k + 1)) == nul_to_underscore(b@.subrange(0, k as int)).push(ch));
        k = k + 1;
    }
    assert(b@.subrange(0, b@.len() as int) == b@);
    string_of(&c)
}

/// The depth one level below `n`, held at the top of the range.
pub open spec fn deeper(n: usize) -> usize {
    if n == usize::MAX { n } else { (n + 1) as usize }
}

/// What the properties object of a menu node says, as text, with `default` when absent.
pub open spec fn prop_str(props: Option<Json>, key: Seq<char>) -> Option<Seq<char>> {
    match props {
        Some(p) => match p.spec_get(key) {
            Some(v) => v.spec_as_str(),
            None => None,
        },
        None => None,
    }
}

pub open spec fn prop_bool(props: Option<Json>, key: Seq<char>) -> Option<bool> {
    match props {
        Some(p) => match p.spec_get(key) {
            Some(v) => v.spec_as_bool(),
            None => None,
        },
        None => None,
    }
}

pub open spec fn prop_i64(props: Option<Json>, key: Seq<char>) -> Option<i64> {
    match props {
        Some(p) => match p.spec_get(key) {
            Some(v) => v.spec_as_i64(),
            None => None,
        },
        None => None,
    }
}

/// The properties of a node `(id, props, children)`: the second element when it is an object.
pub open spec fn node_props(node: Seq<Json>) -> Option<Json> {
    if node.len() > 1 && node[1] is Object { Some(node[1]) } else { None }
}

/// The children of a node, when its third element is an array.
pub open spec fn node_children(node: Seq<Json>) -> Option<Seq<Json>> {
    if node.len() > 2 { node[2].spec_as_array() } else { None }
}

/// Whether a node is shown; hidden nodes are skipped with their children.
pub open spec fn node_visible(node: Seq<Json>) -> bool {
    match prop_bool(node_props(node), "visible"@) {
        Some(b) => b,
        None => true,
    }
}

/// A menu entry as plain values.
pub struct MenuItemView {
    pub id: i32,
    pub label: Seq<char>,
    pub is_separator: bool,
    pub enabled: bool,
    pub is_submenu: bool,
    pub toggle_type: Option<Seq<char>>,
    pub toggle_state: Option<i32>,
    pub indent_level: usize,
}

impl DBusMenuItem {
    pub open spec fn view(self) -> MenuItemView {
        MenuItemView {
            id: self.id,
            label: self.label@,
            is_separator: self.is_separator,
            enabled: self.enabled,
            is_submenu: self.is_submenu,
            toggle_type: match self.toggle_type {
                Some(t) => Some(t@),
                None => None,
            },
            toggle_state: self.toggle_state,
            indent_level: self.indent_level,
        }
    }
}

/// The flat item for a visible node `(id, props, children)` at the given depth.
pub open spec fn node_item(node: Seq<Json>, indent: usize) -> MenuItemView {
    let props = node_props(node);
    MenuItemView {
        id: if node.len() > 0 && node[0].spec_as_i64() is Some {
            node[0].spec_as_i64()->0 as i32
        } else {
            0i32
        },
        label: match prop_str(props, "label"@) {
            Some(l) => spec_clean_label(l),
            None => Seq::<char>::empty(),
        },
        is_separator: prop_str(props, "type"@) == Some("separator"@),
        enabled: match prop_bool(props, "enabled"@) {
            Some(b) => b,
            None => true,
        },
        is_submenu: (node_children(node) matches Some(c) && c.len() > 0)
            || prop_str(props, "children-display"@) == Some("submenu"@),
        toggle_type: prop_str(props, "toggle-type"@),
        toggle_state: match prop_i64(props, "toggle-state"@) {
            Some(v) => Some(v as i32),
            None => None,
        },
        indent_level: indent,
    }
}

/// The visible nodes of `list`, flattened depth first with their depth;
/// entries that are not arrays are skipped, hidden nodes with their children.
pub open spec fn menu_items(list: Seq<Json>, indent: usize) -> Seq<MenuItemView>
    decreases list,
{
    if list.len() == 0 {
        Seq::empty()
    } else {
        let rest = list.subrange(1, list.len() as int);
        let head = match list[0] {
            Json::Array(node) => if node_visible(node@) {
                let nested = if node@.len() > 2 {
                    match node@[2] {
                        Json::Array(c) => {
                            proof {
                                assert(decreases_to!(list => list[0]));
                                assert(decreases_to!(list[0] => node));
                                assert(decreases_to!(node => node@));
                                assert(decreases_to!(node@ => node@[2]));
                                assert(decreases_to!(node@[2] => c));
                                assert(decreases_to!(c => c@));
                            }
                            menu_items(c@, deeper(indent))
                        },
                        _ => Seq::empty(),
                    }
                } else {
                    Seq::empty()
                };
                seq![node_item(node@, indent)] + nested
            } else {
                Seq::empty()
            },
            _ => Seq::empty(),
        };
        head + menu_items(rest, indent)
    }
}

/// The views of a sequence of menu entries.
pub open spec fn views(s: Seq<DBusMenuItem>) -> Seq<MenuItemView> {
    s.map_values(|m: DBusMenuItem| m.view())
}

pub open spec fn deref_opt(o: Option<&Json>) -> Option<Json> {
    match o {
        Some(p) => Some(*p),
        None => None,
    }
}

fn get_prop_str<'a>(props: Option<&'a Json>, key: &str) -> (r: Option<&'a String>)
    ensures
        r matches Some(v) ==> prop_str(deref_opt(props), key@) == Some(v@),
        r is None ==> prop_str(deref_opt(props), key@) is None,
{
    match props {
        Some(p) => match p.get(key) {
            Some(v) => v.as_str(),
            None => None,
        },
        None => None,
    }
}

fn get_prop_bool(props: Option<&Json>, key: &str) -> (r: Option<bool>)
    ensures
        r == prop_bool(deref_opt(props), key@),
{
    match props {
        Some(p) => match p.get(key) {
            Some(v) => v.as_bool(),
            None => None,
        },
        None => None,
    }
}

fn get_prop_i64(props: Option<&Json>, key: &str) -> (r: Option<i64>)
    ensures
        r == prop_i64(deref_opt(props), key@),
{
    match props {
        Some(p) => match p.get(key) {
            Some(v) => v.as_i64(),
            None => None,
        },
        None => None,
    }
}

fn node_is_visible(node: &Vec<Json>) -> (r: bool)
    ensures
        r == node_visible(node@),
{
    let props = if node.len() > 1 && matches!(node[1], Json::Object(_)) { Some(&node[1]) } else { None };
    assert(deref_opt(props) == node_props(node@));
    match get_prop_bool(props, "visible") {
        Some(b) => b,
        None => true,
    }
}

fn node_to_item(node: &Vec<Json>, indent: usize) -> (r: DBusMenuItem)
    ensures
        r.view() == node_item(node@, indent),
{
    let props = if node.len() > 1 && matches!(node[1], Json::Object(_)) { Some(&node[1]) } else { None };
    assert(deref_opt(props) == node_props(node@));
    let id: i32 = if node.len() > 0 {
        match node[0].as_i64() {
            Some(v) => v as i32,
            None => 0,
        }
    } else {
        0
    };
    let label = match get_prop_str(props, "label") {
        Some(l) => clean_label(l.as_str()),
        None => String::new(),
    };
    let is_separator = match get_prop_str(props, "type") {
        Some(t) => str_is(t.as_str(), "separator"),
        None => false,
    };
    let enabled = match get_prop_bool(props, "enabled") {
        Some(b) => b,
        None => true,
    };
    let toggle_type = match get_prop_str(props, "toggle-type") {
        Some(t) => Some(t.clone()),
        None => None,
    };
    let toggle_state = match get_prop_i64(props, "toggle-state") {
        Some(v) => Some(v as i32),
        None => None,
    };
    let has_children = if node.len() > 2 {
        match node[2].as_array() {
            Some(c) => c.len() > 0,
            None => false,
        }
    } else {
        false
    };
    let shows_submenu = match get_prop_str(props, "children-display") {
        Some(d) => str_is(d.as_str(), "submenu"),
        None => false,
    };
    DBusMenuItem {
        id,
        label,
        is_separator,
        enabled,
        is_submenu: has_children || shows_submenu,
        toggle_type,
        toggle_state,
        indent_level: indent,
    }
}

/// Appends the flattened visible nodes of `child_list` at depth `indent_level`.
pub fn parse_dbus_children_recursive(
    child_list: &Vec<Json>,
    indent_level: usize,
    items: &mut Vec<DBusMenuItem>,
)
    ensures
        views(final(items)@) == views(old(items)@) + menu_items(child_list@, indent_level),
    decreases child_list@,
{
    let n = child_list.len();
    let ghost list = child_list@;
    let mut i: usize = 0;
    assert(list.subrange(0, n as int) == list);
    while i < n
        invariant
            n == list.len(),
            list == child_list@,
            i <= n,
            views(old(items)@) + menu_items(list, indent_level) == views(items@) + menu_items(
                list.subrange(i as int, n as int),
                indent_level,
            ),
        decreases n - i,
    {
        let ghost before = items@;
        let ghost sub = list.subrange(i as int, n as int);
        assert(sub.subrange(1, sub.len() as int) == list.subrange(i + 1, n as int));
        assert(sub[0] == list[i as int]);
        match &child_list[i] {
            Json::Array(node) => {
                if node_is_visible(node) {
                    let it = node_to_item(node, indent_level);
                    items.push(it);
                    assert(views(items@) =~= views(before).push(it.view()));
                    if node.len() > 2 {
                        match &node[2] {
                            Json::Array(c) => {
                                proof {
                                    assert(decreases_to!(child_list@ => child_list@[i as int]));
                                    assert(decreases_to!(child_list@[i as int] => *node));
                                    assert(decreases_to!(*node => node@));
                                    assert(decreases_to!(node@ => node@[2]));
                                    assert(decreases_to!(node@[2] => *c));
                                    assert(decreases_to!(*c => c@));
                                }
                                if c.len() > 0 {
                                    parse_dbus_children_recursive(c, deeper_exec(indent_level), items);
                                }
                                assert(views(items@) =~= views(before) + (seq![node_item(node@, indent_level)] + menu_items(c@, deeper(indent_level))));
                            },
                            _ => {
                                assert(views(items@) =~= views(before) + (seq![node_item(node@, indent_level)] + Seq::<MenuItemView>::empty()));
                            },
                        }
                    } else {
                        assert(views(items@) =~= views(before) + (seq![node_item(node@, indent_level)] + Seq::<MenuItemView>::empty()));
                    }
                } else {
                    assert(views(items@) =~= views(before) + Seq::<MenuItemView>::empty());
                }
            },
            _ => {
                assert(views(items@) =~= views(before) + Seq::<MenuItemView>::empty());
            },
        }
        proof {
            let hd = menu_items(sub, indent_level);
            let tl = menu_items(list.subrange(i + 1, n as int), indent_level);
            assert(views(items@) + tl =~= views(before) + hd);
        }
        i = i + 1;
    }
    assert(menu_items(list.subrange(n as int, n as int), indent_level) == Seq::<MenuItemView>::empty());
}

fn deeper_exec(n: usize) -> (r: usize)
    ensures
        r == deeper(n),
{
    if n == usize::MAX { n } else { n + 1 }
}

/// The flattened entries of a `GetLayout` reply: either `[revision, (id,
/// props, children)]` or the `(id, props, children)` node itself.
pub open spec fn spec_menu_layout_items(layout: Json) -> Seq<MenuItemView> {
    match layout {
        Json::Array(arr) => {
            let root = if arr@.len() == 2 && arr@[1] is Array { arr@[1]->Array_0@ } else { arr@ };
            if root.len() > 2 && root[2] is Array {
                menu_items(root[2]->Array_0@, 0)
            } else {
                Seq::empty()
            }
        },
        _ => Seq::empty(),
    }
}

/// Flattens a D-Bus `GetLayout` reply into menu entries.
pub fn parse_dbus_menu_items(layout: &Json) -> (r: Vec<DBusMenuItem>)
    ensures
        views(r@) == spec_menu_layout_items(*layout),
{
    let mut items: Vec<DBusMenuItem> = Vec::new();
    match layout {
        Json::Array(arr) => {
            let root: &Vec<Json> = if arr.len() == 2 && matches!(arr[1], Json::Array(_)) {
                match &arr[1] {
                    Json::Array(inner) => inner,
                    _ => arr,
                }
            } else {
                arr
            };
            if root.len() > 2 {
                match &root[2] {
                    Json::Array(children) => {
                        parse_dbus_children_recursive(children, 0, &mut items);
                        assert(views(Seq::<DBusMenuItem>::empty()) == Seq::<MenuItemView>::empty());
                    },
                    _ => {},
                }
            }
        },
        _ => {},
    }
    items
}

/// The icon name that stands for a tray item category.
pub open spec fn spec_category_icon_name(category: Seq<char>) -> Seq<char> {
    if category == "Communications"@ {
        "applications-chat"@
    } else if category == "SystemServices"@ {
        "applications-system"@
    } else if category == "Hardware"@ {
        "preferences-desktop-peripherals"@
    } else if category == "ApplicationStatus"@ {
        "applications-other"@
    } else {
        "application-x-executable"@
    }
}

/// The icon name that stands for a tray item category.
pub fn get_category_icon_name(category: &str) -> (r: &'static str)
    ensures
        r@ == spec_category_icon_name(category@),
{
    if str_is(category, "Communications") {
        "applications-chat"
    } else if str_is(category, "SystemServices") {
        "applications-system"
    } else if str_is(category, "Hardware") {
        "preferences-desktop-peripherals"
    } else if str_is(category, "ApplicationStatus") {
        "applications-other"
    } else {
        "application-x-executable"
    }
}

/// The first position at or after `from` where `p` occurs in `s`.
pub open spec fn spec_find_from(s: Seq<char>, p: Seq<char>, from: int) -> Option<int>
    decreases s.len() + 1 - from,
{
    if from < 0 || from + p.len() > s.len() {
        None
    } else if spec_occurs_at(s, p, from) {
        Some(from)
    } else {
        spec_find_from(s, p, from + 1)
    }
}

/// The text after the last `c` in `s`, or all of `s` when `c` does not occur.
pub open spec fn spec_after_last(s: Seq<char>, c: char) -> Seq<char>
    decreases s.len(),
{
    if s.len() == 0 {
        s
    } else if s.last() == c {
        Seq::empty()
    } else {
        spec_after_last(s.drop_last(), c).push(s.last())
    }
}

/// The names tried for an explicit icon name: itself, then its form with or
/// without the `-symbolic` suffix.
pub open spec fn icon_name_variants(icon: Seq<char>) -> Seq<Seq<char>> {
    if icon.len() == 0 {
        Seq::empty()
    } else if spec_ends_with(icon, "-symbolic"@) {
        seq![icon, icon.subrange(0, icon.len() - "-symbolic"@.len())]
    } else {
        seq![icon, icon + "-symbolic"@]
    }
}

/// The names tried for an item id: itself and lower-cased, the part before
/// `_status_icon`, and the part after the last dot.
pub open spec fn item_id_variants(id: Seq<char>) -> Seq<Seq<char>> {
    if id.len() == 0 {
        Seq::empty()
    } else {
        let status = match spec_find_from(id, "_status_icon"@, 0) {
            Some(k) => seq![id.subrange(0, k), spec_to_lowercase(id.subrange(0, k))],
            None => Seq::empty(),
        };
        let dotted = if id.contains('.') {
            let last = spec_after_last(id, '.');
            seq![last, spec_to_lowercase(last)]
        } else {
            Seq::empty()
        };
        seq![id, spec_to_lowercase(id)] + status + dotted
    }
}

/// A non-empty text and its lower-cased form.
pub open spec fn text_variants(t: Seq<char>) -> Seq<Seq<char>> {
    if t.len() == 0 { Seq::empty() } else { seq![t, spec_to_lowercase(t)] }
}

/// All names tried, in order, before deduplication.
pub open spec fn raw_icon_names(icon: Seq<char>, id: Seq<char>, title: Seq<char>, tooltip: Seq<char>) -> Seq<Seq<char>> {
    icon_name_variants(icon) + item_id_variants(id) + text_variants(tooltip) + text_variants(title)
}

/// `cands` with the trimmed `name` appended, unless it is empty, starts with
/// `:` or is already there.
pub open spec fn add_candidate(cands: Seq<Seq<char>>, name: Seq<char>) -> Seq<Seq<char>> {
    let t = spec_trim(name);
    if t.len() > 0 && !spec_starts_with(t, seq![':']) && !cands.contains(t) {
        cands.push(t)
    } else {
        cands
    }
}

/// Adds each of `names`, in order.
pub open spec fn add_candidates(cands: Seq<Seq<char>>, names: Seq<Seq<char>>) -> Seq<Seq<char>>
    decreases names.len(),
{
    if names.len() == 0 {
        cands
    } else {
        add_candidates(add_candidate(cands, names[0]), names.subrange(1, names.len() as int))
    }
}

/// The icon names to look up for a tray item, most specific first, without repeats.
pub open spec fn spec_icon_candidates(icon: Seq<char>, id: Seq<char>, title: Seq<char>, tooltip: Seq<char>) -> Seq<Seq<char>> {
    add_candidates(Seq::empty(), raw_icon_names(icon, id, title, tooltip))
}

/// The first position where `p` occurs in `s`.
pub fn find(s: &Vec<char>, p: &Vec<char>) -> (r: Option<usize>)
    ensures
        match r {
            Some(k) => spec_find_from(s@, p@, 0) == Some(k as int) && k + p@.len() <= s@.len(),
            None => spec_find_from(s@, p@, 0) is None,
        },
{
    if p.len() > s.len() {
        return None;
    }
    let last = s.len() - p.len();
    let mut i: usize = 0;
    loop
        invariant
            last + p.len() == s.len(),
            i <= last,
            spec_find_from(s@, p@, 0) == spec_find_from(s@, p@, i as int),
        decreases last - i,
    {
        if occurs_at(s, p, i) {
            return Some(i);
        }
        if i == last {
            assert(spec_find_from(s@, p@, i + 1) is None);
            return None;
        }
        i = i + 1;
    }
}

proof fn lemma_after_last_step(s: Seq<char>, k: int, c: char)
    requires
        0 < k <= s.len(),
        s[k - 1] != c,
    ensures
        spec_after_last(s.subrange(0, k), c) + s.subrange(k, s.len() as int)
            == spec_after_last(s.subrange(0, k - 1), c) + s.subrange(k - 1, s.len() as int),
{
    let pre = s.subrange(0, k);
    assert(pre.drop_last() == s.subrange(0, k - 1));
    assert(pre.last() == s[k - 1]);
    assert(spec_after_last(pre, c) == spec_after_last(s.subrange(0, k - 1), c).push(s[k - 1]));
    assert(spec_after_last(s.subrange(0, k - 1), c).push(s[k - 1]) + s.subrange(k, s.len() as int)
        =~= spec_after_last(s.subrange(0, k - 1), c) + s.subrange(k - 1, s.len() as int));
}

pub(crate) fn after_last(s: &Vec<char>, c: char) -> (r: Vec<char>)
    ensures
        r@ == spec_after_last(s@, c),
{
    let mut k: usize = s.len();
    proof {
        assert(s@.subrange(0, s.len() as int) == s@);
        assert(s@ + s@.subrange(s.len() as int, s.len() as int) =~= s@);
    }
    while k > 0 && s[k - 1] != c
        invariant
            k <= s.len(),
            spec_after_last(s@, c) == spec_after_last(s@.subrange(0, k as int), c) + s@.subrange(k as int, s.len() as int),
        decreases k,
    {
        proof {
            lemma_after_last_step(s@, k as int, c);
        }
        k = k - 1;
    }
    proof {
        let pre = s@.subrange(0, k as int);
        if k > 0 {
            assert(pre.last() == c);
        }
        assert(spec_after_last(pre, c) == Seq::<char>::empty());
        assert(Seq::<char>::empty() + s@.subrange(k as int, s.len() as int) =~= s@.subrange(k as int, s.len() as int));
    }
    slice(s, k, s.len())
}

fn contains_char(s: &Vec<char>, c: char) -> (r: bool)
    ensures
        r == s@.contains(c),
{
    let mut i: usize = 0;
    while i < s.len()
        invariant
            i <= s.len(),
            forall|j: int| 0 <= j < i ==> s@[j] != c,
        decreases s.len() - i,
    {
        if s[i] == c {
            return true;
        }
        i = i + 1;
    }
    false
}


fn push_candidate(cands: &mut Vec<Vec<char>>, name: &Vec<char>)
    ensures
        char_views(final(cands)@) == add_candidate(char_views(old(cands)@), name@),
{
    let t = trim(name);
    let colon: Vec<char> = vec![':'];
    assert(colon@ == seq![':']);
    if t.len() > 0 && !starts_with(&t, &colon) && !list_contains(cands, &t) {
        cands.push(t);
        assert(char_views(cands@) =~= char_views(old(cands)@).push(t@));
    }
}

fn push_text_variants(names: &mut Vec<Vec<char>>, t: &Vec<char>)
    ensures
        char_views(final(names)@) == char_views(old(names)@) + text_variants(t@),
{
    if t.len() > 0 {
        names.push(t.clone());
        names.push(lowercase_chars(t));
    }
    assert(char_views(names@) =~= char_views(old(names)@) + text_variants(t@));
}

/// The icon names to look up for a tray item, most specific first, without repeats.
pub fn get_icon_candidates(icon_name: &str, item_id: &str, title: &str, tooltip_title: &str) -> (r: Vec<String>)
    ensures
        r@.map_values(|s: String| s@) == spec_icon_candidates(icon_name@, item_id@, title@, tooltip_title@),
{
    let icon = chars_of(icon_name);
    let id = chars_of(item_id);
    let ttl = chars_of(title);
    let tip = chars_of(tooltip_title);
    let mut names: Vec<Vec<char>> = Vec::new();
    // explicit icon name and its symbolic twin
    if icon.len() > 0 {
        names.push(icon.clone());
        let suffix = chars_of("-symbolic");
        if crate::text::ends_with(&icon, &suffix) {
            names.push(slice(&icon, 0, icon.len() - suffix.len()));
        } else {
            names.push(concat(&icon, &suffix));
        }
    }
    assert(char_views(names@) =~= icon_name_variants(icon@));
    let ghost after_icon = char_views(names@);
    // item id, its status-icon prefix and its last dotted part
    if id.len() > 0 {
        names.push(id.clone());
        names.push(lowercase_chars(&id));
        let marker = chars_of("_status_icon");
        match find(&id, &marker) {
            Some(k) => {
                let prefix = slice(&id, 0, k);
                names.push(lowercase_chars(&prefix));
                names.insert(names.len() - 1, prefix);
            },
            None => {},
        }
        if contains_char(&id, '.') {
            let last = after_last(&id, '.');
            names.push(last.clone());
            names.push(lowercase_chars(&last));
        }
    }
    assert(char_views(names@) =~= after_icon + item_id_variants(id@));
    push_text_variants(&mut names, &tip);
    push_text_variants(&mut names, &ttl);
    assert(char_views(names@) =~= raw_icon_names(icon@, id@, ttl@, tip@));
    // deduplicate in order
    let ghost all = char_views(names@);
    let mut cands: Vec<Vec<char>> = Vec::new();
    let mut i: usize = 0;
    assert(all.subrange(0, all.len() as int) == all);
    assert(char_views(cands@) =~= Seq::<Seq<char>>::empty());
    while i < names.len()
        invariant
            all == char_views(names@),
            i <= names.len(),
            add_candidates(Seq::empty(), all) == add_candidates(char_views(cands@), all.subrange(i as int, all.len() as int)),
        decreases names.len() - i,
    {
        let ghost rest = all.subrange(i as int, all.len() as int);
        assert(rest.subrange(1, rest.len() as int) == all.subrange(i + 1, all.len() as int));
        push_candidate(&mut cands, &names[i]);
        i = i + 1;
    }
    let mut r: Vec<String> = Vec::new();
    let mut j: usize = 0;
    while j < cands.len()
        invariant
            j <= cands.len(),
            r@.map_values(|s: String| s@) == char_views(cands@).take(j as int),
        decreases cands.len() - j,
    {
        let ghost prev = r@;
        let st = string_of(&cands[j]);
        r.push(st);
        assert(r@ == prev.push(st));
        assert(r@.map_values(|s: String| s@) =~= prev.map_values(|s: String| s@).push(st@));
        assert(char_views(cands@).take(j + 1) =~= char_views(cands@).take(j as int).push(cands@[j as int]@));
        j = j + 1;
    }
    assert(char_views(cands@).take(cands.len() as int) == char_views(cands@));
    r
}

/// A registered tray item.
#[derive(Debug, Clone, Default)]
pub struct TrayItemData {
    pub id: String,
    pub service: String,
    pub path: String,
    pub menu: String,
    pub title: String,
    pub image: Option<String>,
    pub item_is_menu: bool,
}

/// How a tray icon was clicked.
#[derive(Debug, Clone, Copy, PartialEq, Eq)]
pub enum TrayClickKind {
    /// Right click or context request: show the item's menu.
    Context,
    /// Middle click: secondary activation.
    Middle,
    /// Any other click: activation.
    Primary,
}

/// What an event on a tray widget asks for.
#[derive(Debug)]
pub enum TrayRequest {
    /// Send `clicked` for menu entry `id` of `menu` on `service`, then close the menu popup.
    ActivateMenuItem { service: String, menu: String, id: i32 },
    /// Close the menu popup without activating anything.
    CloseMenu,
    /// A click on the tray icon of item `index`, at screen position `(x, y)`.
    ItemClick { index: usize, kind: TrayClickKind, x: i32, y: i32 },
    /// Nothing to do.
    Ignore,
}

/// `s` with each of the characters in `from` replaced by `_`.
pub open spec fn underscored(s: Seq<char>, from: Seq<char>) -> Seq<char> {
    s.map_values(|c: char| if from.contains(c) { '_' } else { c })
}

/// The widget key of a tray item: service and object path, with `.`, `:`
/// and `/` made `_`.
pub open spec fn spec_item_key(service: Seq<char>, path: Seq<char>) -> Seq<char> {
    underscored(service, seq!['.', ':']) + seq!['_'] + underscored(path, seq!['.', '/'])
}

/// Whether a tray item answers to the widget key `key`.
pub open spec fn item_matches(item: TrayItemData, key: Seq<char>) -> bool {
    spec_item_key(item.service@, item.path@) == key || underscored(item.id@, seq!['.', ':']) == key
}

/// The parsed integer, or `dflt` when it does not parse as an `i32`.
pub open spec fn int_or(s: Seq<char>, dflt: i32) -> i32 {
    match spec_parse_int(s) {
        Some(n) => if i32::MIN <= n <= i32::MAX { n as i32 } else { dflt },
        None => dflt,
    }
}

/// The request behind `menu_item_<rest>`: `<index>_<id>` names the item, a
/// bare `<id>` uses the menu that was last opened.
pub open spec fn menu_item_request(
    rest: Seq<char>,
    items: Seq<TrayItemData>,
    menu_service: Seq<char>,
    menu_path: Seq<char>,
) -> (Seq<char>, Seq<char>, i32) {
    match spec_find_from(rest, seq!['_'], 0) {
        Some(k) => {
            let idx = spec_parse_nat(rest.subrange(0, k));
            let id = int_or(rest.subrange(k + 1, rest.len() as int), 0);
            match idx {
                Some(i) => if i < items.len() {
                    (items[i as int].service@, items[i as int].menu@, id)
                } else {
                    (menu_service, menu_path, id)
                },
                None => (menu_service, menu_path, id),
            }
        },
        None => (menu_service, menu_path, int_or(rest, 0)),
    }
}

/// The kind of a tray click from its event name.
pub open spec fn click_kind(evt: Seq<char>) -> TrayClickKind {
    if evt == "right_click"@ || evt == "context"@ {
        TrayClickKind::Context
    } else if evt == "middle_click"@ {
        TrayClickKind::Middle
    } else {
        TrayClickKind::Primary
    }
}

/// The first item that answers to `key`.
pub open spec fn first_matching(items: Seq<TrayItemData>, key: Seq<char>, from: int) -> Option<int>
    decreases items.len() - from,
{
    if from < 0 || from >= items.len() {
        None
    } else if item_matches(items[from], key) {
        Some(from)
    } else {
        first_matching(items, key, from + 1)
    }
}

/// What an event on a tray widget asks for.
pub open spec fn spec_tray_request(
    widget_id: Seq<char>,
    event: Seq<char>,
    items: Seq<TrayItemData>,
    menu_service: Seq<char>,
    menu_path: Seq<char>,
) -> (Option<(Seq<char>, Seq<char>, i32)>, Option<(int, TrayClickKind, i32, i32)>, bool) {
    if spec_starts_with(widget_id, "menu_item_"@) {
        let (s, m, id) = menu_item_request(
            widget_id.subrange("menu_item_"@.len() as int, widget_id.len() as int),
            items,
            menu_service,
            menu_path,
        );
        if id >= 0 && s.len() > 0 && m.len() > 0 { (Some((s, m, id)), None, true) } else { (None, None, true) }
    } else if spec_starts_with(widget_id, "menu_click|"@) {
        let parts = spec_split(widget_id.subrange("menu_click|"@.len() as int, widget_id.len() as int), '|');
        if parts.len() == 3 && spec_parse_int(parts[2]) is Some
            && i32::MIN <= spec_parse_int(parts[2])->0 <= i32::MAX {
            (Some((parts[0], parts[1], spec_parse_int(parts[2])->0 as i32)), None, true)
        } else {
            (None, None, true)
        }
    } else if spec_starts_with(widget_id, "tray_"@) {
        let parts = spec_split(event, ':');
        let key = widget_id.subrange("tray_"@.len() as int, widget_id.len() as int);
        let x = if parts.len() > 1 { int_or(parts[1], 0) } else { 0 };
        let y = if parts.len() > 2 { int_or(parts[2], 0) } else { 0 };
        match first_matching(items, key, 0) {
            Some(i) => (None, Some((i, click_kind(parts[0]), x, y)), false),
            None => (None, None, false),
        }
    } else {
        (None, None, false)
    }
}

/// A click on a tray icon is handled as the button it was made with: a
/// middle click as a middle click, a right click or context request as a
/// context click, and anything else as a primary click; whatever the event
/// text, the three never mix.
pub proof fn law_tray_click_kind_follows_button(
    widget_id: Seq<char>,
    event: Seq<char>,
    items: Seq<TrayItemData>,
    menu_service: Seq<char>,
    menu_path: Seq<char>,
)
    requires
        spec_starts_with(widget_id, "tray_"@),
    ensures
        ({
            let button = spec_split(event, ':')[0];
            spec_tray_request(widget_id, event, items, menu_service, menu_path).1 matches Some(c) ==> {
                &&& (c.1 == TrayClickKind::Middle <==> button == "middle_click"@)
                &&& (c.1 == TrayClickKind::Context <==> (button == "right_click"@ || button == "context"@))
                &&& (c.1 == TrayClickKind::Primary <==> !(button == "middle_click"@ || button == "right_click"@
                    || button == "context"@))
            }
        }),
{
    reveal_strlit("tray_");
    reveal_strlit("menu_item_");
    reveal_strlit("menu_click|");
    reveal_strlit("middle_click");
    reveal_strlit("right_click");
    reveal_strlit("context");
    assert(widget_id.subrange(0, 5)[0] == widget_id[0]);
    assert(!spec_starts_with(widget_id, "menu_item_"@)) by {
        if spec_starts_with(widget_id, "menu_item_"@) {
            assert(widget_id.subrange(0, 10)[0] == widget_id[0]);
        }
    }
    assert(!spec_starts_with(widget_id, "menu_click|"@)) by {
        if spec_starts_with(widget_id, "menu_click|"@) {
            assert(widget_id.subrange(0, 11)[0] == widget_id[0]);
        }
    }
    assert("middle_click"@ != "right_click"@) by { assert("middle_click"@[0] != "right_click"@[0]); }
    assert("middle_click"@ != "context"@) by { assert("middle_click"@.len() != "context"@.len()); }
}

/// The view of a request, for stating what `tray_request` returns.
pub open spec fn request_view(r: TrayRequest) -> (Option<(Seq<char>, Seq<char>, i32)>, Option<(int, TrayClickKind, i32, i32)>, bool) {
    match r {
        TrayRequest::ActivateMenuItem { service, menu, id } => (Some((service@, menu@, id)), None, true),
        TrayRequest::CloseMenu => (None, None, true),
        TrayRequest::ItemClick { index, kind, x, y } => (None, Some((index as int, kind, x, y)), false),
        TrayRequest::Ignore => (None, None, false),
    }
}

/// The menu popup's left margin for a click at `x`: twenty pixels left of
/// the pointer, kept on a 1920 pixel wide screen.
pub open spec fn spec_menu_margin_left(x: i32) -> int {
    let m = x - 20;
    if m < 16 { 16 } else if m > 1920 - 270 { 1920 - 270 } else { m }
}

pub fn menu_margin_left(x: i32) -> (r: i32)
    ensures
        r == spec_menu_margin_left(x),
{
    let m: i64 = x as i64 - 20;
    if m < 16 { 16 } else if m > 1650 { 1650 } else { m as i32 }
}

fn underscore_chars(s: &Vec<char>, a: char, b: char) -> (r: Vec<char>)
    ensures
        r@ == underscored(s@, seq![a, b]),
{
    let mut r: Vec<char> = Vec::new();
    let mut i: usize = 0;
    while i < s.len()
        invariant
            i <= s.len(),
            r@ == underscored(s@.subrange(0, i as int), seq![a, b]),
        decreases s.len() - i,
    {
        let c = s[i];
        let d = if c == a || c == b { '_' } else { c };
        assert(seq![a, b].contains(c) == (c == a || c == b)) by {
            if c == b { assert(seq![a, b][1] == b); }
            if c == a { assert(seq![a, b][0] == a); }
        }
        r.push(d);
        assert(underscored(s@.subrange(0, i + 1), seq![a, b]) =~= underscored(s@.subrange(0, i as int), seq![a, b]).push(d));
        i = i + 1;
    }
    assert(s@.subrange(0, s.len() as int) == s@);
    r
}

fn item_matches_key(item: &TrayItemData, key: &Vec<char>) -> (r: bool)
    ensures
        r == item_matches(*item, key@),
{
    let svc = underscore_chars(&chars_of(item.service.as_str()), '.', ':');
    let path = underscore_chars(&chars_of(item.path.as_str()), '.', '/');
    let us: Vec<char> = vec!['_'];
    let full = concat(&concat(&svc, &us), &path);
    assert(us@ == seq!['_']);
    if chars_eq(&full, key) {
        return true;
    }
    let id = underscore_chars(&chars_of(item.id.as_str()), '.', ':');
    chars_eq(&id, key)
}

fn int_or_exec(s: &Vec<char>, dflt: i32) -> (r: i32)
    ensures
        r == int_or(s@, dflt),
{
    match parse_i32(string_of(s).as_str()) {
        Some(n) => n,
        None => dflt,
    }
}

fn menu_item_request_exec(
    rest: &Vec<char>,
    items: &Vec<TrayItemData>,
    menu_service: &str,
    menu_path: &str,
) -> (r: (String, String, i32))
    ensures
        (r.0@, r.1@, r.2) == menu_item_request(rest@, items@, menu_service@, menu_path@),
{
    let us: Vec<char> = vec!['_'];
    assert(us@ == seq!['_']);
    assert(us@.len() == 1);
    let found = find(rest, &us);
    match found {
        Some(k) => {
            assert(spec_find_from(rest@, us@, 0) == Some(k as int));
            assert(k + us@.len() <= rest@.len());
            assert(rest@.len() == rest.len());
            assert(k + 1 <= rest.len());
            let head = string_of(&slice(rest, 0, k));
            assert(head@ == rest@.subrange(0, k as int));
            let idx = parse_usize(head.as_str());
            let tail = slice(rest, k + 1, rest.len());
            let id = int_or_exec(&tail, 0);
            assert(id == int_or(rest@.subrange(k + 1, rest@.len() as int), 0));
            assert(items@.len() == items.len());
            match idx {
                Some(i) => if i < items.len() {
                    (items[i].service.clone(), items[i].menu.clone(), id)
                } else {
                    (string_of(&chars_of(menu_service)), string_of(&chars_of(menu_path)), id)
                },
                None => (string_of(&chars_of(menu_service)), string_of(&chars_of(menu_path)), id),
            }
        },
        None => (string_of(&chars_of(menu_service)), string_of(&chars_of(menu_path)), int_or_exec(rest, 0)),
    }
}


fn click_kind_exec(evt: &Vec<char>) -> (k: TrayClickKind)
    ensures
        k == click_kind(evt@),
{
    if chars_eq(evt, &chars_of("right_click")) || chars_eq(evt, &chars_of("context")) {
        TrayClickKind::Context
    } else if chars_eq(evt, &chars_of("middle_click")) {
        TrayClickKind::Middle
    } else {
        TrayClickKind::Primary
    }
}

fn first_matching_exec(items: &Vec<TrayItemData>, key: &Vec<char>) -> (r: Option<usize>)
    ensures
        match r {
            Some(i) => first_matching(items@, key@, 0) == Some(i as int),
            None => first_matching(items@, key@, 0) is None,
        },
{
    let mut i: usize = 0;
    while i < items.len()
        invariant
            i <= items.len(),
            first_matching(items@, key@, 0) == first_matching(items@, key@, i as int),
        decreases items.len() - i,
    {
        if item_matches_key(&items[i], key) {
            return Some(i);
        }
        i = i + 1;
    }
    None
}

fn tray_click_request(key: &Vec<char>, event: &str, items: &Vec<TrayItemData>) -> (r: TrayRequest)
    ensures
        ({
            let parts = spec_split(event@, ':');
            let x = if parts.len() > 1 { int_or(parts[1], 0) } else { 0 };
            let y = if parts.len() > 2 { int_or(parts[2], 0) } else { 0 };
            request_view(r) == match first_matching(items@, key@, 0) {
                Some(i) => (None::<(Seq<char>, Seq<char>, i32)>, Some((i, click_kind(parts[0]), x, y)), false),
                None => (None, None, false),
            }
        }),
{
    let parts = split_chars(&chars_of(event), ':');
    proof {
        lemma_split_nonempty(event@, ':');
        assert(char_views(parts@)[0] == parts@[0]@);
        if parts.len() > 1 { assert(char_views(parts@)[1] == parts@[1]@); }
        if parts.len() > 2 { assert(char_views(parts@)[2] == parts@[2]@); }
    }
    let x = if parts.len() > 1 { int_or_exec(&parts[1], 0) } else { 0 };
    let y = if parts.len() > 2 { int_or_exec(&parts[2], 0) } else { 0 };
    match first_matching_exec(items, key) {
        Some(i) => TrayRequest::ItemClick { index: i, kind: click_kind_exec(&parts[0]), x, y },
        None => TrayRequest::Ignore,
    }
}

fn menu_click_request(rest: &Vec<char>) -> (r: TrayRequest)
    ensures
        ({
            let parts = spec_split(rest@, '|');
            request_view(r) == if parts.len() == 3 && spec_parse_int(parts[2]) is Some
                && i32::MIN <= spec_parse_int(parts[2])->0 <= i32::MAX {
                (Some((parts[0], parts[1], spec_parse_int(parts[2])->0 as i32)), None::<(int, TrayClickKind, i32, i32)>, true)
            } else {
                (None, None, true)
            }
        }),
{
    let parts = split_chars(rest, '|');
    if parts.len() == 3 {
        assert(char_views(parts@)[0] == parts@[0]@);
        assert(char_views(parts@)[1] == parts@[1]@);
        assert(char_views(parts@)[2] == parts@[2]@);
        match parse_i32(string_of(&parts[2]).as_str()) {
            Some(n) => TrayRequest::ActivateMenuItem {
                service: string_of(&parts[0]),
                menu: string_of(&parts[1]),
                id: n,
            },
            None => TrayRequest::CloseMenu,
        }
    } else {
        TrayRequest::CloseMenu
    }
}

/// What an event on a tray widget asks for, given the items and the menu
/// last opened.
pub fn tray_request(
    widget_id: &str,
    event: &str,
    items: &Vec<TrayItemData>,
    menu_service: &str,
    menu_path: &str,
) -> (r: TrayRequest)
    ensures
        request_view(r) == spec_tray_request(widget_id@, event@, items@, menu_service@, menu_path@),
{
    let w = chars_of(widget_id);
    let p_item = chars_of("menu_item_");
    let p_click = chars_of("menu_click|");
    let p_tray = chars_of("tray_");
    if starts_with(&w, &p_item) {
        let rest = slice(&w, p_item.len(), w.len());
        let (svc, menu, id) = menu_item_request_exec(&rest, items, menu_service, menu_path);
        if id >= 0 && chars_of(svc.as_str()).len() > 0 && chars_of(menu.as_str()).len() > 0 {
            TrayRequest::ActivateMenuItem { service: svc, menu, id }
        } else {
            TrayRequest::CloseMenu
        }
    } else if starts_with(&w, &p_click) {
        menu_click_request(&slice(&w, p_click.len(), w.len()))
    } else if starts_with(&w, &p_tray) {
        tray_click_request(&slice(&w, p_tray.len(), w.len()), event, items)
    } else {
        TrayRequest::Ignore
    }
}

/// The tray widget's state.
#[derive(Debug, Default)]
pub struct TrayModule {
    pub last_item_count: usize,
    pub items: Vec<TrayItemData>,
    pub active_menu_service: String,
    pub active_menu_path: String,
}

/// The fields by which two item lists are told apart.
pub open spec fn same_item(a: TrayItemData, b: TrayItemData) -> bool {
    a.id@ == b.id@ && a.title@ == b.title@ && image_view(a.image) == image_view(b.image) && a.service@ == b.service@
}

pub open spec fn image_view(o: Option<String>) -> Option<Seq<char>> {
    match o {
        Some(s) => Some(s@),
        None => None,
    }
}

fn same_image(a: &Option<String>, b: &Option<String>) -> (r: bool)
    ensures
        r == (image_view(*a) == image_view(*b)),
{
    match (a, b) {
        (Some(x), Some(y)) => chars_eq(&chars_of(x.as_str()), &chars_of(y.as_str())),
        (None, None) => true,
        _ => false,
    }
}

impl TrayModule {
    /// Whether a fresh read of the tray differs from what is shown: another
    /// count, or another id, title, image or service at some position.
    pub fn items_differ(&self, json_count: usize, records: &Vec<TrayItemData>) -> (r: bool)
        ensures
            r == (json_count != self.last_item_count || records@.len() != self.items@.len()
                || exists|i: int| 0 <= i < records@.len() && !same_item(#[trigger] records@[i], self.items@[i])),
    {
        if json_count != self.last_item_count || records.len() != self.items.len() {
            return true;
        }
        let mut i: usize = 0;
        while i < records.len()
            invariant
                records@.len() == self.items@.len(),
                i <= records.len(),
                forall|j: int| 0 <= j < i ==> same_item(#[trigger] records@[j], self.items@[j]),
            decreases records.len() - i,
        {
            let a = &records[i];
            let b = &self.items[i];
            let same = chars_eq(&chars_of(a.id.as_str()), &chars_of(b.id.as_str()))
                && chars_eq(&chars_of(a.title.as_str()), &chars_of(b.title.as_str()))
                && same_image(&a.image, &b.image)
                && chars_eq(&chars_of(a.service.as_str()), &chars_of(b.service.as_str()));
            if !same {
                assert(!same_item(records@[i as int], self.items@[i as int]));
                return true;
            }
            i = i + 1;
        }
        false
    }

    /// Shows a fresh read of the tray.
    pub fn accept_items(&mut self, json_count: usize, records: Vec<TrayItemData>)
        ensures
            final(self).last_item_count == json_count,
            final(self).items@ == records@,
            final(self).active_menu_service == old(self).active_menu_service,
            final(self).active_menu_path == old(self).active_menu_path,
    {
        self.last_item_count = json_count;
        self.items = records;
    }

    /// Decides what an event on a tray widget asks for.
    pub fn on_event(&self, widget_id: &str, event: &str) -> (r: TrayRequest)
        ensures
            request_view(r) == spec_tray_request(widget_id@, event@, self.items@, self.active_menu_service@, self.active_menu_path@),
    {
        tray_request(widget_id, event, &self.items, self.active_menu_service.as_str(), self.active_menu_path.as_str())
    }

    /// Remembers the menu of item `index` as the one shown.
    pub fn open_menu(&mut self, index: usize)
        requires
            index < old(self).items@.len(),
        ensures
            final(self).active_menu_service == old(self).items@[index as int].service,
            final(self).active_menu_path == old(self).items@[index as int].menu,
            final(self).items@ == old(self).items@,
            final(self).last_item_count == old(self).last_item_count,
    {
        self.active_menu_service = self.items[index].service.clone();
        self.active_menu_path = self.items[index].menu.clone();
    }
}

/// The next thing to try for a click on a tray icon.
#[derive(Debug, PartialEq, Eq)]
pub enum ClickAction {
    /// Open the item's menu.
    ShowMenu,
    /// Call `Activate` on the item.
    Activate,
    /// Call `SecondaryActivate` on the item.
    SecondaryActivate,
    /// Nothing more to try.
    Done,
}

/// What a click of kind `kind` tries at step `step` (counted from 0), given
/// whether the previous try succeeded:
/// - a context click shows the menu, and falls back to `SecondaryActivate`;
/// - a middle click calls `SecondaryActivate`, and falls back to `Activate`;
/// - a primary click on an item that is only a menu shows the menu and then
///   calls `SecondaryActivate` either way;
/// - any other primary click calls `Activate`, falls back to
///   `SecondaryActivate`, and last to the menu.
pub open spec fn spec_click_action(kind: TrayClickKind, item_is_menu: bool, step: u8, last_ok: bool) -> ClickAction {
    match kind {
        TrayClickKind::Context => if step == 0 {
            ClickAction::ShowMenu
        } else if step == 1 && !last_ok {
            ClickAction::SecondaryActivate
        } else {
            ClickAction::Done
        },
        TrayClickKind::Middle => if step == 0 {
            ClickAction::SecondaryActivate
        } else if step == 1 && !last_ok {
            ClickAction::Activate
        } else {
            ClickAction::Done
        },
        TrayClickKind::Primary => if item_is_menu {
            if step == 0 {
                ClickAction::ShowMenu
            } else if step == 1 {
                ClickAction::SecondaryActivate
            } else {
                ClickAction::Done
            }
        } else if step == 0 {
            ClickAction::Activate
        } else if step == 1 && !last_ok {
            ClickAction::SecondaryActivate
        } else if step == 2 && !last_ok {
            ClickAction::ShowMenu
        } else {
            ClickAction::Done
        },
    }
}

/// Steps through the fallbacks of a tray icon click: what to try at step
/// `step`, given whether the previous try succeeded.
pub fn click_action(kind: TrayClickKind, item_is_menu: bool, step: u8, last_ok: bool) -> (r: ClickAction)
    ensures
        r == spec_click_action(kind, item_is_menu, step, last_ok),
{
    match kind {
        TrayClickKind::Context => if step == 0 {
            ClickAction::ShowMenu
        } else if step == 1 && !last_ok {
            ClickAction::SecondaryActivate
        } else {
            ClickAction::Done
        },
        TrayClickKind::Middle => if step == 0 {
            ClickAction::SecondaryActivate
        } else if step == 1 && !last_ok {
            ClickAction::Activate
        } else {
            ClickAction::Done
        },
        TrayClickKind::Primary => if item_is_menu {
            if step == 0 {
                ClickAction::ShowMenu
            } else if step == 1 {
                ClickAction::SecondaryActivate
            } else {
                ClickAction::Done
            }
        } else if step == 0 {
            ClickAction::Activate
        } else if step == 1 && !last_ok {
            ClickAction::SecondaryActivate
        } else if step == 2 && !last_ok {
            ClickAction::ShowMenu
        } else {
            ClickAction::Done
        },
    }
}

/// A click tries at most three things: from step 3 on there is nothing left.
pub proof fn law_click_fallbacks_end(kind: TrayClickKind, item_is_menu: bool, step: u8, last_ok: bool)
    requires
        step >= 3,
    ensures
        spec_click_action(kind, item_is_menu, step, last_ok) == ClickAction::Done,
{
}

/// The bus name and object path a registered item names: before and from
/// its first `/`, or the default item path when it has none; `None` for an
/// empty entry or bus name.
pub open spec fn spec_item_address(s: Seq<char>) -> Option<(Seq<char>, Seq<char>)> {
    if s.len() == 0 {
        None
    } else {
        match spec_find_from(s, seq!['/'], 0) {
            Some(k) => if k == 0 { None } else { Some((s.subrange(0, k), s.subrange(k, s.len() as int))) },
            None => Some((s, "/StatusNotifierItem"@)),
        }
    }
}

/// Splits a registered item's address into bus name and object path.
pub fn item_address(s: &str) -> (r: Option<(String, String)>)
    ensures
        match spec_item_address(s@) {
            Some(p) => r matches Some(q) && q.0@ == p.0 && q.1@ == p.1,
            None => r is None,
        },
{
    let v = chars_of(s);
    if v.len() == 0 {
        return None;
    }
    let slash: Vec<char> = vec!['/'];
    assert(slash@ == seq!['/']);
    match find(&v, &slash) {
        Some(k) => if k == 0 {
            None
        } else {
            Some((string_of(&slice(&v, 0, k)), string_of(&slice(&v, k, v.len()))))
        },
        None => Some((s.to_string(), "/StatusNotifierItem".to_string())),
    }
}

/// What a tray item says of itself.
#[derive(Debug)]
pub struct ItemProps {
    pub item_id: String,
    pub title: String,
    pub category: String,
    pub icon_name: String,
    pub icon_theme_path: String,
    pub menu: String,
    pub item_is_menu: bool,
    pub tooltip_title: String,
    /// Whether the item answered with an id of its own.
    pub got_props: bool,
}

pub open spec fn str_member(v: Json, key: Seq<char>) -> Option<Seq<char>> {
    match v.spec_get(key) {
        Some(Json::Str(s)) => Some(s@),
        _ => None,
    }
}

pub open spec fn str_member_or(v: Json, key: Seq<char>, d: Seq<char>) -> Seq<char> {
    match str_member(v, key) {
        Some(s) => s,
        None => d,
    }
}

/// The title line of a tool tip: its third element, when that is a string.
pub open spec fn tooltip_title_of(v: Json) -> Seq<char> {
    match v.spec_get("ToolTip"@) {
        Some(Json::Array(a)) => if a@.len() > 2 {
            match a@[2] {
                Json::Str(s) => s@,
                _ => ""@,
            }
        } else {
            ""@
        },
        _ => ""@,
    }
}

/// `p` holds what the answer `v` to `GetAll` says of the item on bus name
/// `service`: an empty answer that is no object leaves the defaults.
pub open spec fn props_from_getall(p: ItemProps, service: Seq<char>, v: Json) -> bool {
    let is_obj = v is Object;
    let id = if is_obj { str_member(v, "Id"@) } else { None };
    let got = id matches Some(i) && i.len() > 0;
    &&& p.got_props == got
    &&& p.item_id@ == (if got { id->0 } else { service })
    &&& p.title@ == (if is_obj { str_member_or(v, "Title"@, ""@) } else { ""@ })
    &&& p.category@ == (if is_obj { str_member_or(v, "Category"@, ""@) } else { ""@ })
    &&& p.icon_name@ == (if is_obj { str_member_or(v, "IconName"@, ""@) } else { ""@ })
    &&& p.icon_theme_path@ == (if is_obj { str_member_or(v, "IconThemePath"@, ""@) } else { ""@ })
    &&& p.menu@ == (if is_obj { str_member_or(v, "Menu"@, ""@) } else { ""@ })
    &&& p.item_is_menu == (if is_obj {
        match v.spec_get("ItemIsMenu"@) {
            Some(Json::Bool(b)) => b,
            _ => false,
        }
    } else {
        false
    })
    &&& p.tooltip_title@ == (if is_obj { tooltip_title_of(v) } else { ""@ })
}

fn str_member_or_exec(v: &Json, key: &str, d: &str) -> (r: String)
    ensures
        r@ == str_member_or(*v, key@, d@),
{
    match v.get(key) {
        Some(j) => match j.as_str() {
            Some(s) => s.clone(),
            None => d.to_string(),
        },
        None => d.to_string(),
    }
}

/// Reads the item's answer to `GetAll` on `org.kde.StatusNotifierItem`.
pub fn item_props_from_getall(service: &str, v: &Json) -> (r: ItemProps)
    ensures
        props_from_getall(r, service@, *v),
{
    let mut p = ItemProps {
        item_id: service.to_string(),
        title: String::new(),
        category: String::new(),
        icon_name: String::new(),
        icon_theme_path: String::new(),
        menu: String::new(),
        item_is_menu: false,
        tooltip_title: String::new(),
        got_props: false,
    };
    proof {
        reveal_strlit("");
    }
    assert(p.title@ == ""@);
    assert(!(*v is Object) ==> props_from_getall(p, service@, *v));
    match v {
        Json::Object(_) => {},
        _ => return p,
    }
    if let Some(j) = v.get("Id") {
        if let Some(s) = j.as_str() {
            if s.unicode_len() > 0 {
                p.item_id = s.clone();
                p.got_props = true;
            }
        }
    }
    p.title = str_member_or_exec(v, "Title", "");
    p.category = str_member_or_exec(v, "Category", "");
    p.icon_name = str_member_or_exec(v, "IconName", "");
    p.icon_theme_path = str_member_or_exec(v, "IconThemePath", "");
    p.menu = str_member_or_exec(v, "Menu", "");
    if let Some(j) = v.get("ItemIsMenu") {
        if let Some(b) = j.as_bool() {
            p.item_is_menu = b;
        }
    }
    if let Some(j) = v.get("ToolTip") {
        if let Some(a) = j.as_array() {
            if a.len() > 2 {
                if let Some(s) = a[2].as_str() {
                    p.tooltip_title = s.clone();
                }
            }
        }
    }
    p
}

/// Whether an item that answered nothing useful is left out: no id, no
/// title and no icon name.
pub fn item_is_dead(p: &ItemProps) -> (r: bool)
    ensures
        r == (!p.got_props && p.title@.len() == 0 && p.icon_name@.len() == 0),
{
    !p.got_props && p.title.unicode_len() == 0 && p.icon_name.unicode_len() == 0
}

/// The widget id of an item's button: `tray_` and its key.
pub fn tray_button_id(service: &str, path: &str) -> (r: String)
    ensures
        r@ == "tray_"@ + spec_item_key(service@, path@),
{
    let svc = underscore_chars(&chars_of(service), '.', ':');
    let pth = underscore_chars(&chars_of(path), '.', '/');
    let mut key = concat(&svc, &vec!['_']);
    key = concat(&key, &pth);
    assert(key@ == spec_item_key(service@, path@));
    string_of(&concat(&chars_of("tray_"), &key))
}

/// The answers to the single `Get` calls made when `GetAll` gave no id,
/// `Null` where a call got no answer.
#[derive(Debug)]
pub struct FallbackAnswers {
    pub id: Json,
    pub title: Json,
    pub icon_name: Json,
    pub category: Json,
    pub menu: Json,
    pub item_is_menu: Json,
}

pub open spec fn nonempty_str(v: Json) -> Option<Seq<char>> {
    match v {
        Json::Str(s) => if s@.len() > 0 { Some(s@) } else { None },
        _ => None,
    }
}

pub open spec fn str_or_keep(v: Json, old: Seq<char>) -> Seq<char> {
    match v {
        Json::Str(s) => s@,
        _ => old,
    }
}

/// The item id after the single reads: the id answered, where not empty;
/// then the title, where one was answered and the id is still the bus
/// name.
pub open spec fn fallback_id(old_id: Seq<char>, service: Seq<char>, a: FallbackAnswers) -> Seq<char> {
    let id = match nonempty_str(a.id) {
        Some(s) => s,
        None => old_id,
    };
    match nonempty_str(a.title) {
        Some(t) => if id == service { t } else { id },
        None => id,
    }
}

impl ItemProps {
    /// Takes the answers of the single property reads.
    pub fn apply_fallback(&mut self, service: &str, a: &FallbackAnswers)
        ensures
            final(self).got_props == (old(self).got_props || nonempty_str(a.id) is Some),
            final(self).item_id@ == fallback_id(old(self).item_id@, service@, *a),
            final(self).title@ == match nonempty_str(a.title) {
                Some(t) => t,
                None => old(self).title@,
            },
            final(self).icon_name@ == str_or_keep(a.icon_name, old(self).icon_name@),
            final(self).category@ == str_or_keep(a.category, old(self).category@),
            final(self).menu@ == str_or_keep(a.menu, old(self).menu@),
            final(self).item_is_menu == match a.item_is_menu {
                Json::Bool(b) => b,
                _ => old(self).item_is_menu,
            },
            final(self).icon_theme_path == old(self).icon_theme_path,
            final(self).tooltip_title == old(self).tooltip_title,
    {
        if let Json::Str(s) = &a.id {
            if s.unicode_len() > 0 {
                self.item_id = s.clone();
                self.got_props = true;
            }
        }
        if let Json::Str(t) = &a.title {
            if t.unicode_len() > 0 {
                self.title = t.clone();
                if str_is(self.item_id.as_str(), service) {
                    self.item_id = t.clone();
                }
            }
        }
        if let Json::Str(s) = &a.icon_name {
            self.icon_name = s.clone();
        }
        if let Json::Str(s) = &a.category {
            self.category = s.clone();
        }
        if let Json::Str(s) = &a.menu {
            self.menu = s.clone();
        }
        if let Json::Bool(b) = &a.item_is_menu {
            self.item_is_menu = *b;
        }
    }
}

/// The title shown for an item: its title, or its id when it has none.
pub fn shown_title(title: &str, id: &str) -> (r: String)
    ensures
        r@ == (if title@.len() > 0 { title@ } else { id@ }),
{
    if title.unicode_len() > 0 { title.to_string() } else { id.to_string() }
}

/// A row of an item's menu popup.
#[derive(Debug)]
pub enum MenuRow {
    Separator,
    /// The header of a top-level submenu.
    Section(String),
    Button { text: String, style: &'static str, on_click: String },
}

/// The text of a menu entry's button: its label (or `Item`), behind a
/// check box for check and radio entries, indented below the top level.
pub open spec fn spec_row_text(mi: DBusMenuItem) -> Seq<char> {
    let base = if mi.label@.len() > 0 { mi.label@ } else { "Item"@ };
    let toggled = match mi.toggle_type {
        Some(tt) => if tt@ == "checkmark"@ || tt@ == "radio"@ {
            if mi.toggle_state == Some(1i32) { "\u{f0132}  "@ + base } else { "\u{f0131}  "@ + base }
        } else {
            base
        },
        None => base,
    };
    if mi.indent_level > 0 { "    "@ + toggled } else { toggled }
}

/// The event a click on an enabled entry sends.
pub open spec fn spec_row_click(item_idx: usize, mi: DBusMenuItem) -> Seq<char> {
    if mi.enabled {
        "event:tray:menu_item_"@ + spec_decimal(item_idx as nat) + "_"@ + spec_signed_decimal(mi.id as int) + ":click"@
    } else {
        Seq::empty()
    }
}

/// Where an item's icon file is looked for, in order: the icon name itself
/// when it is an absolute `.png` or `.svg` path, then each candidate name in
/// the item's theme directory as `.svg` and as `.png`, then the candidate
/// names through the icon theme. The first that exists is taken.
#[derive(Debug)]
pub struct IconProbes {
    pub direct: Option<String>,
    pub theme_files: Vec<String>,
    pub theme_names: Vec<String>,
}

/// The file `theme/name.ext`.
pub open spec fn theme_file(theme: Seq<char>, name: Seq<char>, ext: Seq<char>) -> Seq<char> {
    theme + "/"@ + name + "."@ + ext
}

fn theme_file_exec(theme: &str, name: &str, ext: &str) -> (r: String)
    ensures
        r@ == theme_file(theme@, name@, ext@),
{
    let a = concat(&concat(&chars_of(theme), &chars_of("/")), &chars_of(name));
    string_of(&concat(&concat(&a, &chars_of(".")), &chars_of(ext)))
}

/// The places an item's icon is looked for, in the order they are tried.
pub fn icon_probes(item_id: &str, icon_name: &str, theme_path: &str, title: &str, tooltip_title: &str) -> (r: IconProbes)
    ensures
        match r.direct {
            Some(p) => p@ == icon_name@,
            None => true,
        },
        r.direct is Some <==> (spec_starts_with(icon_name@, "/"@)
            && (spec_ends_with(icon_name@, ".png"@) || spec_ends_with(icon_name@, ".svg"@))),
        r.theme_names@.map_values(|s: String| s@) == spec_icon_candidates(icon_name@, item_id@, title@, tooltip_title@),
        r.theme_files@.len() == (if theme_path@.len() == 0 { 0 } else { 2 * r.theme_names@.len() }),
        forall|k: int| 0 <= k < r.theme_files@.len() ==> (#[trigger] r.theme_files@[k])@ == theme_file(
            theme_path@,
            r.theme_names@[k / 2]@,
            if k % 2 == 0 { "svg"@ } else { "png"@ },
        ),
{
    let icon = chars_of(icon_name);
    let direct = if starts_with(&icon, &chars_of("/"))
        && (crate::text::ends_with(&icon, &chars_of(".png")) || crate::text::ends_with(&icon, &chars_of(".svg"))) {
        Some(icon_name.to_string())
    } else {
        None
    };
    let names = get_icon_candidates(icon_name, item_id, title, tooltip_title);
    let mut files: Vec<String> = Vec::new();
    if theme_path.unicode_len() > 0 {
        let mut i: usize = 0;
        while i < names.len()
            invariant
                i <= names@.len(),
                files@.len() == 2 * i,
                forall|k: int| 0 <= k < files@.len() ==> (#[trigger] files@[k])@ == theme_file(
                    theme_path@,
                    names@[k / 2]@,
                    if k % 2 == 0 { "svg"@ } else { "png"@ },
                ),
            decreases names@.len() - i,
        {
            files.push(theme_file_exec(theme_path, names[i].as_str(), "svg"));
            files.push(theme_file_exec(theme_path, names[i].as_str(), "png"));
            proof {
                assert((2 * i) / 2 == i as int && (2 * i) % 2 == 0);
                assert((2 * i + 1) / 2 == i as int && (2 * i + 1) % 2 == 1);
            }
            i = i + 1;
        }
    }
    IconProbes { direct, theme_files: files, theme_names: names }
}

/// The widget id of a menu entry's button: `menu_item_`, the item's
/// index, `_` and the entry's id.
pub open spec fn menu_item_widget(item_idx: nat, id: int) -> Seq<char> {
    "menu_item_"@ + (spec_decimal(item_idx) + "_"@ + spec_signed_decimal(id))
}

proof fn lemma_find_after_digits(a: Seq<char>, b: Seq<char>, from: int)
    requires
        all_digits(a),
        0 <= from <= a.len(),
    ensures
        spec_find_from(a + "_"@ + b, seq!['_'], from) == Some(a.len() as int),
    decreases a.len() - from,
{
    reveal_strlit("_");
    let s = a + "_"@ + b;
    if from < a.len() {
        assert(s[from] == a[from]);
        assert(s.subrange(from, from + 1)[0] == s[from]);
        assert(!spec_occurs_at(s, seq!['_'], from));
        lemma_find_after_digits(a, b, from + 1);
    } else {
        assert(s.subrange(from, from + 1) =~= seq!['_']);
    }
}

/// A click on an enabled menu entry's button asks to activate exactly that
/// entry of that tray item's menu: the button sends its widget id, and that
/// id names the item's service and menu and the entry's id.
pub proof fn law_menu_click_activates_its_entry(
    items: Seq<TrayItemData>,
    item_idx: usize,
    mi: DBusMenuItem,
    event: Seq<char>,
    menu_service: Seq<char>,
    menu_path: Seq<char>,
)
    requires
        item_idx < items.len(),
        items[item_idx as int].service@.len() > 0,
        items[item_idx as int].menu@.len() > 0,
        mi.enabled,
        mi.id >= 0,
    ensures
        spec_row_click(item_idx, mi) == "event:tray:"@ + menu_item_widget(item_idx as nat, mi.id as int) + ":click"@,
        spec_tray_request(menu_item_widget(item_idx as nat, mi.id as int), event, items, menu_service, menu_path)
            == (Some((items[item_idx as int].service@, items[item_idx as int].menu@, mi.id)),
                None::<(int, TrayClickKind, i32, i32)>, true),
{
    reveal_strlit("menu_item_");
    reveal_strlit("_");
    let dec = spec_decimal(item_idx as nat);
    let idd = spec_decimal(mi.id as nat);
    let rest = dec + "_"@ + idd;
    let w = menu_item_widget(item_idx as nat, mi.id as int);
    assert(spec_signed_decimal(mi.id as int) == idd);
    assert(w == "menu_item_"@ + rest);
    assert(("event:tray:menu_item_"@ + dec + "_"@ + idd + ":click"@) =~= ("event:tray:"@ + w + ":click"@)) by {
        reveal_strlit("event:tray:menu_item_");
        reveal_strlit("event:tray:");
    }
    lemma_decimal_digits(item_idx as nat);
    lemma_decimal_digits(mi.id as nat);
    law_decimal_parses_back(item_idx as nat);
    law_decimal_parses_back(mi.id as nat);
    assert(w.subrange(0, "menu_item_"@.len() as int) =~= "menu_item_"@);
    assert(spec_starts_with(w, "menu_item_"@));
    assert(w.subrange("menu_item_"@.len() as int, w.len() as int) =~= rest);
    lemma_find_after_digits(dec, idd, 0);
    let k = dec.len() as int;
    assert(rest.subrange(0, k) =~= dec);
    assert(rest.subrange(k + 1, rest.len() as int) =~= idd);
    assert(idd[0] != '-') by {
        assert(crate::number::is_digit(idd[0]));
    }
    assert(spec_parse_int(idd) == Some(mi.id as int));
}

/// How the entry `mi` of item `item_idx`'s menu is shown.
pub fn menu_row(item_idx: usize, mi: &DBusMenuItem) -> (r: MenuRow)
    ensures
        mi.is_separator ==> r is Separator,
        !mi.is_separator && mi.is_submenu && mi.indent_level == 0 ==> (r matches MenuRow::Section(t)
            && t@ == (if mi.label@.len() > 0 { "\u{25be} "@ + mi.label@ } else { "Submenu"@ })),
        !mi.is_separator && !(mi.is_submenu && mi.indent_level == 0) ==> (r matches MenuRow::Button { text, style, on_click }
            && text@ == spec_row_text(*mi)
            && style@ == (if mi.enabled { "menu_item"@ } else { "menu_item_disabled"@ })
            && on_click@ == spec_row_click(item_idx, *mi)),
{
    if mi.is_separator {
        return MenuRow::Separator;
    }
    if mi.is_submenu && mi.indent_level == 0 {
        let t = if mi.label.unicode_len() > 0 {
            string_of(&concat(&chars_of("\u{25be} "), &chars_of(mi.label.as_str())))
        } else {
            "Submenu".to_string()
        };
        return MenuRow::Section(t);
    }
    let style = if mi.enabled { "menu_item" } else { "menu_item_disabled" };
    let on_click = if mi.enabled {
        let mut v = concat(&chars_of("event:tray:menu_item_"), &chars_of(decimal(item_idx as u64).as_str()));
        v = concat(&v, &chars_of("_"));
        v = concat(&v, &chars_of(signed_decimal(mi.id as i64).as_str()));
        v = concat(&v, &chars_of(":click"));
        string_of(&v)
    } else {
        String::new()
    };
    let base = if mi.label.unicode_len() > 0 { chars_of(mi.label.as_str()) } else { chars_of("Item") };
    let toggled = match &mi.toggle_type {
        Some(tt) => if str_is(tt.as_str(), "checkmark") || str_is(tt.as_str(), "radio") {
            if mi.toggle_state == Some(1i32) {
                concat(&chars_of("\u{f0132}  "), &base)
            } else {
                concat(&chars_of("\u{f0131}  "), &base)
            }
        } else {
            base
        },
        None => base,
    };
    let text = if mi.indent_level > 0 { concat(&chars_of("    "), &toggled) } else { toggled };
    MenuRow::Button { text: string_of(&text), style, on_click }
}

} // verus!
