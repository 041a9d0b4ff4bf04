//! Dynamic colour: the accent colour and palette taken from the wallpaper
//! state, announced again whenever they change.

use vstd::prelude::*;
use crate::json::Json;
use crate::text::str_is;

verus! {

/// A palette: colour names and their values, as read from the theme files.
/// Where a name occurs twice, the first entry counts.
pub open spec fn palette_get_from(s: Seq<(String, String)>, k: Seq<char>, i: int) -> Option<Seq<char>>
    decreases s.len() - i,
{
    if i < 0 || i >= s.len() {
        None
    } else if s[i].0@ == k {
        Some(s[i].1@)
    } else {
        palette_get_from(s, k, i + 1)
    }
}

/// The value of the colour named `k` in the palette `s`.
pub open spec fn palette_get(s: Seq<(String, String)>, k: Seq<char>) -> Option<Seq<char>> {
    palette_get_from(s, k, 0)
}

/// Two palettes name the same colours with the same values.
pub open spec fn same_palette(a: Seq<(String, String)>, b: Seq<(String, String)>) -> bool {
    forall|k: Seq<char>| #[trigger] palette_get(a, k) == palette_get(b, k)
}

/// The accent used when the wallpaper state names none.
pub open spec fn spec_default_accent() -> Seq<char> {
    "#c72548"@
}

/// The palette of `base` with `accent` and `primary` filled in from the
/// accent colour where `base` lacks them.
pub open spec fn completed_get(base: Seq<(String, String)>, accent: Seq<char>, k: Seq<char>) -> Option<Seq<char>> {
    match palette_get(base, k) {
        Some(v) => Some(v),
        None => if k == "accent"@ || k == "primary"@ {
            Some(accent)
        } else {
            None
        },
    }
}

/// The wallpaper state as the theme files give it.
#[derive(Debug)]
pub struct WallpaperState {
    pub accent: String,
    pub palette: Option<Vec<(String, String)>>,
}

/// The accent colour of a state read from the theme files, or the default.
pub open spec fn state_accent(state: Option<WallpaperState>) -> Seq<char> {
    match state {
        Some(s) => s.accent@,
        None => spec_default_accent(),
    }
}

/// The palette of a state read from the theme files, or an empty one.
pub open spec fn state_palette(state: Option<WallpaperState>) -> Seq<(String, String)> {
    match state {
        Some(s) => match s.palette {
            Some(p) => p@,
            None => Seq::empty(),
        },
        None => Seq::empty(),
    }
}

/// The accent a wallpaper state has when its file names none.
pub fn default_accent() -> (r: String)
    ensures
        r@ == spec_default_accent(),
{
    "#c72548".to_string()
}

/// What is announced after a change: the whole palette and the accent.
#[derive(Debug)]
pub struct ThemeUpdate {
    pub palette: Vec<(String, String)>,
    pub accent: String,
}

/// The dynamic colour module's state: what it announced last, and a tick
/// counter for the periodic fallback.
#[derive(Debug)]
pub struct DynamicColorModule {
    pub last_accent: Option<String>,
    pub last_palette: Option<Vec<(String, String)>>,
    pub ticks: u32,
}

impl Default for DynamicColorModule {
    fn default() -> (r: DynamicColorModule)
        ensures
            r.last_accent is None,
            r.last_palette is None,
            r.ticks == 0,
    {
        DynamicColorModule { last_accent: None, last_palette: None, ticks: 0 }
    }
}

proof fn lemma_get_from_push(s: Seq<(String, String)>, e: (String, String), k: Seq<char>, i: int)
    requires
        0 <= i <= s.len(),
    ensures
        palette_get_from(s.push(e), k, i) == match palette_get_from(s, k, i) {
            Some(v) => Some(v),
            None => if e.0@ == k { Some(e.1@) } else { None },
        },
    decreases s.len() - i,
{
    if i < s.len() {
        assert(s.push(e)[i] == s[i]);
        lemma_get_from_push(s, e, k, i + 1);
    } else {
        assert(s.push(e)[i] == e);
        assert(palette_get_from(s.push(e), k, i + 1) is None);
    }
}

proof fn lemma_key_index(s: Seq<(String, String)>, k: Seq<char>, i: int) -> (j: int)
    requires
        palette_get_from(s, k, i) is Some,
    ensures
        0 <= i <= j < s.len(),
        s[j].0@ == k,
    decreases s.len() - i,
{
    if s[i].0@ == k {
        i
    } else {
        lemma_key_index(s, k, i + 1)
    }
}

/// The value of the colour named `k`.
fn palette_lookup(p: &Vec<(String, String)>, k: &str) -> (r: Option<String>)
    ensures
        match r {
            Some(v) => palette_get(p@, k@) == Some(v@),
            None => palette_get(p@, k@) is None,
        },
{
    let mut i: usize = 0;
    while i < p.len()
        invariant
            i <= p.len(),
            palette_get(p@, k@) == palette_get_from(p@, k@, i as int),
        decreases p.len() - i,
    {
        if str_is(p[i].0.as_str(), k) {
            return Some(p[i].1.clone());
        }
        i = i + 1;
    }
    None
}

fn opt_eq(a: &Option<String>, b: &Option<String>) -> (r: bool)
    ensures
        r == (match (a, b) {
            (Some(x), Some(y)) => x@ == y@,
            (None, None) => true,
            _ => false,
        }),
{
    match (a, b) {
        (Some(x), Some(y)) => str_is(x.as_str(), y.as_str()),
        (None, None) => true,
        _ => false,
    }
}

/// Whether every colour named in `a` has the same value in `b`.
fn names_agree(a: &Vec<(String, String)>, b: &Vec<(String, String)>) -> (r: bool)
    ensures
        r == forall|j: int| 0 <= j < a@.len() ==> #[trigger] palette_get(b@, a@[j].0@) == palette_get(a@, a@[j].0@),
{
    let mut j: usize = 0;
    while j < a.len()
        invariant
            j <= a.len(),
            forall|jj: int| 0 <= jj < j ==> #[trigger] palette_get(b@, a@[jj].0@) == palette_get(a@, a@[jj].0@),
        decreases a.len() - j,
    {
        let x = palette_lookup(b, a[j].0.as_str());
        let y = palette_lookup(a, a[j].0.as_str());
        if !opt_eq(&x, &y) {
            assert(palette_get(b@, a@[j as int].0@) != palette_get(a@, a@[j as int].0@));
            return false;
        }
        j = j + 1;
    }
    true
}

/// Whether two palettes name the same colours with the same values.
pub fn palettes_equal(a: &Vec<(String, String)>, b: &Vec<(String, String)>) -> (r: bool)
    ensures
        r == same_palette(a@, b@),
{
    let ab = names_agree(a, b);
    let ba = names_agree(b, a);
    proof {
        if ab && ba {
            assert forall|k: Seq<char>| #[trigger] palette_get(a@, k) == palette_get(b@, k) by {
                if palette_get(a@, k) is Some {
                    let j = lemma_key_index(a@, k, 0);
                    assert(palette_get(b@, a@[j].0@) == palette_get(a@, a@[j].0@));
                } else if palette_get(b@, k) is Some {
                    let j = lemma_key_index(b@, k, 0);
                    assert(palette_get(a@, b@[j].0@) == palette_get(b@, b@[j].0@));
                }
            }
        } else if !ab {
            let j = choose|j: int| 0 <= j < a@.len() && #[trigger] palette_get(b@, a@[j].0@) != palette_get(a@, a@[j].0@);
            assert(palette_get(a@, a@[j].0@) != palette_get(b@, a@[j].0@));
        } else {
            let j = choose|j: int| 0 <= j < b@.len() && #[trigger] palette_get(a@, b@[j].0@) != palette_get(b@, b@[j].0@);
            assert(palette_get(a@, b@[j].0@) != palette_get(b@, b@[j].0@));
        }
    }
    ab && ba
}

fn copy_palette(p: &Vec<(String, String)>) -> (r: Vec<(String, String)>)
    ensures
        r@.len() == p@.len(),
        forall|i: int| 0 <= i < p@.len() ==> (#[trigger] r@[i]).0@ == p@[i].0@ && r@[i].1@ == p@[i].1@,
{
    let mut r: Vec<(String, String)> = Vec::new();
    let mut i: usize = 0;
    while i < p.len()
        invariant
            i <= p.len(),
            r@.len() == i,
            forall|j: int| 0 <= j < i ==> (#[trigger] r@[j]).0@ == p@[j].0@ && r@[j].1@ == p@[j].1@,
        decreases p.len() - i,
    {
        r.push((p[i].0.clone(), p[i].1.clone()));
        i = i + 1;
    }
    r
}

proof fn lemma_copy_same(p: Seq<(String, String)>, r: Seq<(String, String)>, k: Seq<char>, i: int)
    requires
        r.len() == p.len(),
        forall|j: int| 0 <= j < p.len() ==> (#[trigger] r[j]).0@ == p[j].0@ && r[j].1@ == p[j].1@,
    ensures
        palette_get_from(r, k, i) == palette_get_from(p, k, i),
    decreases p.len() - i,
{
    if 0 <= i < p.len() {
        assert(r[i].0@ == p[i].0@);
        lemma_copy_same(p, r, k, i + 1);
    }
}

/// Fills in `accent` and `primary` from the accent colour where the palette
/// lacks them.
pub fn complete_palette(base: Vec<(String, String)>, accent: &String) -> (r: Vec<(String, String)>)
    ensures
        forall|k: Seq<char>| #[trigger] palette_get(r@, k) == completed_get(base@, accent@, k),
{
    let mut p = base;
    let has_accent = palette_lookup(&p, "accent").is_some();
    proof {
        reveal_strlit("accent");
        reveal_strlit("primary");
        assert("accent"@ != "primary"@) by {
            assert("accent"@[0] != "primary"@[0]);
        }
    }
    let ghost p0 = p@;
    if !has_accent {
        p.push(("accent".to_string(), accent.clone()));
        proof {
            assert forall|k: Seq<char>| #[trigger] palette_get(p@, k) == match palette_get(p0, k) {
                Some(v) => Some(v),
                None => if k == "accent"@ { Some(accent@) } else { None },
            } by {
                lemma_get_from_push(p0, p@.last(), k, 0);
                assert(p0.push(p@.last()) =~= p@);
            }
        }
    }
    let ghost p1 = p@;
    let has_primary = palette_lookup(&p, "primary").is_some();
    if !has_primary {
        p.push(("primary".to_string(), accent.clone()));
        proof {
            assert forall|k: Seq<char>| #[trigger] palette_get(p@, k) == match palette_get(p1, k) {
                Some(v) => Some(v),
                None => if k == "primary"@ { Some(accent@) } else { None },
            } by {
                lemma_get_from_push(p1, p@.last(), k, 0);
                assert(p1.push(p@.last()) =~= p@);
            }
        }
    }
    proof {
        assert forall|k: Seq<char>| #[trigger] palette_get(p@, k) == completed_get(base@, accent@, k) by {
            if !has_accent {
                assert(palette_get(p1, k) == match palette_get(p0, k) {
                    Some(v) => Some(v),
                    None => if k == "accent"@ { Some(accent@) } else { None },
                });
            } else {
                assert(p1 == p0);
            }
            if !has_primary {
                assert(palette_get(p@, k) == match palette_get(p1, k) {
                    Some(v) => Some(v),
                    None => if k == "primary"@ { Some(accent@) } else { None },
                });
            } else {
                assert(p@ == p1);
            }
        }
    }
    p
}

/// Whether the completed palette and accent differ from what was last
/// announced (or nothing was announced yet).
pub open spec fn theme_changed(m: DynamicColorModule, base: Seq<(String, String)>, accent: Seq<char>) -> bool {
    let palette_changed = match m.last_palette {
        Some(prev) => !(forall|k: Seq<char>| #[trigger] palette_get(prev@, k) == completed_get(base, accent, k)),
        None => true,
    };
    let accent_changed = match m.last_accent {
        Some(prev) => prev@ != accent,
        None => true,
    };
    palette_changed || accent_changed
}

/// Whether `m` last announced exactly the accent and completed palette that
/// `state` gives.
pub open spec fn announced(m: DynamicColorModule, state: Option<WallpaperState>) -> bool {
    &&& m.last_accent matches Some(a) && a@ == state_accent(state)
    &&& m.last_palette matches Some(p) && forall|k: Seq<char>| #[trigger] palette_get(p@, k)
        == completed_get(state_palette(state), state_accent(state), k)
}

/// A wallpaper state, once announced, is not announced again: looking at the
/// same state a second time finds no change.
pub proof fn law_announced_state_stays_quiet(m: DynamicColorModule, state: Option<WallpaperState>)
    requires
        announced(m, state),
    ensures
        !theme_changed(m, state_palette(state), state_accent(state)),
{
}

impl DynamicColorModule {
    /// Topics that ask for the theme to be looked at again.
    pub fn wants_check(&self, topic: &str) -> (r: bool)
        ensures
            r == (topic@ == "theme.request"@ || topic@ == "wallpaper.change"@),
    {
        str_is(topic, "theme.request") || str_is(topic, "wallpaper.change")
    }

    /// Counts a tick; every tenth one asks for the theme to be looked at.
    pub fn tick(&mut self) -> (r: bool)
        ensures
            final(self).ticks == (if old(self).ticks < u32::MAX { old(self).ticks + 1 } else { old(self).ticks as int }),
            final(self).last_accent == old(self).last_accent,
            final(self).last_palette == old(self).last_palette,
            r == (final(self).ticks % 10 == 0),
    {
        self.ticks = self.ticks.saturating_add(1);
        self.ticks % 10 == 0
    }

    /// Compares the wallpaper state with what was announced last. On a
    /// change it remembers and returns the new palette and accent; else it
    /// returns `None` and keeps its state.
    pub fn check_and_publish(&mut self, state: Option<WallpaperState>) -> (r: Option<ThemeUpdate>)
        ensures
            r is Some <==> theme_changed(*old(self), state_palette(state), state_accent(state)),
            match r {
                Some(u) => {
                    &&& u.accent@ == state_accent(state)
                    &&& forall|k: Seq<char>| #[trigger] palette_get(u.palette@, k)
                        == completed_get(state_palette(state), state_accent(state), k)
                    &&& final(self).last_accent matches Some(a) && a@ == state_accent(state)
                    &&& final(self).last_palette matches Some(p) && same_palette(p@, u.palette@)
                    &&& final(self).ticks == old(self).ticks
                },
                None => *final(self) == *old(self),
            },
            announced(*final(self), state),
    {
        let ghost st = state;
        let (accent, base) = match state {
            Some(s) => {
                let b = match s.palette {
                    Some(p) => p,
                    None => Vec::new(),
                };
                (s.accent, b)
            },
            None => (default_accent(), Vec::new()),
        };
        assert(accent@ == state_accent(st));
        assert(base@ == state_palette(st));
        let palette = complete_palette(base, &accent);
        let palette_changed = match &self.last_palette {
            Some(prev) => !palettes_equal(prev, &palette),
            None => true,
        };
        let accent_changed = match &self.last_accent {
            Some(prev) => !str_is(prev.as_str(), accent.as_str()),
            None => true,
        };
        proof {
            if let Some(prev) = &self.last_palette {
                assert(same_palette(prev@, palette@) <==> forall|k: Seq<char>| #[trigger] palette_get(prev@, k)
                    == completed_get(state_palette(st), state_accent(st), k)) by {
                    if same_palette(prev@, palette@) {
                        assert forall|k: Seq<char>| #[trigger] palette_get(prev@, k)
                            == completed_get(state_palette(st), state_accent(st), k) by {
                            assert(palette_get(prev@, k) == palette_get(palette@, k));
                        }
                    }
                    if forall|k: Seq<char>| #[trigger] palette_get(prev@, k)
                        == completed_get(state_palette(st), state_accent(st), k) {
                        assert forall|k: Seq<char>| #[trigger] palette_get(prev@, k) == palette_get(palette@, k) by {
                            assert(palette_get(prev@, k) == completed_get(state_palette(st), state_accent(st), k));
                        }
                    }
                }
            }
        }
        if palette_changed || accent_changed {
            let kept = copy_palette(&palette);
            proof {
                assert forall|k: Seq<char>| #[trigger] palette_get(kept@, k) == palette_get(palette@, k) by {
                    lemma_copy_same(palette@, kept@, k, 0);
                }
            }
            self.last_palette = Some(kept);
            self.last_accent = Some(accent.clone());
            Some(ThemeUpdate { palette, accent })
        } else {
            None
        }
    }
}

/// The palette as the JSON object that is announced on `theme.palette`.
pub fn palette_json(p: &Vec<(String, String)>) -> (r: Json)
    ensures
        r matches Json::Object(m) && m@.len() == p@.len() && forall|i: int| 0 <= i < p@.len()
            ==> (#[trigger] m@[i]).0@ == p@[i].0@ && m@[i].1.spec_as_str() == Some(p@[i].1@),
{
    let mut m: Vec<(String, Json)> = Vec::new();
    let mut i: usize = 0;
    while i < p.len()
        invariant
            i <= p.len(),
            m@.len() == i,
            forall|j: int| 0 <= j < i ==> (#[trigger] m@[j]).0@ == p@[j].0@ && m@[j].1.spec_as_str() == Some(p@[j].1@),
        decreases p.len() - i,
    {
        m.push((p[i].0.clone(), Json::Str(p[i].1.clone())));
        i = i + 1;
    }
    Json::Object(m)
}

/// The object announced on `theme.accent`: `{"accent": accent}`.
pub fn accent_json(accent: &String) -> (r: Json)
    ensures
        r matches Json::Object(m) && m@.len() == 1 && m@[0].0@ == "accent"@ && m@[0].1.spec_as_str() == Some(accent@),
{
    let mut m: Vec<(String, Json)> = Vec::new();
    m.push(("accent".to_string(), Json::Str(accent.clone())));
    Json::Object(m)
}

} // verus!
