//! Display backlight: levels in percent and in the device's raw units, the
//! choice among several backlight devices, and what each bar event asks.

use vstd::prelude::*;
use crate::json::Json;
use crate::number::{parse_u64, parse_u8, spec_parse_nat};
use crate::text::{
    ascii_lowercase, chars_of, is_ascii_text, spec_strip_prefix, spec_to_lowercase, spec_trim, str_is, string_of, strip_prefix,
    to_lowercase, trim,
};

verus! {

broadcast use vstd::seq_lib::group_seq_properties;

/// One backlight device as sysfs describes it.
#[derive(Debug, Clone, PartialEq, Eq)]
pub struct BacklightDevice {
    pub name: String,
    /// `raw`, `platform` or `firmware`.
    pub device_type: String,
    pub current: u64,
    pub max: u64,
}

/// `num / den` rounded to the nearest integer, halves up.
pub open spec fn round_div(num: nat, den: nat) -> nat
    recommends
        den > 0,
{
    (2 * num + den) / (2 * den)
}

/// The level of `d` in percent: `current / max` rounded, at most 100, and
/// zero for a device whose maximum is zero.
pub open spec fn spec_percent(d: BacklightDevice) -> u8 {
    if d.max == 0 {
        0
    } else {
        let p = round_div(100 * d.current as nat, d.max as nat);
        if p > 100 { 100 } else { p as u8 }
    }
}

/// `p` held within `[lo, 100]`.
pub open spec fn clamp_pct(p: u8, lo: u8) -> u8 {
    if p < lo { lo } else if p > 100 { 100 } else { p }
}

impl BacklightDevice {
    /// The current level in percent, rounded to the nearest whole percent.
    pub fn percent(&self) -> (r: u8)
        ensures
            r == spec_percent(*self),
            r <= 100,
    {
        if self.max == 0 {
            0
        } else {
            let num: u128 = 200 * (self.current as u128) + (self.max as u128);
            let den: u128 = 2 * (self.max as u128);
            let p = num / den;
            assert(num == 2 * (100 * self.current as nat) + self.max as nat);
            if p > 100 { 100 } else { p as u8 }
        }
    }

    /// The raw value for `percent`, held within `[min_percent, 100]`,
    /// rounded down.
    pub fn to_raw_value(&self, percent: u8, min_percent: u8) -> (r: u64)
        requires
            min_percent <= 100,
            clamp_pct(percent, min_percent) as nat * self.max as nat <= u64::MAX,
        ensures
            r == (clamp_pct(percent, min_percent) as nat * self.max as nat) / 100,
    {
        let clamped: u64 = if percent < min_percent {
            min_percent as u64
        } else if percent > 100 {
            100
        } else {
            percent as u64
        };
        (clamped * self.max) / 100
    }
}

/// The preference given to a backlight of an already lower-cased, trimmed
/// type: direct GPU drivers first, then platform drivers, then firmware.
pub open spec fn spec_rank_lowered(t: Seq<char>) -> u8 {
    if t == "raw"@ {
        3
    } else if t == "platform"@ {
        2
    } else if t == "firmware"@ {
        1
    } else {
        0
    }
}

/// The preference of a device type: the type trimmed and lower-cased.
pub open spec fn spec_rank(ty: Seq<char>) -> u8 {
    spec_rank_lowered(spec_to_lowercase(spec_trim(ty)))
}

/// The preference given to a type that is already trimmed and lower-cased.
pub fn rank_lowered_type(t: &str) -> (r: u8)
    ensures
        r == spec_rank_lowered(t@),
{
    if str_is(t, "raw") {
        3
    } else if str_is(t, "platform") {
        2
    } else if str_is(t, "firmware") {
        1
    } else {
        0
    }
}

/// The preference given to a backlight device type.
pub fn rank_device_type(ty: &str) -> (r: u8)
    ensures
        r == spec_rank(ty@),
        is_ascii_text(spec_trim(ty@)) ==> r == spec_rank_lowered(ascii_lowercase(spec_trim(ty@))),
{
    let t = string_of(&trim(&chars_of(ty)));
    let lowered = to_lowercase(t.as_str());
    rank_lowered_type(lowered.as_str())
}

pub open spec fn has_rank(k: u8) -> spec_fn(BacklightDevice) -> bool {
    |d: BacklightDevice| spec_rank(d.device_type@) == k
}

/// The devices ordered by preference, most preferred first; devices of
/// equal preference keep their order.
pub open spec fn by_rank(ds: Seq<BacklightDevice>) -> Seq<BacklightDevice> {
    ds.filter(has_rank(3)) + ds.filter(has_rank(2)) + ds.filter(has_rank(1)) + ds.filter(has_rank(0))
}

impl BacklightDevice {
    /// A field-by-field copy.
    pub fn duplicate(&self) -> (r: BacklightDevice)
        ensures
            r == *self,
    {
        BacklightDevice {
            name: self.name.clone(),
            device_type: self.device_type.clone(),
            current: self.current,
            max: self.max,
        }
    }
}

fn append_rank(out: &mut Vec<BacklightDevice>, ds: &Vec<BacklightDevice>, k: u8)
    ensures
        final(out)@ == old(out)@ + ds@.filter(has_rank(k)),
{
    let ghost start = out@;
    let mut i: usize = 0;
    while i < ds.len()
        invariant
            i <= ds.len(),
            out@ == start + ds@.take(i as int).filter(has_rank(k)),
        decreases ds.len() - i,
    {
        proof {
            ds@.take(i as int).lemma_filter_push(ds@[i as int], has_rank(k));
            assert(ds@.take(i + 1) =~= ds@.take(i as int).push(ds@[i as int]));
        }
        if rank_device_type(ds[i].device_type.as_str()) == k {
            out.push(ds[i].duplicate());
        }
        i = i + 1;
    }
    assert(ds@.take(ds.len() as int) =~= ds@);
}

/// Orders devices by preference, keeping the order of equally preferred ones.
pub fn sort_by_rank(ds: &Vec<BacklightDevice>) -> (r: Vec<BacklightDevice>)
    ensures
        r@ == by_rank(ds@),
{
    let mut out: Vec<BacklightDevice> = Vec::new();
    append_rank(&mut out, ds, 3);
    append_rank(&mut out, ds, 2);
    append_rank(&mut out, ds, 1);
    append_rank(&mut out, ds, 0);
    assert(out@ =~= by_rank(ds@));
    out
}

/// The number a sysfs attribute holds, surrounding whitespace aside.
pub open spec fn attr_number(text: Option<String>) -> Option<nat> {
    match text {
        Some(s) => match spec_parse_nat(spec_trim(s@)) {
            Some(n) => if n <= u64::MAX { Some(n) } else { None },
            None => None,
        },
        None => None,
    }
}

fn attr_number_exec(text: &Option<String>) -> (r: Option<u64>)
    ensures
        match r {
            Some(n) => attr_number(*text) == Some(n as nat),
            None => attr_number(*text) is None,
        },
{
    match text {
        Some(s) => {
            let t = string_of(&trim(&chars_of(s.as_str())));
            parse_u64(t.as_str())
        },
        None => None,
    }
}

/// The device that the sysfs directory `name` describes, from the texts of
/// its `max_brightness`, `brightness`, `actual_brightness` and `type` files
/// (`None` where a file could not be read). A device whose maximum is zero
/// or unreadable is left out; `actual_brightness` is read only when
/// `brightness` could not be; an unreadable level counts as the maximum and
/// an unreadable type as `raw`.
pub fn device_from_sysfs(
    name: String,
    max_text: Option<String>,
    cur_text: Option<String>,
    alt_cur_text: Option<String>,
    type_text: Option<String>,
) -> (r: Option<BacklightDevice>)
    ensures
        (match attr_number(max_text) {
            Some(m) => m > 0,
            None => false,
        }) <==> r is Some,
        r matches Some(d) ==> {
            &&& d.name == name
            &&& Some(d.max as nat) == attr_number(max_text)
            &&& d.current as nat == match attr_number(if cur_text is Some { cur_text } else { alt_cur_text }) {
                Some(c) => c,
                None => d.max as nat,
            }
            &&& d.device_type@ == match type_text {
                Some(t) => spec_trim(t@),
                None => "raw"@,
            }
        },
{
    let max = match attr_number_exec(&max_text) {
        Some(m) => m,
        None => 0,
    };
    if max == 0 {
        return None;
    }
    let level_text = if cur_text.is_some() { cur_text } else { alt_cur_text };
    let current = match attr_number_exec(&level_text) {
        Some(c) => c,
        None => max,
    };
    let device_type = match type_text {
        Some(t) => string_of(&trim(&chars_of(t.as_str()))),
        None => "raw".to_string(),
    };
    Some(BacklightDevice { name, device_type, current, max })
}

/// The first device of `ds` named `n`.
pub open spec fn first_backlight_named(ds: Seq<BacklightDevice>, n: Seq<char>) -> Option<BacklightDevice>
    decreases ds.len(),
{
    if ds.len() == 0 {
        None
    } else if ds[0].name@ == n {
        Some(ds[0])
    } else {
        first_backlight_named(ds.drop_first(), n)
    }
}

/// The device to drive: the preferred one when present, else the first.
pub open spec fn spec_pick(preferred: Option<String>, ds: Seq<BacklightDevice>) -> Option<BacklightDevice> {
    let found = match preferred {
        Some(p) => first_backlight_named(ds, p@),
        None => None,
    };
    if found is Some {
        found
    } else if ds.len() > 0 {
        Some(ds[0])
    } else {
        None
    }
}

/// What a bar event asks of the backlight.
#[derive(Debug, PartialEq, Eq)]
pub enum BrightnessInput {
    /// Go to this level (held within the allowed range afterwards).
    Level(u8),
    /// The event is the level as a decimal number, possibly with a fraction:
    /// the caller reads it.
    Number,
    Ignore,
}

/// The backlight bar widget and its state.
#[derive(Debug)]
pub struct BrightnessModule {
    pub active_device: Option<BacklightDevice>,
    pub preferred_device_name: Option<String>,
    pub current_percent: u8,
    pub step: u8,
    pub min_percent: u8,
    pub dirty: bool,
}

impl Default for BrightnessModule {
    fn default() -> (r: BrightnessModule)
        ensures
            r.active_device is None && r.preferred_device_name is None,
            r.current_percent == 0 && r.step == 0 && r.min_percent == 0 && !r.dirty,
    {
        BrightnessModule {
            active_device: None,
            preferred_device_name: None,
            current_percent: 0,
            step: 0,
            min_percent: 0,
            dirty: false,
        }
    }
}

/// The level a `<prefix><digits>` text asks for, if it has that prefix:
/// `Some(None)` when the rest is not a level.
pub open spec fn prefixed_level(s: Seq<char>, prefix: Seq<char>) -> Option<Option<u8>> {
    match spec_strip_prefix(s, prefix) {
        Some(rest) => Some(match spec_parse_nat(rest) {
            Some(n) => if n <= 255 { Some(n as u8) } else { None },
            None => None,
        }),
        None => None,
    }
}

fn prefixed_level_exec(s: &Vec<char>, prefix: &str) -> (r: Option<Option<u8>>)
    ensures
        r == prefixed_level(s@, prefix@),
{
    match strip_prefix(s, &chars_of(prefix)) {
        Some(rest) => {
            let t = string_of(&rest);
            Some(parse_u8(t.as_str()))
        },
        None => None,
    }
}

pub open spec fn as_input(l: Option<u8>) -> BrightnessInput {
    match l {
        Some(v) => BrightnessInput::Level(v),
        None => BrightnessInput::Ignore,
    }
}

pub open spec fn sat_add_cap(a: u8, b: u8) -> u8 {
    if a + b > 100 { 100 } else { (a + b) as u8 }
}

pub open spec fn sat_sub_floor(a: u8, b: u8, lo: u8) -> u8 {
    let d: int = if a >= b { a - b } else { 0 };
    if d < lo { lo } else { d as u8 }
}

impl BrightnessModule {
    /// The step and the lowest level stay within what the configuration
    /// allows.
    pub open spec fn wf(&self) -> bool {
        self.step <= 25 && self.min_percent <= 50
    }

    /// Takes the module's settings: `device` (unless empty or `auto`),
    /// `step` held within `[1, 25]` (default 5) and `min_percent` held
    /// within `[0, 50]` (default 1), both read as a byte.
    pub fn apply_config(&mut self, config: &Json)
        ensures
            final(self).wf(),
            final(self).preferred_device_name == (match config.spec_get("device"@) {
                Some(v) => match v.spec_as_str() {
                    Some(s) => if s.len() > 0 && s != "auto"@ { Some(v->Str_0) } else { old(self).preferred_device_name },
                    None => old(self).preferred_device_name,
                },
                None => old(self).preferred_device_name,
            }),
            final(self).step == (match config.spec_get("step"@) {
                Some(v) => match v.spec_as_u64() {
                    Some(n) => clamp_range(n as u8, 1, 25),
                    None => 5,
                },
                None => 5u8,
            }),
            final(self).min_percent == (match config.spec_get("min_percent"@) {
                Some(v) => match v.spec_as_u64() {
                    Some(n) => clamp_range(n as u8, 0, 50),
                    None => 1,
                },
                None => 1u8,
            }),
            final(self).active_device == old(self).active_device,
            final(self).current_percent == old(self).current_percent,
            final(self).dirty == old(self).dirty,
    {
        if let Some(v) = config.get("device") {
            if let Some(s) = v.as_str() {
                if s.unicode_len() > 0 && !str_is(s.as_str(), "auto") {
                    self.preferred_device_name = Some(s.clone());
                }
            }
        }
        self.step = match config.get("step") {
            Some(v) => match v.as_u64() {
                Some(n) => clamp_range_exec(n as u8, 1, 25),
                None => 5,
            },
            None => 5,
        };
        self.min_percent = match config.get("min_percent") {
            Some(v) => match v.as_u64() {
                Some(n) => clamp_range_exec(n as u8, 0, 50),
                None => 1,
            },
            None => 1,
        };
    }

    /// The device to drive among `devices`: the configured one when present,
    /// else the first.
    pub fn pick_device(&self, devices: &Vec<BacklightDevice>) -> (r: Option<BacklightDevice>)
        ensures
            r == spec_pick(self.preferred_device_name, devices@),
    {
        if let Some(p) = &self.preferred_device_name {
            let pc = chars_of(p.as_str());
            let mut i: usize = 0;
            assert(devices@.subrange(0, devices@.len() as int) =~= devices@);
            while i < devices.len()
                invariant
                    i <= devices.len(),
                    pc@ == p@,
                    self.preferred_device_name == Some(*p),
                    first_backlight_named(devices@, p@) == first_backlight_named(devices@.subrange(i as int, devices@.len() as int), p@),
                decreases devices.len() - i,
            {
                let ghost rest = devices@.subrange(i as int, devices@.len() as int);
                assert(rest.drop_first() =~= devices@.subrange(i + 1, devices@.len() as int));
                assert(rest[0] == devices@[i as int]);
                if crate::text::chars_eq(&chars_of(devices[i].name.as_str()), &pc) {
                    assert(first_backlight_named(rest, p@) == Some(rest[0]));
                    return Some(devices[i].duplicate());
                }
                i = i + 1;
            }
            assert(devices@.subrange(devices@.len() as int, devices@.len() as int) =~= Seq::<BacklightDevice>::empty());
        }
        if devices.len() > 0 {
            Some(devices[0].duplicate())
        } else {
            None
        }
    }

    /// What the event `event` on widget `widget_id` asks: a step up or down
    /// by scrolling or the step buttons, a preset, a slider value after
    /// `slider:`, `value:` or `change:`, else a bare number.
    pub fn read_input(&self, widget_id: &str, event: &str) -> (r: BrightnessInput)
        ensures
            r == (if event@ == "scroll_up"@ || widget_id@ == "brightness_inc"@ {
                BrightnessInput::Level(sat_add_cap(self.current_percent, self.step))
            } else if event@ == "scroll_down"@ || widget_id@ == "brightness_dec"@ {
                BrightnessInput::Level(sat_sub_floor(self.current_percent, self.step, self.min_percent))
            } else if let Some(l) = prefixed_level(widget_id@, "brightness_preset_"@) {
                as_input(l)
            } else if let Some(l) = prefixed_level(event@, "slider:"@) {
                as_input(l)
            } else if let Some(l) = prefixed_level(event@, "value:"@) {
                as_input(l)
            } else if let Some(l) = prefixed_level(event@, "change:"@) {
                as_input(l)
            } else {
                BrightnessInput::Number
            }),
    {
        let cur = self.current_percent;
        let w = chars_of(widget_id);
        let e = chars_of(event);
        if str_is(event, "scroll_up") || str_is(widget_id, "brightness_inc") {
            let up: u8 = if cur as u16 + self.step as u16 > 100 { 100 } else { cur + self.step };
            return BrightnessInput::Level(up);
        }
        if str_is(event, "scroll_down") || str_is(widget_id, "brightness_dec") {
            let d: u8 = if cur >= self.step { cur - self.step } else { 0 };
            return BrightnessInput::Level(if d < self.min_percent { self.min_percent } else { d });
        }
        if let Some(l) = prefixed_level_exec(&w, "brightness_preset_") {
            return match l { Some(v) => BrightnessInput::Level(v), None => BrightnessInput::Ignore };
        }
        if let Some(l) = prefixed_level_exec(&e, "slider:") {
            return match l { Some(v) => BrightnessInput::Level(v), None => BrightnessInput::Ignore };
        }
        if let Some(l) = prefixed_level_exec(&e, "value:") {
            return match l { Some(v) => BrightnessInput::Level(v), None => BrightnessInput::Ignore };
        }
        if let Some(l) = prefixed_level_exec(&e, "change:") {
            return match l { Some(v) => BrightnessInput::Level(v), None => BrightnessInput::Ignore };
        }
        BrightnessInput::Number
    }

    /// Goes to level `pct`, held within `[min_percent, 100]`; returns the
    /// raw value the active device is to be set to, if there is one, and
    /// records it as that device's level.
    pub fn set_level(&mut self, pct: u8) -> (r: Option<u64>)
        requires
            old(self).wf(),
            old(self).active_device matches Some(d) ==> d.max as nat * 100 <= u64::MAX,
        ensures
            final(self).wf(),
            final(self).current_percent == clamp_pct(pct, old(self).min_percent),
            match old(self).active_device {
                Some(d) => {
                    let raw = (clamp_pct(pct, old(self).min_percent) as nat * d.max as nat) / 100;
                    &&& r == Some(raw as u64)
                    &&& final(self).active_device == Some(BacklightDevice { current: raw as u64, ..d })
                },
                None => r is None && final(self).active_device is None,
            },
            final(self).step == old(self).step,
            final(self).min_percent == old(self).min_percent,
            final(self).preferred_device_name == old(self).preferred_device_name,
            final(self).dirty == old(self).dirty,
    {
        let lo = self.min_percent;
        let clamped: u8 = if pct < lo { lo } else if pct > 100 { 100 } else { pct };
        self.current_percent = clamped;
        match &self.active_device {
            Some(d) => {
                assert(clamped as nat * d.max as nat <= 100 * d.max as nat) by (nonlinear_arith)
                    requires
                        clamped <= 100,
                ;
                let raw = d.to_raw_value(clamped, lo);
                let updated = BacklightDevice {
                    name: d.name.clone(),
                    device_type: d.device_type.clone(),
                    current: raw,
                    max: d.max,
                };
                self.active_device = Some(updated);
                Some(raw)
            },
            None => None,
        }
    }
}

/// `v` held within `[lo, hi]`.
pub open spec fn clamp_range(v: u8, lo: u8, hi: u8) -> u8 {
    if v < lo { lo } else if v > hi { hi } else { v }
}

fn clamp_range_exec(v: u8, lo: u8, hi: u8) -> (r: u8)
    ensures
        r == clamp_range(v, lo, hi),
{
    if v < lo { lo } else if v > hi { hi } else { v }
}

/// The glyph shown beside the level on the bar.
pub fn brightness_glyph(percent: u8) -> (r: &'static str)
    ensures
        r@ == (if percent <= 25 { "󰃞"@ } else if percent <= 70 { "󰃟"@ } else { "󰃠"@ }),
{
    if percent <= 25 { "󰃞" } else if percent <= 70 { "󰃟" } else { "󰃠" }
}

/// The raw level written for any requested percentage never exceeds the
/// device's maximum and never falls below the minimum percentage's share.
pub proof fn law_raw_value_within_device(max: u64, percent: u8, min_percent: u8)
    requires
        min_percent <= 100,
    ensures
        (clamp_pct(percent, min_percent) as nat * max as nat) / 100 <= max,
        (min_percent as nat * max as nat) / 100 <= (clamp_pct(percent, min_percent) as nat * max as nat) / 100,
{
    let c = clamp_pct(percent, min_percent) as nat;
    assert(min_percent <= c <= 100);
    assert((c * max as nat) / 100 <= max) by (nonlinear_arith)
        requires
            c <= 100,
    ;
    assert((min_percent as nat * max as nat) / 100 <= (c * max as nat) / 100) by (nonlinear_arith)
        requires
            min_percent <= c,
    ;
}

} // verus!
