//! Battery widget: which power supply is the battery, what its files say,
//! and how the level is shown.

use vstd::prelude::*;
use crate::launcher::{eq_ignore_ascii_case, eq_ignore_ascii_case_exec};
use crate::number::{decimal, parse_u8, spec_decimal, spec_parse_nat};
use crate::text::{
    chars_of, concat, spec_starts_with, spec_trim, spec_trim_start_matches, starts_with, str_is,
    string_of, trim, trim_start_matches,
};

verus! {

/// The battery widget's state.
#[derive(Debug)]
pub struct BatteryModule {
    pub capacity: u8,
    pub status: String,
    pub profile: String,
    pub dirty: bool,
}

impl Default for BatteryModule {
    fn default() -> (r: BatteryModule)
        ensures
            r.capacity == 0 && r.status@.len() == 0 && r.profile@.len() == 0 && !r.dirty,
    {
        BatteryModule { capacity: 0, status: String::new(), profile: String::new(), dirty: false }
    }
}

/// Whether the power supply `entry` is a battery: as its `type` file says,
/// or, when that cannot be read, as its name suggests.
pub open spec fn spec_is_battery(entry: Seq<char>, type_text: Option<Seq<char>>) -> bool {
    match type_text {
        Some(t) => eq_ignore_ascii_case(spec_trim(t), "battery"@),
        None => spec_starts_with(entry, "BAT"@) || spec_starts_with(entry, "battery"@),
    }
}

pub fn is_battery_supply(entry: &str, type_text: &Option<String>) -> (r: bool)
    ensures
        r == spec_is_battery(entry@, match type_text { Some(t) => Some(t@), None => None }),
{
    match type_text {
        Some(t) => eq_ignore_ascii_case_exec(&trim(&chars_of(t.as_str())), "battery"),
        None => {
            let e = chars_of(entry);
            starts_with(&e, &chars_of("BAT")) || starts_with(&e, &chars_of("battery"))
        },
    }
}

/// The level and status a battery's `capacity` and `status` files give: the
/// level must read as a byte; an unreadable status counts as discharging.
pub fn battery_reading(cap_text: &Option<String>, stat_text: &Option<String>) -> (r: Option<(u8, String)>)
    ensures
        match cap_text {
            Some(c) => match spec_parse_nat(spec_trim(c@)) {
                Some(n) => if n <= 255 {
                    r matches Some(p) && p.0 == n && p.1@ == match stat_text {
                        Some(s) => spec_trim(s@),
                        None => "Discharging"@,
                    }
                } else {
                    r is None
                },
                None => r is None,
            },
            None => r is None,
        },
{
    match cap_text {
        Some(c) => {
            let t = string_of(&trim(&chars_of(c.as_str())));
            match parse_u8(t.as_str()) {
                Some(cap) => {
                    let stat = match stat_text {
                        Some(s) => string_of(&trim(&chars_of(s.as_str()))),
                        None => "Discharging".to_string(),
                    };
                    Some((cap, stat))
                },
                None => None,
            }
        },
        None => None,
    }
}

/// Whether the status means the battery is on external power.
pub open spec fn spec_is_charging(status: Seq<char>) -> bool {
    status == "Charging"@ || status == "Full"@
}

impl BatteryModule {
    pub fn is_charging(&self) -> (r: bool)
        ensures
            r == spec_is_charging(self.status@),
    {
        str_is(self.status.as_str(), "Charging") || str_is(self.status.as_str(), "Full")
    }

    /// The icon name for the level.
    pub fn icon_name(&self) -> (r: &'static str)
        ensures
            r@ == (if spec_is_charging(self.status@) {
                "battery-charging"@
            } else if self.capacity <= 15 {
                "battery-caution"@
            } else if self.capacity <= 35 {
                "battery-low"@
            } else if self.capacity <= 75 {
                "battery-good"@
            } else {
                "battery-full"@
            }),
    {
        if self.is_charging() {
            "battery-charging"
        } else if self.capacity <= 15 {
            "battery-caution"
        } else if self.capacity <= 35 {
            "battery-low"
        } else if self.capacity <= 75 {
            "battery-good"
        } else {
            "battery-full"
        }
    }

    pub open spec fn spec_glyph(&self) -> Seq<char> {
        if spec_is_charging(self.status@) {
            "󰂄"@
        } else if self.capacity <= 15 {
            "󰁺"@
        } else if self.capacity <= 35 {
            "󰁼"@
        } else if self.capacity <= 75 {
            "󰂀"@
        } else {
            "󰁹"@
        }
    }

    /// The glyph for the level.
    pub fn glyph(&self) -> (r: &'static str)
        ensures
            r@ == self.spec_glyph(),
    {
        if self.is_charging() {
            "󰂄"
        } else if self.capacity <= 15 {
            "󰁺"
        } else if self.capacity <= 35 {
            "󰁼"
        } else if self.capacity <= 75 {
            "󰂀"
        } else {
            "󰁹"
        }
    }

    /// The bar text: the glyph and the level in percent.
    pub fn bar_text(&self) -> (r: String)
        ensures
            r@ == self.spec_glyph() + " "@ + spec_decimal(self.capacity as nat) + "%"@,
    {
        let a = concat(&chars_of(self.glyph()), &chars_of(" "));
        let b = concat(&a, &chars_of(decimal(self.capacity as u64).as_str()));
        string_of(&concat(&b, &chars_of("%")))
    }

    /// The popup heading: level and status.
    pub fn heading(&self) -> (r: String)
        ensures
            r@ == "Battery: "@ + spec_decimal(self.capacity as nat) + "% ("@ + self.status@ + ")"@,
    {
        let a = concat(&chars_of("Battery: "), &chars_of(decimal(self.capacity as u64).as_str()));
        let b = concat(&a, &chars_of("% ("));
        let c = concat(&b, &chars_of(self.status.as_str()));
        string_of(&concat(&c, &chars_of(")")))
    }

    /// The power profile a click asks for: the part after
    /// `battery_profile_`.
    pub fn requested_profile(&self, widget_id: &str, event: &str) -> (r: Option<String>)
        ensures
            (event@ == "click"@ && spec_starts_with(widget_id@, "battery_profile_"@)) ==> (r matches Some(p)
                && p@ == spec_trim_start_matches(widget_id@, "battery_profile_"@)),
            !(event@ == "click"@ && spec_starts_with(widget_id@, "battery_profile_"@)) ==> r is None,
    {
        if !str_is(event, "click") || !starts_with(&chars_of(widget_id), &chars_of("battery_profile_")) {
            return None;
        }
        Some(trim_start_matches(widget_id, "battery_profile_"))
    }
}

} // verus!
