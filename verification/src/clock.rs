//! Clock widget and its calendar: which month the calendar shows, the
//! six-week grid of days, and what each button asks.

use vstd::prelude::*;
use chrono::Datelike;
use std::fmt::Write;
use crate::json::Json;
use crate::number::spec_decimal;
use crate::text::{chars_of, contains, spec_contains, str_is};

verus! {

broadcast use vstd::seq_lib::group_seq_properties;

/// The clock widget's state.
#[derive(Debug)]
pub struct ClockModule {
    pub format: String,
    pub month_offset: i32,
    pub calendar_open: bool,
    pub last_text: String,
}

impl Default for ClockModule {
    fn default() -> (r: ClockModule)
        ensures
            r.format@ == "%H:%M"@ && r.month_offset == 0 && !r.calendar_open && r.last_text@.len() == 0,
    {
        ClockModule {
            format: "%H:%M".to_string(),
            month_offset: 0,
            calendar_open: false,
            last_text: String::new(),
        }
    }
}

/// The years a calendar date can have.
pub open spec fn year_in_range(y: int) -> bool {
    -262143 <= y <= 262142
}

/// Whether `y` is a leap year of the proleptic Gregorian calendar.
pub open spec fn is_leap_year(y: int) -> bool {
    y % 4 == 0 && (y % 100 != 0 || y % 400 == 0)
}

/// The number of days from 1970-01-01 to the date `y`-`m`-`d` of the
/// proleptic Gregorian calendar (years counted astronomically, with a year 0).
#[verifier::opaque]
pub open spec fn days_from_civil(y: int, m: int, d: int) -> int {
    let yy = if m <= 2 { y - 1 } else { y };
    let era = yy / 400;
    let yoe = yy - era * 400;
    let mp = (m + 9) % 12;
    let doy = (153 * mp + 2) / 5 + d - 1;
    let doe = yoe * 365 + yoe / 4 - yoe / 100 + doy;
    era * 146097 + doe - 719468
}

/// The weekday of the first day of a month, counted from Monday = 0
/// (1970-01-01 was a Thursday).
#[verifier::opaque]
pub open spec fn spec_first_weekday(year: i32, month: u32) -> u32 {
    ((days_from_civil(year as int, month as int, 1) + 3) % 7) as u32
}

/// The number of days of a month: 31, 30, or 28 or 29 for February.
pub open spec fn spec_days_in_month(year: i32, month: u32) -> u32 {
    if month == 2 {
        if is_leap_year(year as int) { 29 } else { 28 }
    } else if month == 4 || month == 6 || month == 9 || month == 11 {
        30
    } else {
        31
    }
}

/// Calls `chrono::NaiveDate::from_ymd_opt` for the first day of the month
/// and reads its weekday with `num_days_from_monday`, which chrono documents
/// as a number from Monday = 0 to Sunday = 6; chrono's dates follow the
/// proleptic Gregorian calendar, which `spec_first_weekday` counts out. The
/// date exists for every month of a year in chrono's range, so the fallback
/// is never taken.
#[verifier::external_body]
fn first_weekday(year: i32, month: u32) -> (r: u32)
    requires
        1 <= month <= 12,
        year_in_range(year as int),
    ensures
        r == spec_first_weekday(year, month),
        r < 7,
{
    match chrono::NaiveDate::from_ymd_opt(year, month, 1) {
        Some(d) => d.weekday().num_days_from_monday(),
        None => 0,
    }
}

/// Calls `chrono::NaiveDate::from_ymd_opt` for the first day of the month
/// and `Datelike::num_days_in_month` on it, which takes the length from
/// chrono's `Month::num_days`: 31, 30, or 28 or 29 for February by the
/// Gregorian leap-year rule, as `spec_days_in_month` states.
#[verifier::external_body]
fn days_in_month(year: i32, month: u32) -> (r: u32)
    requires
        1 <= month <= 12,
        year_in_range(year as int),
    ensures
        r == spec_days_in_month(year, month),
        28 <= r <= 31,
{
    match chrono::NaiveDate::from_ymd_opt(year, month, 1) {
        Some(d) => d.num_days_in_month() as u32,
        None => 31,
    }
}

/// The month `offset` months away from `month` of `year`: the pair
/// `(y, m)` with `1 <= m <= 12` and `12 * y + m - 1` moved by `offset`.
pub open spec fn spec_shift_month(year: int, month: int, offset: int, y: int, m: int) -> bool {
    1 <= m <= 12 && 12 * y + (m - 1) == 12 * year + (month - 1) + offset
}

/// The month shown when the calendar is `offset` months away from the
/// current one.
pub fn shift_month(year: i32, month: u32, offset: i32) -> (r: (i32, u32))
    requires
        1 <= month <= 12,
        year_in_range(year as int),
    ensures
        spec_shift_month(year as int, month as int, offset as int, r.0 as int, r.1 as int),
{
    let mut y: i64 = year as i64;
    let mut m: i64 = month as i64 + offset as i64;
    let ghost m0: int = month as int + offset as int;
    while m < 1
        invariant
            12 * y + (m - 1) == 12 * (year as int) + (month - 1) + offset,
            m0 == month as int + offset as int,
            m0 <= m,
            m <= 12 || m == m0,
            year_in_range(year as int),
        decreases 12 - m,
    {
        m = m + 12;
        y = y - 1;
    }
    while m > 12
        invariant
            12 * y + (m - 1) == 12 * (year as int) + (month - 1) + offset,
            m0 == month as int + offset as int,
            1 <= m,
            m <= 12 || m <= m0,
            year_in_range(year as int),
        decreases m,
    {
        m = m - 12;
        y = y + 1;
    }
    (y as i32, m as u32)
}

/// One cell of the calendar grid.
#[derive(Debug, Clone, Copy, PartialEq, Eq)]
pub enum DayCell {
    /// A day of the month before, shown dimmed.
    Previous(u32),
    /// A day of the shown month, marked when it is today.
    Current { day: u32, today: bool },
    /// A day of the month after, shown dimmed.
    Next(u32),
}

/// The `i`-th of the 42 cells of a month that starts on weekday `w`
/// (Monday = 0), has `n` days and follows a month of `prev` days.
pub open spec fn spec_cell(i: int, w: int, n: int, prev: int, today: Option<u32>) -> DayCell {
    if i < w {
        DayCell::Previous((prev - w + 1 + i) as u32)
    } else if i < w + n {
        DayCell::Current { day: (i - w + 1) as u32, today: today == Some((i - w + 1) as u32) }
    } else {
        DayCell::Next((i - w - n + 1) as u32)
    }
}

/// The six weeks of cells the calendar shows for a month.
pub fn month_cells(w: u32, n: u32, prev: u32, today: Option<u32>) -> (r: Vec<DayCell>)
    requires
        w < 7,
        28 <= n <= 31,
        28 <= prev <= 31,
    ensures
        r@.len() == 42,
        forall|i: int| 0 <= i < 42 ==> r@[i] == spec_cell(i, w as int, n as int, prev as int, today),
{
    let mut cells: Vec<DayCell> = Vec::new();
    let mut i: u32 = 0;
    while i < 42
        invariant
            w < 7,
            28 <= n <= 31,
            28 <= prev <= 31,
            i <= 42,
            cells@.len() == i,
            forall|j: int| 0 <= j < i ==> cells@[j] == spec_cell(j, w as int, n as int, prev as int, today),
        decreases 42 - i,
    {
        let cell = if i < w {
            DayCell::Previous(prev - w + 1 + i)
        } else if i < w + n {
            let d = i - w + 1;
            DayCell::Current { day: d, today: today == Some(d) }
        } else {
            DayCell::Next(i - w - n + 1)
        };
        cells.push(cell);
        i = i + 1;
    }
    cells
}

impl ClockModule {
    /// The year and month the calendar shows, given today's.
    pub fn shown_month(&self, year: i32, month: u32) -> (r: (i32, u32))
        requires
            1 <= month <= 12,
            year_in_range(year as int),
        ensures
            spec_shift_month(year as int, month as int, self.month_offset as int, r.0 as int, r.1 as int),
    {
        shift_month(year, month, self.month_offset)
    }

    /// The calendar grid for the shown month, given today's date; today is
    /// marked only on the current month's page.
    pub fn calendar_cells(&self, year: i32, month: u32, day: u32) -> (r: Option<Vec<DayCell>>)
        requires
            1 <= month <= 12,
            year_in_range(year as int),
        ensures
            r matches Some(cells) ==> {
                let (y, m) = shown_month_spec(year, month, self.month_offset);
                let (py, pm) = if m == 1 { (y - 1, 12int) } else { (y, m - 1) };
                &&& cells@.len() == 42
                &&& forall|i: int| 0 <= i < 42 ==> cells@[i] == spec_cell(
                    i,
                    spec_first_weekday(y as i32, m as u32) as int,
                    spec_days_in_month(y as i32, m as u32) as int,
                    spec_days_in_month(py as i32, pm as u32) as int,
                    if self.month_offset == 0 { Some(day) } else { None },
                )
            },
            r is None <==> !(year_in_range(shown_month_spec(year, month, self.month_offset).0) && year_in_range(
                shown_month_spec(year, month, self.month_offset).0 - 1,
            )),
    {
        let (y, m) = shift_month(year, month, self.month_offset);
        proof {
            lemma_shift_unique(year as int, month as int, self.month_offset as int, y as int, m as int);
        }
        if y < -262142 || y > 262142 {
            return None;
        }
        let (py, pm) = if m == 1 { (y - 1, 12u32) } else { (y, m - 1) };
        let w = first_weekday(y, m);
        let n = days_in_month(y, m);
        let prev = days_in_month(py, pm);
        let today = if self.month_offset == 0 { Some(day) } else { None };
        Some(month_cells(w, n, prev, today))
    }
}

/// The month `offset` months from `month` of `year`, as a pair.
pub open spec fn shown_month_spec(year: i32, month: u32, offset: i32) -> (int, int) {
    let t = 12 * (year as int) + (month as int - 1) + offset as int;
    (t / 12, t % 12 + 1)
}

proof fn lemma_shift_unique(year: int, month: int, offset: int, y: int, m: int)
    requires
        spec_shift_month(year, month, offset, y, m),
    ensures
        y == (12 * year + (month - 1) + offset) / 12,
        m == (12 * year + (month - 1) + offset) % 12 + 1,
{
    let t = 12 * year + (month - 1) + offset;
    vstd::arithmetic::div_mod::lemma_fundamental_div_mod_converse(t, 12, y, m - 1);
}

/// What a calendar event asks for.
#[derive(Debug, PartialEq, Eq)]
pub enum CalendarAction {
    /// Draw the calendar.
    Show,
    Nothing,
}

pub open spec fn is_calendar_widget(w: Seq<char>) -> bool {
    w == "calendar"@ || w == "popup:calendar"@
}

pub open spec fn is_prev(w: Seq<char>) -> bool {
    w == "cal_prev"@ || w == "popup:cal-prev"@ || spec_contains(w, "prev"@)
}

pub open spec fn is_next(w: Seq<char>) -> bool {
    w == "cal_next"@ || w == "popup:cal-next"@ || spec_contains(w, "next"@)
}

pub open spec fn is_today(w: Seq<char>) -> bool {
    w == "cal_today"@ || w == "popup:cal-today"@ || spec_contains(w, "today"@)
}

impl ClockModule {
    /// Opens or closes the calendar, or moves it a month back, forward or
    /// to the current month.
    pub fn on_event(&mut self, widget_id: &str, event: &str) -> (r: CalendarAction)
        requires
            !(is_calendar_widget(widget_id@) && (event@ == "open"@ || event@ == "close"@)) && is_prev(widget_id@)
                ==> old(self).month_offset > i32::MIN,
            !(is_calendar_widget(widget_id@) && (event@ == "open"@ || event@ == "close"@)) && !is_prev(widget_id@)
                && is_next(widget_id@) ==> old(self).month_offset < i32::MAX,
        ensures
            final(self).format == old(self).format,
            final(self).last_text == old(self).last_text,
            if is_calendar_widget(widget_id@) && event@ == "open"@ {
                r is Show && final(self).calendar_open && final(self).month_offset == old(self).month_offset
            } else if is_calendar_widget(widget_id@) && event@ == "close"@ {
                r is Nothing && !final(self).calendar_open && final(self).month_offset == old(self).month_offset
            } else if is_prev(widget_id@) {
                r is Show && final(self).month_offset == old(self).month_offset - 1
                    && final(self).calendar_open == old(self).calendar_open
            } else if is_next(widget_id@) {
                r is Show && final(self).month_offset == old(self).month_offset + 1
                    && final(self).calendar_open == old(self).calendar_open
            } else if is_today(widget_id@) {
                r is Show && final(self).month_offset == 0 && final(self).calendar_open == old(self).calendar_open
            } else {
                r is Nothing && final(self).month_offset == old(self).month_offset
                    && final(self).calendar_open == old(self).calendar_open
            },
    {
        let w = chars_of(widget_id);
        if str_is(widget_id, "calendar") || str_is(widget_id, "popup:calendar") {
            if str_is(event, "open") {
                self.calendar_open = true;
                return CalendarAction::Show;
            } else if str_is(event, "close") {
                self.calendar_open = false;
                return CalendarAction::Nothing;
            }
        }
        if str_is(widget_id, "cal_prev") || str_is(widget_id, "popup:cal-prev") || contains(&w, &chars_of("prev")) {
            self.month_offset = self.month_offset - 1;
            CalendarAction::Show
        } else if str_is(widget_id, "cal_next") || str_is(widget_id, "popup:cal-next") || contains(&w, &chars_of("next")) {
            self.month_offset = self.month_offset + 1;
            CalendarAction::Show
        } else if str_is(widget_id, "cal_today") || str_is(widget_id, "popup:cal-today") || contains(&w, &chars_of("today")) {
            self.month_offset = 0;
            CalendarAction::Show
        } else {
            CalendarAction::Nothing
        }
    }

    /// The clock text for the bar, from the formatted time and date; `None`
    /// when it is the text already shown.
    pub fn next_text(&mut self, time: &str, date: &str) -> (r: Option<String>)
        ensures
            ({
                let full = time@ + " • "@ + date@;
                if full == old(self).last_text@ {
                    r is None && final(self).last_text == old(self).last_text
                } else {
                    r matches Some(t) && t@ == full && final(self).last_text@ == full
                }
            }),
            final(self).month_offset == old(self).month_offset,
            final(self).calendar_open == old(self).calendar_open,
            final(self).format == old(self).format,
    {
        let a = crate::text::concat(&chars_of(time), &chars_of(" • "));
        let full = crate::text::concat(&a, &chars_of(date));
        if crate::text::chars_eq(&full, &chars_of(self.last_text.as_str())) {
            return None;
        }
        let s = crate::text::string_of(&full);
        self.last_text = s.clone();
        Some(s)
    }
}

/// The text chrono writes for the instant `ms` milliseconds after the epoch
/// (the epoch itself when chrono cannot hold the instant) with the
/// strftime-style format `fmt`; `None` when chrono refuses the format.
pub uninterp spec fn spec_format_millis(ms: i64, fmt: Seq<char>) -> Option<Seq<char>>;

/// The proleptic Gregorian date `days` days after 1970-01-01.
#[verifier::opaque]
pub open spec fn civil_from_days(days: int) -> (int, int, int) {
    let z = days + 719468;
    let era = z / 146097;
    let doe = z - era * 146097;
    let yoe = (doe - doe / 1460 + doe / 36524 - doe / 146096) / 365;
    let doy = doe - (365 * yoe + yoe / 4 - yoe / 100);
    let mp = (5 * doy + 2) / 153;
    let d = doy - (153 * mp + 2) / 5 + 1;
    let m = if mp < 10 { mp + 3 } else { mp - 9 };
    (if m <= 2 { yoe + era * 400 + 1 } else { yoe + era * 400 }, m, d)
}

/// The year, month and day (UTC) of the instant `ms` milliseconds after the
/// epoch; the epoch's when that day lies outside chrono's years.
pub open spec fn spec_date_of_millis(ms: i64) -> (i32, u32, u32) {
    let (y, m, d) = civil_from_days(ms as int / 86_400_000);
    if year_in_range(y) { (y as i32, m as u32, d as u32) } else { (1970, 1, 1) }
}

/// The English name of month `m`.
pub open spec fn month_name(m: u32) -> Seq<char> {
    if m == 1 { "January"@ } else if m == 2 { "February"@ } else if m == 3 { "March"@ }
    else if m == 4 { "April"@ } else if m == 5 { "May"@ } else if m == 6 { "June"@ }
    else if m == 7 { "July"@ } else if m == 8 { "August"@ } else if m == 9 { "September"@ }
    else if m == 10 { "October"@ } else if m == 11 { "November"@ } else { "December"@ }
}

/// `s` with zeros put in front up to `n` characters.
pub open spec fn zero_padded(s: Seq<char>, n: nat) -> Seq<char> {
    if s.len() >= n { s } else { Seq::new((n - s.len()) as nat, |i: int| '0') + s }
}

/// A year as chrono's `%Y` writes it: four digits with leading zeros from 0
/// to 9999, else with a sign (`-` or `+`) before at least four digits.
pub open spec fn year_text(y: int) -> Seq<char> {
    if 0 <= y < 10000 {
        zero_padded(spec_decimal(y as nat), 4)
    } else if y < 0 {
        "-"@ + zero_padded(spec_decimal((-y) as nat), 4)
    } else {
        "+"@ + zero_padded(spec_decimal(y as nat), 4)
    }
}

/// The month and year of the first day of a month, as chrono writes
/// `%B %Y` in its default English names.
pub open spec fn spec_month_title(year: i32, month: u32) -> Seq<char> {
    month_name(month) + " "@ + year_text(year as int)
}

/// Calls `chrono::DateTime::from_timestamp_millis` (falling back to
/// `DateTime::UNIX_EPOCH` when it gives `None`) and writes its `format(fmt)`
/// into a string. The write fails exactly when chrono's formatter reports
/// an error, which it does for a format it cannot read; that error becomes
/// `None`. The contract names the result and says nothing else of it.
#[verifier::external_body]
fn format_millis(ms: i64, fmt: &str) -> (r: Option<String>)
    ensures
        match r {
            Some(s) => spec_format_millis(ms, fmt@) == Some(s@),
            None => spec_format_millis(ms, fmt@) is None,
        },
{
    let dt = chrono::DateTime::from_timestamp_millis(ms).unwrap_or(chrono::DateTime::UNIX_EPOCH);
    let mut s = String::new();
    match write!(s, "{}", dt.format(fmt)) {
        Ok(()) => Some(s),
        Err(_) => None,
    }
}

/// Calls `chrono::DateTime::from_timestamp_millis` (falling back to
/// `DateTime::UNIX_EPOCH`) and reads `year()`, `month()` and `day()`, which
/// chrono documents as a month from 1 to 12 and a day from 1 to 31; its
/// dates keep the year within chrono's range. chrono counts whole days from
/// the epoch (`div_euclid`) on the proleptic Gregorian calendar and gives
/// `None` past its years, as `spec_date_of_millis` states.
#[verifier::external_body]
fn date_of_millis(ms: i64) -> (r: (i32, u32, u32))
    ensures
        r == spec_date_of_millis(ms),
        1 <= r.1 <= 12,
        1 <= r.2 <= 31,
        year_in_range(r.0 as int),
{
    let dt = chrono::DateTime::from_timestamp_millis(ms).unwrap_or(chrono::DateTime::UNIX_EPOCH);
    (dt.year(), dt.month(), dt.day())
}

/// Calls `chrono::NaiveDate::from_ymd_opt` for the first day of the month
/// and writes it with the format `%B %Y`: chrono's English month name, a
/// space, and the year as its `write_year` writes it, as `spec_month_title`
/// states. The date exists for every month of a year in chrono's range, so
/// the empty fallback is never taken.
#[verifier::external_body]
fn month_title(year: i32, month: u32) -> (r: String)
    requires
        1 <= month <= 12,
        year_in_range(year as int),
    ensures
        r@ == spec_month_title(year, month),
{
    match chrono::NaiveDate::from_ymd_opt(year, month, 1) {
        Some(d) => d.format("%B %Y").to_string(),
        None => String::new(),
    }
}

/// The local time in milliseconds: the clock's reading moved by the local
/// offset.
pub fn local_millis(now_ms: u64, offset_s: i32) -> (r: i64)
    requires
        now_ms <= i64::MAX,
        now_ms + offset_s * 1000 <= i64::MAX,
    ensures
        r == now_ms + offset_s * 1000,
{
    (now_ms as i64) + (offset_s as i64) * 1000
}

pub open spec fn or_empty(o: Option<Seq<char>>) -> Seq<char> {
    match o {
        Some(s) => s,
        None => Seq::empty(),
    }
}

fn or_empty_exec(o: Option<String>) -> (r: String)
    ensures
        r@ == or_empty(match o {
            Some(s) => Some(s@),
            None => None,
        }),
{
    match o {
        Some(s) => s,
        None => String::new(),
    }
}

/// What the clock widget shows at one moment.
#[derive(Debug)]
pub struct ClockUpdate {
    pub text: String,
    pub time: String,
    pub date: String,
    pub year: i32,
    pub month: u32,
    pub day: u32,
    pub month_name: String,
    pub day_name: String,
    pub tooltip: String,
}

/// The format of the date beside the time.
pub open spec fn date_format() -> Seq<char> {
    "%a, %d %b"@
}

impl ClockModule {
    /// Takes the time format from the module's configuration, when given.
    pub fn apply_config(&mut self, config: &Json)
        ensures
            final(self).format@ == match config.spec_get("format"@) {
                Some(Json::Str(f)) => f@,
                _ => old(self).format@,
            },
            final(self).month_offset == old(self).month_offset,
            final(self).calendar_open == old(self).calendar_open,
            final(self).last_text == old(self).last_text,
    {
        if let Some(Json::Str(f)) = config.get("format") {
            self.format = f.clone();
        }
    }

    /// The clock at local time `ms`: its time in the configured format and
    /// its date; `None` when that text is already shown, or when chrono
    /// refuses the configured format.
    pub fn render(&mut self, ms: i64) -> (r: Option<ClockUpdate>)
        ensures
            final(self).format == old(self).format,
            final(self).month_offset == old(self).month_offset,
            final(self).calendar_open == old(self).calendar_open,
            match (spec_format_millis(ms, old(self).format@), spec_format_millis(ms, date_format())) {
                (Some(t), Some(d)) => {
                    let full = t + " • "@ + d;
                    if full == old(self).last_text@ {
                        r is None && final(self).last_text == old(self).last_text
                    } else {
                        r matches Some(u) && u.text@ == full && u.time@ == t && u.date@ == d
                            && (u.year, u.month, u.day) == spec_date_of_millis(ms)
                            && u.month_name@ == or_empty(spec_format_millis(ms, "%B"@))
                            && u.day_name@ == or_empty(spec_format_millis(ms, "%A"@))
                            && u.tooltip@ == or_empty(spec_format_millis(ms, "%Y-%m-%d %A"@))
                            && final(self).last_text@ == full
                    }
                },
                _ => r is None && final(self).last_text == old(self).last_text,
            },
    {
        let time = match format_millis(ms, self.format.as_str()) {
            Some(t) => t,
            None => return None,
        };
        let date = match format_millis(ms, "%a, %d %b") {
            Some(d) => d,
            None => return None,
        };
        match self.next_text(time.as_str(), date.as_str()) {
            None => None,
            Some(text) => {
                let (year, month, day) = date_of_millis(ms);
                Some(ClockUpdate {
                    text,
                    time,
                    date,
                    year,
                    month,
                    day,
                    month_name: or_empty_exec(format_millis(ms, "%B")),
                    day_name: or_empty_exec(format_millis(ms, "%A")),
                    tooltip: or_empty_exec(format_millis(ms, "%Y-%m-%d %A")),
                })
            },
        }
    }
}

/// What the calendar popup shows above its grid.
#[derive(Debug)]
pub struct CalendarPage {
    /// The time now, `%H:%M:%S`.
    pub now_time: String,
    /// Today in full, `%A, %d %B %Y`.
    pub today: String,
    /// The shown month, `%B %Y`.
    pub title: String,
    /// The six weeks of the shown month.
    pub cells: Vec<DayCell>,
}

impl ClockModule {
    /// The calendar page at local time `ms`; `None` when the shown month
    /// lies beyond the years chrono can hold.
    pub fn calendar_page(&self, ms: i64) -> (r: Option<CalendarPage>)
        ensures
            ({
                let (y, m, d) = spec_date_of_millis(ms);
                let (sy, sm) = shown_month_spec(y, m, self.month_offset);
                &&& r is None <==> !(year_in_range(sy) && year_in_range(sy - 1))
                &&& r matches Some(p) ==> p.now_time@ == or_empty(spec_format_millis(ms, "%H:%M:%S"@))
                    && p.today@ == or_empty(spec_format_millis(ms, "%A, %d %B %Y"@))
                    && p.title@ == spec_month_title(sy as i32, sm as u32)
                    && p.cells@.len() == 42
                &&& r matches Some(p) ==> {
                    let (py, pm) = if sm == 1 { (sy - 1, 12int) } else { (sy, sm - 1) };
                    forall|i: int| 0 <= i < 42 ==> p.cells@[i] == spec_cell(
                        i,
                        spec_first_weekday(sy as i32, sm as u32) as int,
                        spec_days_in_month(sy as i32, sm as u32) as int,
                        spec_days_in_month(py as i32, pm as u32) as int,
                        if self.month_offset == 0 { Some(d) } else { None },
                    )
                }
            }),
    {
        let (y, m, d) = date_of_millis(ms);
        let cells = match self.calendar_cells(y, m, d) {
            Some(c) => c,
            None => return None,
        };
        let (sy, sm) = shift_month(y, m, self.month_offset);
        proof {
            lemma_shift_unique(y as int, m as int, self.month_offset as int, sy as int, sm as int);
        }
        Some(CalendarPage {
            now_time: or_empty_exec(format_millis(ms, "%H:%M:%S")),
            today: or_empty_exec(format_millis(ms, "%A, %d %B %Y")),
            title: month_title(sy, sm),
            cells,
        })
    }
}

} // verus!
