//! The date normalizer: parses a calendar-date string (`YYYY-MM-DD`),
//! validates it against the proleptic Gregorian calendar, and anchors it to
//! local midnight of a reference timezone, rejecting dates whose local
//! midnight is skipped or repeated by a daylight-saving transition.

use crate::errors::ArticleError;
use crate::text::{digit_char, no_delim, spec_dec2, spec_dec4};
use chrono::Datelike;
use vstd::prelude::*;

verus! {

/// Gregorian leap year rule.
pub open spec fn is_leap_year(y: int) -> bool {
    (y % 4 == 0 && y % 100 != 0) || y % 400 == 0
}

/// Number of days in month `m` of year `y`.
pub open spec fn days_in_month(y: int, m: int) -> int {
    if m == 2 {
        if is_leap_year(y) {
            29
        } else {
            28
        }
    } else if m == 4 || m == 6 || m == 9 || m == 11 {
        30
    } else {
        31
    }
}

/// A calendar date that exists and can be written as `YYYY-MM-DD`.
pub open spec fn valid_date(y: int, m: int, d: int) -> bool {
    0 <= y <= 9999 && 1 <= m <= 12 && 1 <= d <= days_in_month(y, m)
}

/// The ghost value of an [`ArticleDate`].
pub struct DateView {
    pub y: int,
    pub m: int,
    pub d: int,
}

/// A plain calendar date; article dates always denote local midnight of this
/// date in the reference timezone.
#[derive(Debug, Clone, Copy, PartialEq, Eq, Structural)]
pub struct ArticleDate {
    pub year: i32,
    pub month: u32,
    pub day: u32,
}

impl View for ArticleDate {
    type V = DateView;

    open spec fn view(&self) -> DateView {
        DateView { y: self.year as int, m: self.month as int, d: self.day as int }
    }
}

impl DateView {
    /// The date exists in the calendar.
    pub open spec fn wf(self) -> bool {
        valid_date(self.y, self.m, self.d)
    }
}

impl ArticleDate {
    /// The date exists in the calendar.
    pub open spec fn wf(self) -> bool {
        self@.wf()
    }

    /// Builds a date, checking it against the calendar.
    pub fn new(year: i32, month: u32, day: u32) -> (r: Option<ArticleDate>)
        ensures
            valid_date(year as int, month as int, day as int) ==> (r matches Some(d)
                && d@ == (DateView { y: year as int, m: month as int, d: day as int })),
            !valid_date(year as int, month as int, day as int) ==> r is None,
    {
        if date_parts_valid(year, month, day) {
            Some(ArticleDate { year, month, day })
        } else {
            None
        }
    }

    /// Renders the date as `YYYY-MM-DD`.
    pub fn format(&self) -> (r: String)
        requires
            self.wf(),
        ensures
            r@ == spec_format_date(self@),
    {
        let mut out = String::new();
        let y = self.year as u32;
        proof {
            reveal_strlit("-");
            assert("-"@ =~= seq!['-']);
            assert(y as int == self@.y);
        }
        crate::text::push_digit(&mut out, y / 1000);
        crate::text::push_digit(&mut out, (y / 100) % 10);
        crate::text::push_digit(&mut out, (y / 10) % 10);
        crate::text::push_digit(&mut out, y % 10);
        out.append("-");
        crate::text::push_digit(&mut out, self.month / 10);
        crate::text::push_digit(&mut out, self.month % 10);
        out.append("-");
        crate::text::push_digit(&mut out, self.day / 10);
        crate::text::push_digit(&mut out, self.day % 10);
        proof {
            assert(out@ =~= spec_format_date(self@));
        }
        out
    }
}

/// Whether `(y, m, d)` is a real calendar date.
pub fn date_parts_valid(y: i32, m: u32, d: u32) -> (r: bool)
    ensures
        r == valid_date(y as int, m as int, d as int),
{
    if !(0 <= y && y <= 9999 && 1 <= m && m <= 12 && 1 <= d) {
        return false;
    }
    let leap: bool = (y % 4 == 0 && y % 100 != 0) || y % 400 == 0;
    let max_day: u32 = if m == 2 {
        if leap {
            29
        } else {
            28
        }
    } else if m == 4 || m == 6 || m == 9 || m == 11 {
        30
    } else {
        31
    };
    d <= max_day
}

/// The `YYYY-MM-DD` rendering of a date.
pub open spec fn spec_format_date(v: DateView) -> Seq<char> {
    spec_dec4(v.y) + seq!['-'] + spec_dec2(v.m) + seq!['-'] + spec_dec2(v.d)
}

/// A character is a decimal digit.
pub open spec fn is_digit(c: char) -> bool {
    '0' <= c <= '9'
}

/// The numeric value of a digit character.
pub open spec fn dval(c: char) -> int {
    c as int - 48
}

/// The date denoted by a `YYYY-MM-DD` string, if it has exactly that shape
/// and exists in the calendar.
pub open spec fn spec_parse_date(s: Seq<char>) -> Option<DateView> {
    if s.len() == 10 && is_digit(s[0]) && is_digit(s[1]) && is_digit(s[2]) && is_digit(s[3])
        && s[4] == '-' && is_digit(s[5]) && is_digit(s[6]) && s[7] == '-' && is_digit(s[8])
        && is_digit(s[9]) {
        let y = dval(s[0]) * 1000 + dval(s[1]) * 100 + dval(s[2]) * 10 + dval(s[3]);
        let m = dval(s[5]) * 10 + dval(s[6]);
        let d = dval(s[8]) * 10 + dval(s[9]);
        if valid_date(y, m, d) {
            Some(DateView { y, m, d })
        } else {
            None
        }
    } else {
        None
    }
}

/// Reads the digit at position `i`, or reports that it is not a digit.
fn digit_at(s: &str, i: usize) -> (r: Option<u32>)
    requires
        i < s@.len(),
    ensures
        match r {
            Some(v) => is_digit(s@[i as int]) && v == dval(s@[i as int]) && v < 10,
            None => !is_digit(s@[i as int]),
        },
{
    let c = s.get_char(i);
    if '0' <= c && c <= '9' {
        Some((c as u32) - 48)
    } else {
        None
    }
}

/// Parses a `YYYY-MM-DD` string into a calendar date.
pub fn parse_date(s: &str) -> (r: Option<ArticleDate>)
    ensures
        match r {
            Some(d) => spec_parse_date(s@) == Some(d@) && d.wf(),
            None => spec_parse_date(s@) is None,
        },
{
    let n = s.unicode_len();
    if n != 10 {
        return None;
    }
    if !(s.get_char(4) == '-' && s.get_char(7) == '-') {
        return None;
    }
    let d0 = match digit_at(s, 0) {
        Some(v) => v,
        None => {
            return None;
        },
    };
    let d1 = match digit_at(s, 1) {
        Some(v) => v,
        None => {
            return None;
        },
    };
    let d2 = match digit_at(s, 2) {
        Some(v) => v,
        None => {
            return None;
        },
    };
    let d3 = match digit_at(s, 3) {
        Some(v) => v,
        None => {
            return None;
        },
    };
    let m0 = match digit_at(s, 5) {
        Some(v) => v,
        None => {
            return None;
        },
    };
    let m1 = match digit_at(s, 6) {
        Some(v) => v,
        None => {
            return None;
        },
    };
    let e0 = match digit_at(s, 8) {
        Some(v) => v,
        None => {
            return None;
        },
    };
    let e1 = match digit_at(s, 9) {
        Some(v) => v,
        None => {
            return None;
        },
    };
    let y: u32 = d0 * 1000 + d1 * 100 + d2 * 10 + d3;
    let m: u32 = m0 * 10 + m1;
    let d: u32 = e0 * 10 + e1;
    if date_parts_valid(y as i32, m, d) {
        Some(ArticleDate { year: y as i32, month: m, day: d })
    } else {
        None
    }
}

/// Formatting a valid date and parsing it back yields the same date.
#[verifier::rlimit(100)]
pub proof fn lemma_date_roundtrip(v: DateView)
    requires
        v.wf(),
    ensures
        spec_parse_date(spec_format_date(v)) == Some(v),
{
    let s = spec_format_date(v);
    assert(s.len() == 10);
    lemma_digit_char_value(v.y / 1000);
    lemma_digit_char_value((v.y / 100) % 10);
    lemma_digit_char_value((v.y / 10) % 10);
    lemma_digit_char_value(v.y % 10);
    lemma_digit_char_value(v.m / 10);
    lemma_digit_char_value(v.m % 10);
    lemma_digit_char_value(v.d / 10);
    lemma_digit_char_value(v.d % 10);
    assert(s[4] == '-' && s[7] == '-');
    assert(dval(s[0]) * 1000 + dval(s[1]) * 100 + dval(s[2]) * 10 + dval(s[3]) == v.y);
    assert(dval(s[5]) * 10 + dval(s[6]) == v.m);
    assert(dval(s[8]) * 10 + dval(s[9]) == v.d);
}

/// A digit character has the digit's value and is a digit.
pub proof fn lemma_digit_char_value(n: int)
    requires
        0 <= n <= 9,
    ensures
        is_digit(digit_char(n)),
        dval(digit_char(n)) == n,
        digit_char(n) != '-',
        digit_char(n) != '\n',
        digit_char(n) != ':',
        !crate::text::is_space(digit_char(n)),
{
    assert(((48 + n) as u8) as char as int == 48 + n);
}

/// The formatted date contains no delimiter, no newline, no colon, and is
/// clean of surrounding whitespace.
pub proof fn lemma_format_date_chars(v: DateView)
    requires
        v.wf(),
    ensures
        no_delim(spec_format_date(v)),
        forall|i: int|
            0 <= i < spec_format_date(v).len() ==> spec_format_date(v)[i] != '\n',
        crate::text::is_clean(spec_format_date(v)),
        spec_format_date(v).len() == 10,
{
    let s = spec_format_date(v);
    lemma_digit_char_value(v.y / 1000);
    lemma_digit_char_value((v.y / 100) % 10);
    lemma_digit_char_value((v.y / 10) % 10);
    lemma_digit_char_value(v.y % 10);
    lemma_digit_char_value(v.m / 10);
    lemma_digit_char_value(v.m % 10);
    lemma_digit_char_value(v.d / 10);
    lemma_digit_char_value(v.d % 10);
    assert(!crate::text::is_space('-'));
    assert forall|i: int| !crate::text::delim_at(s, i) by {
        if 0 <= i && i + 3 <= s.len() {
            assert(is_digit(s[0]) && is_digit(s[1]) && is_digit(s[2]) && is_digit(s[3]));
            assert(is_digit(s[5]) && is_digit(s[6]) && is_digit(s[8]) && is_digit(s[9]));
        }
    }
}

/// A zone name is listed in the timezone table.
pub uninterp spec fn spec_zone_known(name: Seq<char>) -> bool;

/// Local midnight of the given calendar date in the named zone is a single
/// unambiguous instant.
pub uninterp spec fn spec_midnight_unique(name: Seq<char>, y: int, m: int, d: int) -> bool;

/// Relies on `chrono_tz::Tz`'s `FromStr` implementation: a lookup in the
/// compiled-in timezone table, succeeding exactly for the table's names.
#[verifier::external_body]
pub fn zone_exists(name: &str) -> (r: bool)
    ensures
        r == spec_zone_known(name@),
{
    name.parse::<chrono_tz::Tz>().is_ok()
}

/// Relies on `chrono::TimeZone::with_ymd_and_hms` for `chrono_tz::Tz`: the
/// compiled-in timezone database resolves local midnight of the date to a
/// single instant exactly when that local time is neither skipped nor
/// repeated by an offset transition; the answer depends only on the zone
/// name and the date.
#[verifier::external_body]
pub fn local_midnight_is_unique(zone: &str, y: i32, m: u32, d: u32) -> (r: bool)
    requires
        spec_zone_known(zone@),
        valid_date(y as int, m as int, d as int),
    ensures
        r == spec_midnight_unique(zone@, y as int, m as int, d as int),
{
    match zone.parse::<chrono_tz::Tz>() {
        Ok(tz) => (matches!(
            chrono::TimeZone::with_ymd_and_hms(&tz, y, m, d, 0, 0, 0),
            chrono::LocalResult::Single(_)
        )),
        Err(_) => false,
    }
}

/// Relies on `chrono::Utc::now` and `chrono::DateTime::with_timezone` with a
/// `chrono_tz::Tz`: returns the current calendar date in the given zone. The
/// clock makes the answer change from call to call, so nothing is promised
/// of it; callers validate the returned parts themselves.
#[verifier::external_body]
pub fn today_in_zone(zone: &str) -> (r: (i32, u32, u32))
    requires
        spec_zone_known(zone@),
{
    let tz: chrono_tz::Tz = zone.parse().unwrap_or(chrono_tz::Tz::UTC);
    let now = chrono::Utc::now().with_timezone(&tz);
    (now.year(), now.month(), now.day())
}

/// The timezone against which every date-only field is resolved.
pub struct ReferenceZone {
    pub name: String,
}

impl ReferenceZone {
    /// The zone's name is in the timezone table.
    pub open spec fn wf(&self) -> bool {
        spec_zone_known(self.name@)
    }

    /// Builds a reference zone, checking the name against the timezone
    /// table.
    pub fn new(name: String) -> (r: Option<ReferenceZone>)
        ensures
            spec_zone_known(name@) ==> (r matches Some(z) && z.name@ == name@ && z.wf()),
            !spec_zone_known(name@) ==> r is None,
    {
        if zone_exists(name.as_str()) {
            Some(ReferenceZone { name })
        } else {
            None
        }
    }
}

/// The result of normalizing the date string `s` against the zone `zone`:
/// the parsed calendar date, or the error owed for that input.
pub open spec fn spec_normalize(s: Seq<char>, zone: Seq<char>) -> Result<DateView, ArticleError> {
    match spec_parse_date(s) {
        None => Err(ArticleError::InvalidDateFormat),
        Some(v) => if spec_midnight_unique(zone, v.y, v.m, v.d) {
            Ok(v)
        } else {
            Err(ArticleError::AmbiguousLocalTime)
        },
    }
}

/// Parses a date-only string and anchors it to local midnight of the
/// reference zone, rejecting strings of any other shape and dates whose
/// local midnight is ambiguous or nonexistent.
pub fn normalize(s: &str, zone: &ReferenceZone) -> (r: Result<ArticleDate, ArticleError>)
    requires
        zone.wf(),
    ensures
        match r {
            Ok(d) => spec_normalize(s@, zone.name@) == Ok::<DateView, ArticleError>(d@)
                && d.wf(),
            Err(e) => spec_normalize(s@, zone.name@) == Err::<DateView, ArticleError>(e),
        },
{
    match parse_date(s) {
        None => Err(ArticleError::InvalidDateFormat),
        Some(d) => {
            if local_midnight_is_unique(zone.name.as_str(), d.year, d.month, d.day) {
                Ok(d)
            } else {
                Err(ArticleError::AmbiguousLocalTime)
            }
        },
    }
}

} // verus!
