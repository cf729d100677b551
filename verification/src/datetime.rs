//! Calendar timestamps as plain values, with a validity invariant and a
//! parser for the `YYYY-MM-DDTHH:MM:SS` + UTC-suffix text the activity feed
//! carries.

use vstd::prelude::*;

use crate::parse::{lemma_digits_val_bound, lemma_pow10_mono, parse_digits, spec_all_digits,
    spec_digits_val, spec_pow10};

verus! {

/// A UTC wall-clock instant, held as civil calendar fields.
#[derive(Clone, Copy, Debug, PartialEq, Eq, Structural)]
pub struct DateTimeUtc {
    pub year: u32,
    pub month: u8,
    pub day: u8,
    pub hour: u8,
    pub minute: u8,
    pub second: u8,
}

/// Gregorian leap-year rule.
pub open spec fn spec_is_leap_year(y: int) -> bool {
    (y % 4 == 0 && y % 100 != 0) || y % 400 == 0
}

/// Number of days in a month of the Gregorian calendar.
pub open spec fn spec_days_in_month(y: int, m: int) -> int {
    if m == 2 {
        if spec_is_leap_year(y) {
            29
        } else {
            28
        }
    } else if m == 4 || m == 6 || m == 9 || m == 11 {
        30
    } else {
        31
    }
}

pub fn is_leap_year(y: u32) -> (r: bool)
    ensures
        r == spec_is_leap_year(y as int),
{
    (y % 4 == 0 && y % 100 != 0) || y % 400 == 0
}

pub fn days_in_month(y: u32, m: u8) -> (r: u8)
    ensures
        r as int == spec_days_in_month(y as int, m as int),
{
    if m == 2 {
        if is_leap_year(y) {
            29
        } else {
            28
        }
    } else if m == 4 || m == 6 || m == 9 || m == 11 {
        30
    } else {
        31
    }
}

impl DateTimeUtc {
    /// The fields name a real calendar instant.
    pub open spec fn valid(self) -> bool {
        &&& 1 <= self.month <= 12
        &&& 1 <= self.day <= spec_days_in_month(self.year as int, self.month as int)
        &&& self.hour < 24
        &&& self.minute < 60
        &&& self.second < 60
    }

    pub fn is_valid(&self) -> (r: bool)
        ensures
            r == self.valid(),
    {
        1 <= self.month && self.month <= 12 && 1 <= self.day && self.day <= days_in_month(
            self.year,
            self.month,
        ) && self.hour < 24 && self.minute < 60 && self.second < 60
    }
}

/// The UTC designators the feed uses: `Z`, `+0000` or `+00:00`.
pub open spec fn spec_utc_suffix(s: Seq<u8>) -> bool {
    ||| s == seq![90u8]
    ||| s == seq![43u8, 48u8, 48u8, 48u8, 48u8]
    ||| s == seq![43u8, 48u8, 48u8, 58u8, 48u8, 48u8]
}

/// The instant named by timestamp text of the form
/// `YYYY-MM-DDTHH:MM:SS` followed by a UTC designator, provided the
/// fields form a valid calendar instant.
pub open spec fn spec_parse_datetime(s: Seq<u8>) -> Option<DateTimeUtc> {
    if s.len() >= 20 && spec_all_digits(s.subrange(0, 4)) && s[4] == 45 && spec_all_digits(
        s.subrange(5, 7),
    ) && s[7] == 45 && spec_all_digits(s.subrange(8, 10)) && s[10] == 84 && spec_all_digits(
        s.subrange(11, 13),
    ) && s[13] == 58 && spec_all_digits(s.subrange(14, 16)) && s[16] == 58 && spec_all_digits(
        s.subrange(17, 19),
    ) && spec_utc_suffix(s.skip(19)) {
        let dt = DateTimeUtc {
            year: spec_digits_val(s.subrange(0, 4)) as u32,
            month: spec_digits_val(s.subrange(5, 7)) as u8,
            day: spec_digits_val(s.subrange(8, 10)) as u8,
            hour: spec_digits_val(s.subrange(11, 13)) as u8,
            minute: spec_digits_val(s.subrange(14, 16)) as u8,
            second: spec_digits_val(s.subrange(17, 19)) as u8,
        };
        if dt.valid() {
            Some(dt)
        } else {
            None
        }
    } else {
        None
    }
}

/// Parse the text of `v` in `[start, end)` as a UTC timestamp.
pub fn parse_datetime(v: &Vec<u8>, start: usize, end: usize) -> (r: Option<DateTimeUtc>)
    requires
        start <= end <= v@.len(),
    ensures
        match r {
            Some(dt) => spec_parse_datetime(v@.subrange(start as int, end as int)) == Some(dt)
                && dt.valid(),
            None => spec_parse_datetime(v@.subrange(start as int, end as int)) is None,
        },
{
    let ghost s = v@.subrange(start as int, end as int);
    let len = end - start;
    if len != 20 && len != 24 && len != 25 {
        proof {
            if s.len() >= 20 {
                lemma_utc_suffix_len(s.skip(19));
            }
        }
        return None;
    }
    if v[start + 4] != 45 || v[start + 7] != 45 || v[start + 10] != 84 || v[start + 13] != 58
        || v[start + 16] != 58 {
        return None;
    }
    let suffix_ok: bool = if len == 20 {
        v[start + 19] == 90
    } else if len == 24 {
        v[start + 19] == 43 && v[start + 20] == 48 && v[start + 21] == 48 && v[start + 22] == 48
            && v[start + 23] == 48
    } else {
        v[start + 19] == 43 && v[start + 20] == 48 && v[start + 21] == 48 && v[start + 22] == 58
            && v[start + 23] == 48 && v[start + 24] == 48
    };
    proof {
        lemma_utc_suffix_len(s.skip(19));
        assert(forall|k: int| 0 <= k < s.len() ==> s[k] == v@[start + k]);
        assert(s.skip(19) =~= v@.subrange(start + 19, end as int));
        if suffix_ok {
            if len == 20 {
                assert(s.skip(19) =~= seq![90u8]);
            } else if len == 24 {
                assert(s.skip(19) =~= seq![43u8, 48u8, 48u8, 48u8, 48u8]);
            } else {
                assert(s.skip(19) =~= seq![43u8, 48u8, 48u8, 58u8, 48u8, 48u8]);
            }
        } else {
            assert(s.skip(19)[0] == v@[start + 19]);
            if len >= 24 {
                assert(s.skip(19)[1] == v@[start + 20]);
                assert(s.skip(19)[2] == v@[start + 21]);
                assert(s.skip(19)[3] == v@[start + 22]);
                assert(s.skip(19)[4] == v@[start + 23]);
            }
            if len == 25 {
                assert(s.skip(19)[5] == v@[start + 24]);
            }
        }
    }
    if !suffix_ok {
        return None;
    }
    let year_p = parse_digits(v, start, start + 4);
    let month_p = parse_digits(v, start + 5, start + 7);
    let day_p = parse_digits(v, start + 8, start + 10);
    let hour_p = parse_digits(v, start + 11, start + 13);
    let minute_p = parse_digits(v, start + 14, start + 16);
    let second_p = parse_digits(v, start + 17, start + 19);
    proof {
        assert(s.subrange(0, 4) =~= v@.subrange(start as int, start + 4));
        assert(s.subrange(5, 7) =~= v@.subrange(start + 5, start + 7));
        assert(s.subrange(8, 10) =~= v@.subrange(start + 8, start + 10));
        assert(s.subrange(11, 13) =~= v@.subrange(start + 11, start + 13));
        assert(s.subrange(14, 16) =~= v@.subrange(start + 14, start + 16));
        assert(s.subrange(17, 19) =~= v@.subrange(start + 17, start + 19));
    }
    match (year_p, month_p, day_p, hour_p, minute_p, second_p) {
        (Some(y), Some(mo), Some(d), Some(h), Some(mi), Some(sec)) => {
            proof {
                lemma_digits_val_bound(s.subrange(0, 4));
                lemma_digits_val_bound(s.subrange(5, 7));
                lemma_digits_val_bound(s.subrange(8, 10));
                lemma_digits_val_bound(s.subrange(11, 13));
                lemma_digits_val_bound(s.subrange(14, 16));
                lemma_digits_val_bound(s.subrange(17, 19));
                reveal_with_fuel(spec_pow10, 5);
            }
            let dt = DateTimeUtc {
                year: y as u32,
                month: mo as u8,
                day: d as u8,
                hour: h as u8,
                minute: mi as u8,
                second: sec as u8,
            };
            if dt.is_valid() {
                Some(dt)
            } else {
                None
            }
        },
        _ => None,
    }
}

/// A UTC designator is 1, 5 or 6 bytes long.
proof fn lemma_utc_suffix_len(s: Seq<u8>)
    ensures
        spec_utc_suffix(s) ==> s.len() == 1 || s.len() == 5 || s.len() == 6,
{
}

/// Relies on chrono::Utc::now: the current wall-clock instant, reported
/// as epoch seconds. Nothing is promised of a clock reading.
#[verifier::external_body]
pub(crate) fn now_epoch_seconds() -> i64 {
    chrono::Utc::now().timestamp()
}

} // verus!
