//! A calendar date held as its literal day, month and year.
//!
//! The triple is not normalised against any calendar: a value such as the
//! 30th of February is representable as long as each field passes its range
//! check. A date renders as `day.month.year` without zero padding, and
//! `from_string` reads exactly that shape back: three dot-separated decimal
//! numbers, day and month small enough for a byte, checked by the usual
//! field validators.

use crate::text::is_digit;
use crate::text::lemma_digits_sep_free;
use crate::text::lemma_parse_u32_digits;
use crate::text::lemma_split_join;
use crate::text::lemma_u32_digits_wf;
use crate::text::parse_u32;
use crate::text::parse_u32_spec;
use crate::text::sep_free;
use crate::text::split_on;
use crate::text::split_spec;
use crate::text::u32_digits;
use crate::text::u32_to_string;
use crate::validators::date_validators::date_err_spec;
use crate::validators::date_validators::date_ok;
use crate::validators::date_validators::date_validator;
use crate::validators::date_validators::day_ok;
use crate::validators::date_validators::day_validator;
use crate::validators::date_validators::month_ok;
use crate::validators::date_validators::month_validator;
use crate::validators::date_validators::year_ok;
use crate::validators::date_validators::year_validator;
use vstd::prelude::*;
use vstd::string::StringExecFns;

verus! {

#[derive(Clone, Copy, Debug, PartialEq, Eq, Structural)]
pub struct Date {
    pub day: u8,
    pub month: u8,
    pub year: u32,
}

/// The rendering of a date: `day.month.year`, no padding.
pub open spec fn date_string_spec(d: Date) -> Seq<char> {
    u32_digits(d.spec_day() as nat) + "."@ + u32_digits(d.spec_month() as nat) + "."@ + u32_digits(
        d.spec_year() as nat,
    )
}

/// What reading a rendered date back yields: three dot-separated decimal
/// numbers, day and month at most 255, every field in its accepted range.
pub open spec fn date_from_string_spec(s: Seq<char>) -> Option<Date> {
    let parts = split_spec(s, "."@);
    if parts.len() == 3 {
        match (parse_u32_spec(parts[0]), parse_u32_spec(parts[1]), parse_u32_spec(parts[2])) {
            (Some(d), Some(m), Some(y)) => if d <= 255 && m <= 255 {
                if day_ok(d as int) && month_ok(m as int) && year_ok(y as int) {
                    Some(Date { day: d as u8, month: m as u8, year: y })
                } else {
                    None
                }
            } else {
                None
            },
            _ => None,
        }
    } else {
        None
    }
}

/// Whether `s` has the right shape at all: three dot-separated numbers with
/// day and month small enough for a byte.
pub open spec fn date_shape_ok(s: Seq<char>) -> bool {
    let parts = split_spec(s, "."@);
    &&& parts.len() == 3
    &&& parse_u32_spec(parts[0]) is Some
    &&& parse_u32_spec(parts[1]) is Some
    &&& parse_u32_spec(parts[2]) is Some
    &&& parse_u32_spec(parts[0]).unwrap() <= 255
    &&& parse_u32_spec(parts[1]).unwrap() <= 255
}

pub open spec fn date_shape_msg() -> Seq<char> {
    "The date must be three dot-separated numbers."@
}

/// The failure report of `from_string`: the shape message for text that is
/// not a numeric triple, otherwise the aggregate range report.
pub open spec fn date_from_string_err_spec(s: Seq<char>) -> Seq<char> {
    if !date_shape_ok(s) {
        date_shape_msg()
    } else {
        let parts = split_spec(s, "."@);
        date_err_spec(
            parse_u32_spec(parts[0]).unwrap() as int,
            parse_u32_spec(parts[1]).unwrap() as int,
            parse_u32_spec(parts[2]).unwrap() as int,
        )
    }
}

impl Date {
    pub open spec fn spec_day(&self) -> u8 {
        self.day
    }

    pub open spec fn spec_month(&self) -> u8 {
        self.month
    }

    pub open spec fn spec_year(&self) -> u32 {
        self.year
    }

    /// Builds a date after running every field check; an out-of-range field
    /// rejects the whole triple with the aggregate report.
    pub fn new(day: u8, month: u8, year: u32) -> (r: Result<Date, String>)
        ensures
            r is Ok <==> day_ok(day as int) && month_ok(month as int) && year_ok(year as int),
            r matches Ok(d) ==> d.spec_day() == day && d.spec_month() == month && d.spec_year()
                == year,
            r matches Err(m) ==> m@ == date_err_spec(day as int, month as int, year as int),
    {
        let date = Date { day, month, year };
        match date_validator(&date) {
            Result::Ok(()) => Result::Ok(date),
            Result::Err(err) => Result::Err(err),
        }
    }

    /// Renders the date as `day.month.year`.
    pub fn to_string(&self) -> (r: String)
        ensures
            r@ == date_string_spec(*self),
    {
        let mut out = u32_to_string(self.day as u32);
        out.append(".");
        let m = u32_to_string(self.month as u32);
        out.append(m.as_str());
        out.append(".");
        let y = u32_to_string(self.year);
        out.append(y.as_str());
        proof {
            assert(out@ =~= date_string_spec(*self));
        }
        out
    }

    /// Reads a rendered date back; the triple must have the documented shape
    /// and then pass the same checks as `new`.
    pub fn from_string(s: &str) -> (r: Result<Date, String>)
        ensures
            r matches Ok(d) ==> date_from_string_spec(s@) == Some(d),
            r is Err <==> date_from_string_spec(s@) is None,
            r matches Err(m) ==> m@ == date_from_string_err_spec(s@),
    {
        proof {
            reveal_strlit(".");
        }
        let parts = split_on(s, ".");
        proof {
            assert(parts.deep_view().len() == parts@.len());
        }
        if parts.len() != 3 {
            return Err(String::from_str("The date must be three dot-separated numbers."));
        }
        let d = parse_u32(parts[0].as_str());
        let m = parse_u32(parts[1].as_str());
        let y = parse_u32(parts[2].as_str());
        proof {
            assert(parts.deep_view()[0] == parts@[0]@);
            assert(parts.deep_view()[1] == parts@[1]@);
            assert(parts.deep_view()[2] == parts@[2]@);
        }
        match (d, m, y) {
            (Some(dv), Some(mv), Some(yv)) => {
                if dv <= 255 && mv <= 255 {
                    match Date::new(dv as u8, mv as u8, yv) {
                        Ok(date) => Ok(date),
                        Err(e) => Err(e),
                    }
                } else {
                    Err(String::from_str("The date must be three dot-separated numbers."))
                }
            },
            _ => Err(String::from_str("The date must be three dot-separated numbers.")),
        }
    }

    pub fn day(&self) -> (r: u8)
        ensures
            r == self.spec_day(),
    {
        self.day
    }

    pub fn month(&self) -> (r: u8)
        ensures
            r == self.spec_month(),
    {
        self.month
    }

    pub fn year(&self) -> (r: u32)
        ensures
            r == self.spec_year(),
    {
        self.year
    }

    /// Replaces the day if the new value passes its check; otherwise leaves
    /// the date untouched and reports the failure.
    pub fn set_day(&mut self, day: u8) -> (r: Result<(), String>)
        ensures
            r is Ok <==> day_ok(day as int),
            r is Ok ==> *final(self) == (Date {
                day,
                month: old(self).spec_month(),
                year: old(self).spec_year(),
            }),
            r is Err ==> *final(self) == *old(self),
            r matches Err(m) ==> m@ == crate::validators::date_validators::day_msg(),
    {
        match day_validator(day) {
            Ok(()) => {
                self.day = day;
                Ok(())
            },
            Err(err) => Err(err),
        }
    }

    /// Replaces the month if the new value passes its check.
    pub fn set_month(&mut self, month: u8) -> (r: Result<(), String>)
        ensures
            r is Ok <==> month_ok(month as int),
            r is Ok ==> *final(self) == (Date {
                day: old(self).spec_day(),
                month,
                year: old(self).spec_year(),
            }),
            r is Err ==> *final(self) == *old(self),
            r matches Err(m) ==> m@ == crate::validators::date_validators::month_msg(),
    {
        match month_validator(month) {
            Ok(()) => {
                self.month = month;
                Ok(())
            },
            Err(err) => Err(err),
        }
    }

    /// Replaces the year if the new value passes its check.
    pub fn set_year(&mut self, year: u32) -> (r: Result<(), String>)
        ensures
            r is Ok <==> year_ok(year as int),
            r is Ok ==> *final(self) == (Date {
                day: old(self).spec_day(),
                month: old(self).spec_month(),
                year,
            }),
            r is Err ==> *final(self) == *old(self),
            r matches Err(m) ==> m@ == crate::validators::date_validators::year_msg(),
    {
        match year_validator(year) {
            Ok(()) => {
                self.year = year;
                Ok(())
            },
            Err(err) => Err(err),
        }
    }
}

impl Default for Date {
    /// The fallback date substituted for a missing or unreadable field.
    fn default() -> (r: Date)
        ensures
            r.spec_day() == 1 && r.spec_month() == 1 && r.spec_year() == 2000,
    {
        Date { day: 1, month: 1, year: 2000 }
    }
}

/// Every character of a rendered date is a digit or a dot.
pub proof fn lemma_date_string_chars(d: Date)
    ensures
        forall|i: int|
            0 <= i < date_string_spec(d).len() ==> (is_digit(#[trigger] date_string_spec(d)[i])
                || date_string_spec(d)[i] == '.'),
{
    reveal_strlit(".");
    let dd = u32_digits(d.spec_day() as nat);
    let mm = u32_digits(d.spec_month() as nat);
    let yy = u32_digits(d.spec_year() as nat);
    lemma_u32_digits_wf(d.spec_day() as nat);
    lemma_u32_digits_wf(d.spec_month() as nat);
    lemma_u32_digits_wf(d.spec_year() as nat);
    let s = date_string_spec(d);
    let l1 = dd.len() as int;
    let l2 = mm.len() as int;
    assert forall|i: int| 0 <= i < s.len() implies (is_digit(#[trigger] s[i]) || s[i] == '.') by {
        if i < l1 {
            assert(s[i] == dd[i]);
        } else if i == l1 {
            assert(s[i] == '.');
        } else if i < l1 + 1 + l2 {
            assert(s[i] == mm[i - l1 - 1]);
        } else if i == l1 + 1 + l2 {
            assert(s[i] == '.');
        } else {
            assert(s[i] == yy[i - l1 - l2 - 2]);
        }
    }
}

/// Rendering a date and reading it back yields the same date, for every date
/// whose fields are in range.
pub proof fn lemma_date_round_trip(d: Date)
    requires
        date_ok(d),
    ensures
        date_from_string_spec(date_string_spec(d)) == Some(d),
{
    reveal_strlit(".");
    let sep = "."@;
    let dd = u32_digits(d.spec_day() as nat);
    let mm = u32_digits(d.spec_month() as nat);
    let yy = u32_digits(d.spec_year() as nat);
    lemma_u32_digits_wf(d.spec_day() as nat);
    lemma_u32_digits_wf(d.spec_month() as nat);
    lemma_u32_digits_wf(d.spec_year() as nat);
    assert(!is_digit('.'));
    lemma_digits_sep_free(dd, sep);
    lemma_digits_sep_free(mm, sep);
    lemma_digits_sep_free(yy, sep);
    let fs = seq![dd, mm, yy];
    assert forall|k: int| 0 <= k < fs.len() implies sep_free(#[trigger] fs[k], sep) by {
        if k == 0 {
            assert(fs[k] == dd);
        } else if k == 1 {
            assert(fs[k] == mm);
        } else {
            assert(fs[k] == yy);
        }
    }
    lemma_split_join(fs, sep);
    assert(fs.drop_first() =~= seq![mm, yy]);
    assert(seq![mm, yy].drop_first() =~= seq![yy]);
    assert(crate::text::join_spec(seq![yy], sep) == yy);
    assert(crate::text::join_spec(seq![mm, yy], sep) == mm + sep + yy);
    assert(crate::text::join_spec(fs, sep) == dd + sep + (mm + sep + yy));
    assert(crate::text::join_spec(fs, sep) =~= date_string_spec(d));
    lemma_parse_u32_digits(d.spec_day() as u32);
    lemma_parse_u32_digits(d.spec_month() as u32);
    lemma_parse_u32_digits(d.spec_year());
    assert(u32_digits(d.spec_day() as u32 as nat) == dd);
    assert(u32_digits(d.spec_month() as u32 as nat) == mm);
    let parts = split_spec(date_string_spec(d), sep);
    assert(parts == fs);
    assert(date_from_string_spec(date_string_spec(d)) == Some(d));
}

} // verus!
