//! Range checks for the fields of a date.
//!
//! Each check states its accepted range exactly; the wording of each failure
//! message is part of the contract. The day range deliberately stops at 30,
//! so the 31st of a month is rejected: a known boundary quirk that is kept,
//! not repaired.

use crate::domain::date::Date;
use crate::text::contains_seq;
use crate::text::lemma_contains_extend_left;
use crate::text::lemma_contains_extend_right;
use crate::text::lemma_contains_prefix;
use vstd::prelude::*;
use vstd::string::StringExecFns;

verus! {

/// An accepted day of month.
pub open spec fn day_ok(day: int) -> bool {
    1 <= day <= 30
}

/// An accepted month.
pub open spec fn month_ok(month: int) -> bool {
    1 <= month <= 12
}

/// An accepted year.
pub open spec fn year_ok(year: int) -> bool {
    1925 <= year <= 2025
}

pub open spec fn day_msg() -> Seq<char> {
    "The date's day should be between 0 and 31."@
}

pub open spec fn month_msg() -> Seq<char> {
    "The date's month should be between 0 and 13."@
}

pub open spec fn year_msg() -> Seq<char> {
    "The date's month should be between 1924 and 2026."@
}

/// Every field of the date is in range.
pub open spec fn date_ok(d: Date) -> bool {
    day_ok(d.spec_day() as int) && month_ok(d.spec_month() as int) && year_ok(
        d.spec_year() as int,
    )
}

/// The aggregate failure report for a date: the message of every violated
/// rule, in field order, each followed by one space.
pub open spec fn date_err_spec(day: int, month: int, year: int) -> Seq<char> {
    (if !day_ok(day) {
        day_msg() + " "@
    } else {
        Seq::<char>::empty()
    }) + (if !month_ok(month) {
        month_msg() + " "@
    } else {
        Seq::<char>::empty()
    }) + (if !year_ok(year) {
        year_msg() + " "@
    } else {
        Seq::<char>::empty()
    })
}

/// Every violated rule's message appears in the aggregate report.
pub proof fn lemma_date_report_lists_failures(day: int, month: int, year: int)
    ensures
        !day_ok(day) ==> contains_seq(date_err_spec(day, month, year), day_msg()),
        !month_ok(month) ==> contains_seq(date_err_spec(day, month, year), month_msg()),
        !year_ok(year) ==> contains_seq(date_err_spec(day, month, year), year_msg()),
{
    let p1 = if !day_ok(day) {
        day_msg() + " "@
    } else {
        Seq::<char>::empty()
    };
    let p2 = if !month_ok(month) {
        month_msg() + " "@
    } else {
        Seq::<char>::empty()
    };
    let p3 = if !year_ok(year) {
        year_msg() + " "@
    } else {
        Seq::<char>::empty()
    };
    assert(date_err_spec(day, month, year) == p1 + p2 + p3);
    if !day_ok(day) {
        lemma_contains_prefix(day_msg(), " "@);
        lemma_contains_extend_right(p1, p2, day_msg());
        lemma_contains_extend_right(p1 + p2, p3, day_msg());
    }
    if !month_ok(month) {
        lemma_contains_prefix(month_msg(), " "@);
        lemma_contains_extend_left(p1, p2, month_msg());
        lemma_contains_extend_right(p1 + p2, p3, month_msg());
    }
    if !year_ok(year) {
        lemma_contains_prefix(year_msg(), " "@);
        lemma_contains_extend_left(p1 + p2, p3, year_msg());
    }
}

pub fn day_validator(day: u8) -> (r: Result<(), String>)
    ensures
        r is Ok <==> day_ok(day as int),
        r matches Err(m) ==> m@ == day_msg(),
{
    if 1 <= day && day <= 30 {
        Ok(())
    } else {
        Err(String::from_str("The date's day should be between 0 and 31."))
    }
}

pub fn month_validator(month: u8) -> (r: Result<(), String>)
    ensures
        r is Ok <==> month_ok(month as int),
        r matches Err(m) ==> m@ == month_msg(),
{
    if 1 <= month && month <= 12 {
        Ok(())
    } else {
        Err(String::from_str("The date's month should be between 0 and 13."))
    }
}

pub fn year_validator(year: u32) -> (r: Result<(), String>)
    ensures
        r is Ok <==> year_ok(year as int),
        r matches Err(m) ==> m@ == year_msg(),
{
    if 1925 <= year && year <= 2025 {
        Ok(())
    } else {
        Err(String::from_str("The date's month should be between 1924 and 2026."))
    }
}

/// Runs every field check and reports all failures at once, space-joined.
pub fn date_validator(date: &Date) -> (r: Result<(), String>)
    ensures
        r is Ok <==> date_ok(*date),
        r matches Err(m) ==> m@ == date_err_spec(
            date.spec_day() as int,
            date.spec_month() as int,
            date.spec_year() as int,
        ),
{
    let mut msg = String::new();
    let mut failed = false;
    if let Err(e) = day_validator(date.day()) {
        msg.append(e.as_str());
        msg.append(" ");
        failed = true;
    }
    if let Err(e) = month_validator(date.month()) {
        msg.append(e.as_str());
        msg.append(" ");
        failed = true;
    }
    if let Err(e) = year_validator(date.year()) {
        msg.append(e.as_str());
        msg.append(" ");
        failed = true;
    }
    if failed {
        proof {
            assert(msg@ =~= date_err_spec(
                date.spec_day() as int,
                date.spec_month() as int,
                date.spec_year() as int,
            ));
        }
        Err(msg)
    } else {
        Ok(())
    }
}

} // verus!
