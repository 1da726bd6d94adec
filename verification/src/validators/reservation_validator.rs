//! Field checks for a reservation, and the aggregate check that reports
//! every violated rule at once.
//!
//! The time field is accepted exactly when it has the shape `hh:mm`: five
//! characters, the hour and minute written as two digits each and in range,
//! the separator one of `.`, `:` or `-`. The rules are checked in that
//! order, and the first violated one names the report.

use crate::domain::reservation::Reservation;
use crate::domain::reservation::ReservationV;
use crate::text::contains_seq;
use crate::text::digit_val;
use crate::text::lemma_contains_extend_left;
use crate::text::lemma_contains_extend_right;
use crate::text::lemma_contains_prefix;
use crate::text::is_digit;
use crate::validators::common_validators::id_validator;
use crate::validators::date_validators::date_err_spec;
use crate::validators::date_validators::date_ok;
use crate::validators::date_validators::date_validator;
use vstd::prelude::*;
use vstd::string::StrSliceExecFns;
use vstd::string::StringExecFns;

verus! {

/// The hour and its two digit characters are acceptable.
pub open spec fn hour_part_ok(s: Seq<char>) -> bool {
    is_digit(s[0]) && is_digit(s[1]) && digit_val(s[0]) * 10 + digit_val(s[1]) <= 23
}

/// The minute and its two digit characters are acceptable.
pub open spec fn minute_part_ok(s: Seq<char>) -> bool {
    is_digit(s[3]) && is_digit(s[4]) && digit_val(s[3]) * 10 + digit_val(s[4]) <= 59
}

/// The separator between hour and minute is one of the accepted characters.
pub open spec fn time_sep_ok(s: Seq<char>) -> bool {
    s[2] == '.' || s[2] == ':' || s[2] == '-'
}

/// An accepted time of day.
pub open spec fn time_ok(s: Seq<char>) -> bool {
    s.len() == 5 && hour_part_ok(s) && minute_part_ok(s) && time_sep_ok(s)
}

pub open spec fn time_len_msg() -> Seq<char> {
    "The time must have 5 characters. (hh:mm)"@
}

pub open spec fn hour_msg() -> Seq<char> {
    "The hour must be from 0 to 23."@
}

pub open spec fn minute_msg() -> Seq<char> {
    "The minutes must be from 0 to 59."@
}

pub open spec fn time_sep_msg() -> Seq<char> {
    "The time separators must be of the following kind: '.', ':', '-'"@
}

/// The failure report for a time: the first violated rule, in checking
/// order, names the report.
pub open spec fn time_err_spec(s: Seq<char>) -> Seq<char> {
    if s.len() != 5 {
        time_len_msg()
    } else if !hour_part_ok(s) {
        hour_msg()
    } else if !minute_part_ok(s) {
        minute_msg()
    } else {
        time_sep_msg()
    }
}

/// Every field of the reservation passes its check; the loyalty-card link
/// and both identifiers are always acceptable.
pub open spec fn reservation_ok(v: ReservationV) -> bool {
    &&& date_ok(v.date)
    &&& time_ok(v.hour)
}

/// The aggregate failure report for a reservation.
pub open spec fn reservation_err_spec(v: ReservationV) -> Seq<char> {
    (if !date_ok(v.date) {
        date_err_spec(
            v.date.spec_day() as int,
            v.date.spec_month() as int,
            v.date.spec_year() as int,
        ) + " "@
    } else {
        Seq::<char>::empty()
    }) + (if !time_ok(v.hour) {
        time_err_spec(v.hour) + " "@
    } else {
        Seq::<char>::empty()
    })
}

/// Every violated rule's message appears in the aggregate report.
pub proof fn lemma_reservation_report_lists_failures(v: ReservationV)
    ensures
        !date_ok(v.date) ==> contains_seq(
            reservation_err_spec(v),
            date_err_spec(
                v.date.spec_day() as int,
                v.date.spec_month() as int,
                v.date.spec_year() as int,
            ),
        ),
        !time_ok(v.hour) ==> contains_seq(reservation_err_spec(v), time_err_spec(v.hour)),
{
    let dm = date_err_spec(
        v.date.spec_day() as int,
        v.date.spec_month() as int,
        v.date.spec_year() as int,
    );
    let p1 = if !date_ok(v.date) {
        dm + " "@
    } else {
        Seq::<char>::empty()
    };
    let p2 = if !time_ok(v.hour) {
        time_err_spec(v.hour) + " "@
    } else {
        Seq::<char>::empty()
    };
    assert(reservation_err_spec(v) == p1 + p2);
    if !date_ok(v.date) {
        lemma_contains_prefix(dm, " "@);
        lemma_contains_extend_right(p1, p2, dm);
    }
    if !time_ok(v.hour) {
        lemma_contains_prefix(time_err_spec(v.hour), " "@);
        lemma_contains_extend_left(p1, p2, time_err_spec(v.hour));
    }
}

/// Checks a time of day against the `hh:mm` shape.
pub fn time_validator(time: &str) -> (r: Result<(), String>)
    ensures
        r is Ok <==> time_ok(time@),
        r matches Err(m) ==> m@ == time_err_spec(time@),
{
    let n = time.unicode_len();
    if n != 5 {
        return Err(String::from_str("The time must have 5 characters. (hh:mm)"));
    }
    let c0 = time.get_char(0) as u32;
    let c1 = time.get_char(1) as u32;
    if c0 < 48 || c0 > 57 || c1 < 48 || c1 > 57 || (c0 - 48) * 10 + (c1 - 48) > 23 {
        return Err(String::from_str("The hour must be from 0 to 23."));
    }
    let c3 = time.get_char(3) as u32;
    let c4 = time.get_char(4) as u32;
    if c3 < 48 || c3 > 57 || c4 < 48 || c4 > 57 || (c3 - 48) * 10 + (c4 - 48) > 59 {
        return Err(String::from_str("The minutes must be from 0 to 59."));
    }
    let c2 = time.get_char(2);
    if c2 == '.' || c2 == ':' || c2 == '-' {
        Ok(())
    } else {
        Err(String::from_str("The time separators must be of the following kind: '.', ':', '-'"))
    }
}

/// Checks the optional loyalty-card link; absence and every identifier are
/// accepted.
pub fn card_id_validator(id: Option<u32>) -> (r: Result<(), String>)
    ensures
        r is Ok,
{
    match id {
        None => Ok(()),
        Some(x) => id_validator(x),
    }
}

/// Runs every field check of a reservation and reports all failures at
/// once, space-joined.
pub fn reservation_validator(reservation: &Reservation) -> (r: Result<(), String>)
    ensures
        r is Ok <==> reservation_ok(reservation@),
        r matches Err(m) ==> m@ == reservation_err_spec(reservation@),
{
    let ghost v = reservation@;
    let ghost p1 = if !date_ok(v.date) {
        date_err_spec(
            v.date.spec_day() as int,
            v.date.spec_month() as int,
            v.date.spec_year() as int,
        ) + " "@
    } else {
        Seq::<char>::empty()
    };
    let ghost p2 = if !time_ok(v.hour) {
        time_err_spec(v.hour) + " "@
    } else {
        Seq::<char>::empty()
    };
    let mut msg = String::new();
    let mut failed = false;
    if let Err(e) = id_validator(reservation.id()) {
        msg.append(e.as_str());
        msg.append(" ");
        failed = true;
    }
    if let Err(e) = id_validator(reservation.movie_id()) {
        msg.append(e.as_str());
        msg.append(" ");
        failed = true;
    }
    if let Err(e) = card_id_validator(reservation.card_id()) {
        msg.append(e.as_str());
        msg.append(" ");
        failed = true;
    }
    if let Err(e) = date_validator(&reservation.date()) {
        msg.append(e.as_str());
        msg.append(" ");
        failed = true;
    }
    proof {
        assert(msg@ =~= p1);
    }
    if let Err(e) = time_validator(reservation.hour()) {
        msg.append(e.as_str());
        msg.append(" ");
        failed = true;
    }
    proof {
        assert(msg@ =~= p1 + p2);
        assert(reservation_err_spec(v) == p1 + p2);
        assert(failed == !reservation_ok(v));
    }
    if failed {
        Err(msg)
    } else {
        Ok(())
    }
}

} // verus!
