//! Field checks for a loyalty card, and the aggregate check that reports
//! every violated rule at once.

use crate::domain::card::Card;
use crate::domain::card::CardV;
use crate::text::all_digits;
use crate::text::contains_seq;
use crate::text::lemma_contains_extend_left;
use crate::text::lemma_contains_extend_right;
use crate::text::lemma_contains_prefix;
use crate::validators::common_validators::id_validator;
use crate::validators::date_validators::date_err_spec;
use crate::validators::date_validators::date_ok;
use crate::validators::date_validators::date_validator;
use vstd::prelude::*;
use vstd::string::StrSliceExecFns;
use vstd::string::StringExecFns;

verus! {

/// An accepted name: two to sixteen characters, none of them a space.
pub open spec fn name_ok(s: Seq<char>) -> bool {
    2 <= s.len() <= 16 && forall|i: int| 0 <= i < s.len() ==> s[i] != ' '
}

pub open spec fn name_len_msg(label: Seq<char>) -> Seq<char> {
    "The "@ + label + " needs to be between 1 and 17 characters."@
}

pub open spec fn name_space_msg(label: Seq<char>) -> Seq<char> {
    "The "@ + label + " can't contain spaces."@
}

/// The failure report for a name: the length rule is checked first, the
/// space rule only for a name of accepted length.
pub open spec fn name_err_spec(s: Seq<char>, label: Seq<char>) -> Seq<char> {
    if !(2 <= s.len() <= 16) {
        name_len_msg(label)
    } else {
        name_space_msg(label)
    }
}

/// An accepted personal identifier: exactly thirteen decimal digits.
pub open spec fn cnp_ok(s: Seq<char>) -> bool {
    s.len() == 13 && all_digits(s)
}

pub open spec fn cnp_len_msg() -> Seq<char> {
    "The CNP must have 13 digits."@
}

pub open spec fn cnp_digit_msg() -> Seq<char> {
    "The CNP must be made out of digits."@
}

/// The failure report for an identifier: length first, then digits.
pub open spec fn cnp_err_spec(s: Seq<char>) -> Seq<char> {
    if s.len() != 13 {
        cnp_len_msg()
    } else {
        cnp_digit_msg()
    }
}

/// Every field of the card passes its check.
pub open spec fn card_ok(v: CardV) -> bool {
    &&& name_ok(v.first_name)
    &&& name_ok(v.last_name)
    &&& cnp_ok(v.cnp)
    &&& date_ok(v.birthday)
    &&& date_ok(v.registration_date)
}

/// The aggregate failure report for a card: the report of every failing
/// field check, in field order, each followed by one space.
pub open spec fn card_err_spec(v: CardV) -> Seq<char> {
    (if !name_ok(v.first_name) {
        name_err_spec(v.first_name, "first name"@) + " "@
    } else {
        Seq::<char>::empty()
    }) + (if !name_ok(v.last_name) {
        name_err_spec(v.last_name, "last name"@) + " "@
    } else {
        Seq::<char>::empty()
    }) + (if !cnp_ok(v.cnp) {
        cnp_err_spec(v.cnp) + " "@
    } else {
        Seq::<char>::empty()
    }) + (if !date_ok(v.birthday) {
        date_err_spec(
            v.birthday.spec_day() as int,
            v.birthday.spec_month() as int,
            v.birthday.spec_year() as int,
        ) + " "@
    } else {
        Seq::<char>::empty()
    }) + (if !date_ok(v.registration_date) {
        date_err_spec(
            v.registration_date.spec_day() as int,
            v.registration_date.spec_month() as int,
            v.registration_date.spec_year() as int,
        ) + " "@
    } else {
        Seq::<char>::empty()
    })
}

/// Every violated rule's message appears in the aggregate report.
pub proof fn lemma_card_report_lists_failures(v: CardV)
    ensures
        !name_ok(v.first_name) ==> contains_seq(
            card_err_spec(v),
            name_err_spec(v.first_name, "first name"@),
        ),
        !name_ok(v.last_name) ==> contains_seq(
            card_err_spec(v),
            name_err_spec(v.last_name, "last name"@),
        ),
        !cnp_ok(v.cnp) ==> contains_seq(card_err_spec(v), cnp_err_spec(v.cnp)),
        !date_ok(v.birthday) ==> contains_seq(
            card_err_spec(v),
            date_err_spec(
                v.birthday.spec_day() as int,
                v.birthday.spec_month() as int,
                v.birthday.spec_year() as int,
            ),
        ),
        !date_ok(v.registration_date) ==> contains_seq(
            card_err_spec(v),
            date_err_spec(
                v.registration_date.spec_day() as int,
                v.registration_date.spec_month() as int,
                v.registration_date.spec_year() as int,
            ),
        ),
{
    let p1 = if !name_ok(v.first_name) {
        name_err_spec(v.first_name, "first name"@) + " "@
    } else {
        Seq::<char>::empty()
    };
    let p2 = if !name_ok(v.last_name) {
        name_err_spec(v.last_name, "last name"@) + " "@
    } else {
        Seq::<char>::empty()
    };
    let p3 = if !cnp_ok(v.cnp) {
        cnp_err_spec(v.cnp) + " "@
    } else {
        Seq::<char>::empty()
    };
    let p4 = if !date_ok(v.birthday) {
        date_err_spec(
            v.birthday.spec_day() as int,
            v.birthday.spec_month() as int,
            v.birthday.spec_year() as int,
        ) + " "@
    } else {
        Seq::<char>::empty()
    };
    let p5 = if !date_ok(v.registration_date) {
        date_err_spec(
            v.registration_date.spec_day() as int,
            v.registration_date.spec_month() as int,
            v.registration_date.spec_year() as int,
        ) + " "@
    } else {
        Seq::<char>::empty()
    };
    assert(card_err_spec(v) == p1 + p2 + p3 + p4 + p5);
    if !name_ok(v.first_name) {
        let m = name_err_spec(v.first_name, "first name"@);
        lemma_contains_prefix(m, " "@);
        lemma_contains_extend_right(p1, p2, m);
        lemma_contains_extend_right(p1 + p2, p3, m);
        lemma_contains_extend_right(p1 + p2 + p3, p4, m);
        lemma_contains_extend_right(p1 + p2 + p3 + p4, p5, m);
    }
    if !name_ok(v.last_name) {
        let m = name_err_spec(v.last_name, "last name"@);
        lemma_contains_prefix(m, " "@);
        lemma_contains_extend_left(p1, p2, m);
        lemma_contains_extend_right(p1 + p2, p3, m);
        lemma_contains_extend_right(p1 + p2 + p3, p4, m);
        lemma_contains_extend_right(p1 + p2 + p3 + p4, p5, m);
    }
    if !cnp_ok(v.cnp) {
        let m = cnp_err_spec(v.cnp);
        lemma_contains_prefix(m, " "@);
        lemma_contains_extend_left(p1 + p2, p3, m);
        lemma_contains_extend_right(p1 + p2 + p3, p4, m);
        lemma_contains_extend_right(p1 + p2 + p3 + p4, p5, m);
    }
    if !date_ok(v.birthday) {
        let m = date_err_spec(
            v.birthday.spec_day() as int,
            v.birthday.spec_month() as int,
            v.birthday.spec_year() as int,
        );
        lemma_contains_prefix(m, " "@);
        lemma_contains_extend_left(p1 + p2 + p3, p4, m);
        lemma_contains_extend_right(p1 + p2 + p3 + p4, p5, m);
    }
    if !date_ok(v.registration_date) {
        let m = date_err_spec(
            v.registration_date.spec_day() as int,
            v.registration_date.spec_month() as int,
            v.registration_date.spec_year() as int,
        );
        lemma_contains_prefix(m, " "@);
        lemma_contains_extend_left(p1 + p2 + p3 + p4, p5, m);
    }
}

/// Checks one name field under the given label.
pub fn name_validator(name: &str, name_type: &str) -> (r: Result<(), String>)
    ensures
        r is Ok <==> name_ok(name@),
        r matches Err(m) ==> m@ == name_err_spec(name@, name_type@),
{
    let n = name.unicode_len();
    if n < 2 || n > 16 {
        let mut m = String::from_str("The ");
        m.append(name_type);
        m.append(" needs to be between 1 and 17 characters.");
        proof {
            assert(m@ =~= name_len_msg(name_type@));
        }
        return Err(m);
    }
    let mut i: usize = 0;
    while i < n
        invariant
            n == name@.len(),
            2 <= n <= 16,
            i <= n,
            forall|j: int| 0 <= j < i ==> name@[j] != ' ',
        decreases n - i,
    {
        if name.get_char(i) == ' ' {
            let mut m = String::from_str("The ");
            m.append(name_type);
            m.append(" can't contain spaces.");
            proof {
                assert(m@ =~= name_space_msg(name_type@));
            }
            return Err(m);
        }
        i = i + 1;
    }
    Ok(())
}

pub fn first_name_validator(first_name: &str) -> (r: Result<(), String>)
    ensures
        r is Ok <==> name_ok(first_name@),
        r matches Err(m) ==> m@ == name_err_spec(first_name@, "first name"@),
{
    name_validator(first_name, "first name")
}

pub fn last_name_validator(last_name: &str) -> (r: Result<(), String>)
    ensures
        r is Ok <==> name_ok(last_name@),
        r matches Err(m) ==> m@ == name_err_spec(last_name@, "last name"@),
{
    name_validator(last_name, "last name")
}

/// Checks the thirteen-digit personal identifier.
pub fn cnp_validator(cnp: &str) -> (r: Result<(), String>)
    ensures
        r is Ok <==> cnp_ok(cnp@),
        r matches Err(m) ==> m@ == cnp_err_spec(cnp@),
{
    let n = cnp.unicode_len();
    if n != 13 {
        return Err(String::from_str("The CNP must have 13 digits."));
    }
    let mut i: usize = 0;
    while i < n
        invariant
            n == cnp@.len(),
            n == 13,
            i <= n,
            forall|j: int| 0 <= j < i ==> crate::text::is_digit(cnp@[j]),
        decreases n - i,
    {
        let c = cnp.get_char(i);
        let cv = c as u32;
        if cv < 48 || cv > 57 {
            proof {
                assert(!crate::text::is_digit(cnp@[i as int]));
            }
            return Err(String::from_str("The CNP must be made out of digits."));
        }
        i = i + 1;
    }
    Ok(())
}

/// Runs every field check of a card and reports all failures at once,
/// space-joined.
#[verifier::rlimit(60)]
pub fn card_validator(card: &Card) -> (r: Result<(), String>)
    ensures
        r is Ok <==> card_ok(card@),
        r matches Err(m) ==> m@ == card_err_spec(card@),
{
    let ghost v = card@;
    let ghost p1 = if !name_ok(v.first_name) {
        name_err_spec(v.first_name, "first name"@) + " "@
    } else {
        Seq::<char>::empty()
    };
    let ghost p2 = if !name_ok(v.last_name) {
        name_err_spec(v.last_name, "last name"@) + " "@
    } else {
        Seq::<char>::empty()
    };
    let ghost p3 = if !cnp_ok(v.cnp) {
        cnp_err_spec(v.cnp) + " "@
    } else {
        Seq::<char>::empty()
    };
    let ghost p4 = if !date_ok(v.birthday) {
        date_err_spec(
            v.birthday.spec_day() as int,
            v.birthday.spec_month() as int,
            v.birthday.spec_year() as int,
        ) + " "@
    } else {
        Seq::<char>::empty()
    };
    let ghost p5 = if !date_ok(v.registration_date) {
        date_err_spec(
            v.registration_date.spec_day() as int,
            v.registration_date.spec_month() as int,
            v.registration_date.spec_year() as int,
        ) + " "@
    } else {
        Seq::<char>::empty()
    };
    let mut msg = String::new();
    let mut failed = false;
    if let Err(e) = id_validator(card.id()) {
        msg.append(e.as_str());
        msg.append(" ");
        failed = true;
    }
    if let Err(e) = first_name_validator(card.first_name()) {
        msg.append(e.as_str());
        msg.append(" ");
        failed = true;
    }
    proof {
        assert(msg@ =~= p1);
    }
    if let Err(e) = last_name_validator(card.last_name()) {
        msg.append(e.as_str());
        msg.append(" ");
        failed = true;
    }
    proof {
        assert(msg@ =~= p1 + p2);
    }
    if let Err(e) = cnp_validator(card.cnp()) {
        msg.append(e.as_str());
        msg.append(" ");
        failed = true;
    }
    proof {
        assert(msg@ =~= p1 + p2 + p3);
    }
    if let Err(e) = date_validator(&card.birthday()) {
        msg.append(e.as_str());
        msg.append(" ");
        failed = true;
    }
    proof {
        assert(msg@ =~= p1 + p2 + p3 + p4);
    }
    if let Err(e) = date_validator(&card.registration_date()) {
        msg.append(e.as_str());
        msg.append(" ");
        failed = true;
    }
    proof {
        assert(msg@ =~= p1 + p2 + p3 + p4 + p5);
        assert(card_err_spec(v) == p1 + p2 + p3 + p4 + p5);
        assert(failed == !card_ok(v));
    }
    if failed {
        Err(msg)
    } else {
        Ok(())
    }
}

} // verus!
