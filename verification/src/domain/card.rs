//! A customer loyalty card: identifier, holder names, personal numeric
//! identifier, two dates and a points balance.
//!
//! A card can only be observed with every field accepted by its validator:
//! construction runs the aggregate check and each setter re-runs the check
//! of its own field, leaving the card untouched on failure.

use crate::domain::date::date_from_string_spec;
use crate::domain::date::date_string_spec;
use crate::domain::date::lemma_date_round_trip;
use crate::domain::date::lemma_date_string_chars;
use crate::domain::date::Date;
use crate::repo::traits::Serializable;
use crate::text::csv_fields;
use crate::text::csv_fields_spec;
use crate::text::csv_line;
use crate::text::csv_line_spec;
use crate::text::field_or;
use crate::text::field_sep;
use crate::text::is_digit;
use crate::text::lemma_csv_line_round_trip;
use crate::text::lemma_digits_sep_free;
use crate::text::lemma_field_sep;
use crate::text::lemma_head_free_sep_free;
use crate::text::lemma_parse_u32_digits;
use crate::text::lemma_u32_digits_wf;
use crate::text::parse_u32;
use crate::text::quote_free;
use crate::text::sep_free;
use crate::text::u32_digits;
use crate::text::u32_or;
use crate::text::u32_to_string;
use crate::validators::card_validator::card_err_spec;
use crate::validators::card_validator::card_ok;
use crate::validators::card_validator::card_validator;
use crate::validators::card_validator::cnp_err_spec;
use crate::validators::card_validator::cnp_ok;
use crate::validators::card_validator::cnp_validator;
use crate::validators::card_validator::first_name_validator;
use crate::validators::card_validator::last_name_validator;
use crate::validators::card_validator::name_err_spec;
use crate::validators::card_validator::name_ok;
use crate::validators::common_validators::id_validator;
use crate::validators::date_validators::date_err_spec;
use crate::validators::date_validators::date_ok;
use crate::validators::date_validators::date_validator;
use vstd::prelude::*;
use vstd::string::StringExecFns;

verus! {

#[derive(Clone, Debug, PartialEq)]
pub struct Card {
    id: u32,
    first_name: String,
    last_name: String,
    cnp: String,
    birthday: Date,
    registration_date: Date,
    points: u32,
}

/// The abstract model of a card: its text fields as character sequences.
#[verifier::ext_equal]
pub ghost struct CardV {
    pub id: u32,
    pub first_name: Seq<char>,
    pub last_name: Seq<char>,
    pub cnp: Seq<char>,
    pub birthday: Date,
    pub registration_date: Date,
    pub points: u32,
}

impl View for Card {
    type V = CardV;

    closed spec fn view(&self) -> CardV {
        CardV {
            id: self.id,
            first_name: self.first_name@,
            last_name: self.last_name@,
            cnp: self.cnp@,
            birthday: self.birthday,
            registration_date: self.registration_date,
            points: self.points,
        }
    }
}

/// The rendered fields of a card, in declared order.
pub open spec fn card_fields_spec(v: CardV) -> Seq<Seq<char>> {
    seq![
        u32_digits(v.id as nat),
        v.first_name,
        v.last_name,
        v.cnp,
        date_string_spec(v.birthday),
        date_string_spec(v.registration_date),
        u32_digits(v.points as nat),
    ]
}

/// The candidate model recovered from one stored line, before validation: a
/// missing or unreadable field falls back to its fixed default.
pub open spec fn card_candidate_spec(line: Seq<char>) -> CardV {
    let parts = csv_fields_spec(line);
    CardV {
        id: u32_or(field_or(parts, 0, Seq::empty()), 0),
        first_name: field_or(parts, 1, "firstname"@),
        last_name: field_or(parts, 2, "lastname"@),
        cnp: field_or(parts, 3, "1234567890123"@),
        birthday: match date_from_string_spec(field_or(parts, 4, Seq::empty())) {
            Some(d) => d,
            None => Date { day: 1, month: 1, year: 2000 },
        },
        registration_date: match date_from_string_spec(field_or(parts, 5, Seq::empty())) {
            Some(d) => d,
            None => Date { day: 1, month: 1, year: 2000 },
        },
        points: u32_or(field_or(parts, 6, Seq::empty()), 0),
    }
}

/// What reading one stored line yields: the candidate, if it validates.
pub open spec fn card_from_line_spec(line: Seq<char>) -> Option<CardV> {
    if card_ok(card_candidate_spec(line)) {
        Some(card_candidate_spec(line))
    } else {
        None
    }
}

impl Card {
    /// Builds a card after running the aggregate check; any violated rule
    /// rejects the whole candidate with the collected report.
    pub fn new(
        id: u32,
        first_name: &str,
        last_name: &str,
        cnp: &str,
        birthday: Date,
        registration_date: Date,
        points: u32,
    ) -> (r: Result<Card, String>)
        ensures
            r is Ok <==> card_ok(
                CardV {
                    id,
                    first_name: first_name@,
                    last_name: last_name@,
                    cnp: cnp@,
                    birthday,
                    registration_date,
                    points,
                },
            ),
            r matches Ok(c) ==> c@ == (CardV {
                id,
                first_name: first_name@,
                last_name: last_name@,
                cnp: cnp@,
                birthday,
                registration_date,
                points,
            }),
            r matches Err(m) ==> m@ == card_err_spec(
                CardV {
                    id,
                    first_name: first_name@,
                    last_name: last_name@,
                    cnp: cnp@,
                    birthday,
                    registration_date,
                    points,
                },
            ),
    {
        let card = Card {
            id,
            first_name: first_name.to_owned(),
            last_name: last_name.to_owned(),
            cnp: cnp.to_owned(),
            birthday,
            registration_date,
            points,
        };
        match card_validator(&card) {
            Result::Ok(()) => Result::Ok(card),
            Result::Err(err) => Result::Err(err),
        }
    }

    pub fn id(&self) -> (r: u32)
        ensures
            r == self@.id,
    {
        self.id
    }

    pub fn first_name(&self) -> (r: &str)
        ensures
            r@ == self@.first_name,
    {
        self.first_name.as_str()
    }

    pub fn last_name(&self) -> (r: &str)
        ensures
            r@ == self@.last_name,
    {
        self.last_name.as_str()
    }

    pub fn cnp(&self) -> (r: &str)
        ensures
            r@ == self@.cnp,
    {
        self.cnp.as_str()
    }

    pub fn birthday(&self) -> (r: Date)
        ensures
            r == self@.birthday,
    {
        self.birthday
    }

    pub fn registration_date(&self) -> (r: Date)
        ensures
            r == self@.registration_date,
    {
        self.registration_date
    }

    pub fn points(&self) -> (r: u32)
        ensures
            r == self@.points,
    {
        self.points
    }

    /// Replaces the identifier; every identifier is accepted.
    pub fn set_id(&mut self, id: u32) -> (r: Result<(), String>)
        ensures
            r is Ok,
            final(self)@ == (CardV { id, ..old(self)@ }),
    {
        match id_validator(id) {
            Result::Ok(()) => {
                self.id = id;
                Result::Ok(())
            },
            Result::Err(err) => Result::Err(err),
        }
    }

    /// Replaces the first name if it passes its own check; otherwise leaves
    /// the card untouched and reports the failure.
    pub fn set_first_name(&mut self, first_name: &str) -> (r: Result<(), String>)
        ensures
            r is Ok <==> name_ok(first_name@),
            r is Ok ==> final(self)@ == (CardV { first_name: first_name@, ..old(self)@ }),
            r is Err ==> final(self)@ == old(self)@,
            r matches Err(m) ==> m@ == name_err_spec(first_name@, "first name"@),
    {
        match first_name_validator(first_name) {
            Result::Ok(()) => {
                self.first_name = first_name.to_owned();
                Result::Ok(())
            },
            Result::Err(err) => Result::Err(err),
        }
    }

    /// Replaces the last name if it passes its own check.
    pub fn set_last_name(&mut self, last_name: &str) -> (r: Result<(), String>)
        ensures
            r is Ok <==> name_ok(last_name@),
            r is Ok ==> final(self)@ == (CardV { last_name: last_name@, ..old(self)@ }),
            r is Err ==> final(self)@ == old(self)@,
            r matches Err(m) ==> m@ == name_err_spec(last_name@, "last name"@),
    {
        match last_name_validator(last_name) {
            Result::Ok(()) => {
                self.last_name = last_name.to_owned();
                Result::Ok(())
            },
            Result::Err(err) => Result::Err(err),
        }
    }

    /// Replaces the personal identifier if it passes its own check.
    pub fn set_cnp(&mut self, cnp: &str) -> (r: Result<(), String>)
        ensures
            r is Ok <==> cnp_ok(cnp@),
            r is Ok ==> final(self)@ == (CardV { cnp: cnp@, ..old(self)@ }),
            r is Err ==> final(self)@ == old(self)@,
            r matches Err(m) ==> m@ == cnp_err_spec(cnp@),
    {
        match cnp_validator(cnp) {
            Result::Ok(()) => {
                self.cnp = cnp.to_owned();
                Result::Ok(())
            },
            Result::Err(err) => Result::Err(err),
        }
    }

    /// Replaces the birthday if all its fields are in range.
    pub fn set_birthday(&mut self, birthday: Date) -> (r: Result<(), String>)
        ensures
            r is Ok <==> date_ok(birthday),
            r is Ok ==> final(self)@ == (CardV { birthday, ..old(self)@ }),
            r is Err ==> final(self)@ == old(self)@,
            r matches Err(m) ==> m@ == date_err_spec(
                birthday.spec_day() as int,
                birthday.spec_month() as int,
                birthday.spec_year() as int,
            ),
    {
        match date_validator(&birthday) {
            Result::Ok(()) => {
                self.birthday = birthday;
                Result::Ok(())
            },
            Result::Err(err) => Result::Err(err),
        }
    }

    /// Replaces the registration date if all its fields are in range.
    pub fn set_registration_date(&mut self, registration_date: Date) -> (r: Result<(), String>)
        ensures
            r is Ok <==> date_ok(registration_date),
            r is Ok ==> final(self)@ == (CardV { registration_date, ..old(self)@ }),
            r is Err ==> final(self)@ == old(self)@,
            r matches Err(m) ==> m@ == date_err_spec(
                registration_date.spec_day() as int,
                registration_date.spec_month() as int,
                registration_date.spec_year() as int,
            ),
    {
        match date_validator(&registration_date) {
            Result::Ok(()) => {
                self.registration_date = registration_date;
                Result::Ok(())
            },
            Result::Err(err) => Result::Err(err),
        }
    }

    /// Replaces the points balance; every balance is accepted.
    pub fn set_points(&mut self, points: u32) -> (r: Result<(), String>)
        ensures
            r is Ok,
            final(self)@ == (CardV { points, ..old(self)@ }),
    {
        self.points = points;
        Result::Ok(())
    }
}

impl Serializable for Card {
    open spec fn inv(&self) -> bool {
        card_ok(self@)
    }

    open spec fn csv_spec(v: CardV) -> Seq<char> {
        csv_line_spec(card_fields_spec(v))
    }

    open spec fn from_csv_spec(s: Seq<char>) -> Option<CardV> {
        card_from_line_spec(s)
    }

    open spec fn csv_safe(&self) -> bool {
        quote_free(self@.first_name) && quote_free(self@.last_name)
    }

    fn to_csv(&self) -> (r: String)
        ensures
            r@ == Self::csv_spec(self@),
    {
        let mut fields: Vec<String> = Vec::new();
        fields.push(u32_to_string(self.id));
        fields.push(self.first_name.clone());
        fields.push(self.last_name.clone());
        fields.push(self.cnp.clone());
        fields.push(self.birthday.to_string());
        fields.push(self.registration_date.to_string());
        fields.push(u32_to_string(self.points));
        proof {
            assert(fields.deep_view() =~= card_fields_spec(self@));
        }
        csv_line(&fields)
    }

    fn from_csv_to_obj(s: &str) -> (r: Result<Card, String>)
        ensures
            r matches Ok(t) ==> Self::from_csv_spec(s@) == Some(t@) && t.inv(),
            r is Err <==> Self::from_csv_spec(s@) is None,
    {
        let parts = csv_fields(s);
        let ghost pv = csv_fields_spec(s@);
        let id: u32 = if parts.len() > 0 {
            match parse_u32(parts[0].as_str()) {
                Some(v) => v,
                None => 0,
            }
        } else {
            0
        };
        let first_name: String = if parts.len() > 1 {
            parts[1].clone()
        } else {
            String::from_str("firstname")
        };
        let last_name: String = if parts.len() > 2 {
            parts[2].clone()
        } else {
            String::from_str("lastname")
        };
        let cnp: String = if parts.len() > 3 {
            parts[3].clone()
        } else {
            String::from_str("1234567890123")
        };
        let birthday: Date = if parts.len() > 4 {
            match Date::from_string(parts[4].as_str()) {
                Ok(d) => d,
                Err(_) => Date::default(),
            }
        } else {
            Date::default()
        };
        let registration_date: Date = if parts.len() > 5 {
            match Date::from_string(parts[5].as_str()) {
                Ok(d) => d,
                Err(_) => Date::default(),
            }
        } else {
            Date::default()
        };
        let points: u32 = if parts.len() > 6 {
            match parse_u32(parts[6].as_str()) {
                Some(v) => v,
                None => 0,
            }
        } else {
            0
        };
        proof {
            assert(parts.deep_view() == pv);
            assert(parts@.len() == pv.len());
            assert forall|k: int| 0 <= k < pv.len() implies parts@[k]@ == pv[k] by {
                assert(parts.deep_view()[k] == parts@[k]@);
            }
            assert(card_candidate_spec(s@) =~= (CardV {
                id,
                first_name: first_name@,
                last_name: last_name@,
                cnp: cnp@,
                birthday,
                registration_date,
                points,
            }));
        }
        Card::new(
            id,
            first_name.as_str(),
            last_name.as_str(),
            cnp.as_str(),
            birthday,
            registration_date,
            points,
        )
    }

    proof fn lemma_csv_round_trip(&self) {
        let v = self@;
        let fields = card_fields_spec(v);
        let sep = field_sep();
        lemma_field_sep();
        lemma_u32_digits_wf(v.id as nat);
        lemma_u32_digits_wf(v.points as nat);
        lemma_digits_sep_free(u32_digits(v.id as nat), sep);
        lemma_digits_sep_free(u32_digits(v.points as nat), sep);
        lemma_head_free_sep_free(v.first_name, sep);
        lemma_head_free_sep_free(v.last_name, sep);
        lemma_digits_sep_free(v.cnp, sep);
        lemma_date_string_chars(v.birthday);
        lemma_date_string_chars(v.registration_date);
        lemma_head_free_sep_free(date_string_spec(v.birthday), sep);
        lemma_head_free_sep_free(date_string_spec(v.registration_date), sep);
        assert forall|k: int| 0 <= k < fields.len() implies sep_free(#[trigger] fields[k], sep) by {
            assert(fields[0] == u32_digits(v.id as nat));
            assert(fields[1] == v.first_name);
            assert(fields[2] == v.last_name);
            assert(fields[3] == v.cnp);
            assert(fields[4] == date_string_spec(v.birthday));
            assert(fields[5] == date_string_spec(v.registration_date));
            assert(fields[6] == u32_digits(v.points as nat));
        }
        assert(fields[0].len() > 0 && is_digit(fields[0][0]));
        assert(fields.last() == u32_digits(v.points as nat));
        assert(fields.last().len() > 0 && is_digit(fields.last().last()));
        lemma_csv_line_round_trip(fields);
        let line = csv_line_spec(fields);
        let parts = csv_fields_spec(line);
        assert(parts == fields);
        lemma_parse_u32_digits(v.id);
        lemma_parse_u32_digits(v.points);
        lemma_date_round_trip(v.birthday);
        lemma_date_round_trip(v.registration_date);
        assert(card_candidate_spec(line) =~= v);
    }
}

} // verus!
