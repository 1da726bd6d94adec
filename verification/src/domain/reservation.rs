//! A reservation: its own identifier, the reserved movie, an optional
//! loyalty-card link (absence means a walk-in customer), a date and a time
//! of day. The movie and card links are soft references; nothing checks
//! them against the other stores.

use crate::domain::date::date_from_string_spec;
use crate::domain::date::date_string_spec;
use crate::domain::date::lemma_date_round_trip;
use crate::domain::date::lemma_date_string_chars;
use crate::domain::date::Date;
use crate::repo::traits::Serializable;
use crate::text::csv_fields;
use crate::text::csv_fields_spec;
use crate::text::csv_line;
use crate::text::csv_line_spec;
use crate::text::field_or;
use crate::text::field_sep;
use crate::text::is_digit;
use crate::text::lemma_csv_line_round_trip;
use crate::text::lemma_digits_sep_free;
use crate::text::lemma_field_sep;
use crate::text::lemma_head_free_sep_free;
use crate::text::lemma_parse_u32_digits;
use crate::text::lemma_u32_digits_wf;
use crate::text::parse_u32;
use crate::text::parse_u32_spec;
use crate::text::sep_free;
use crate::text::u32_digits;
use crate::text::u32_or;
use crate::text::u32_to_string;
use crate::validators::reservation_validator::reservation_err_spec;
use crate::validators::reservation_validator::reservation_ok;
use crate::validators::reservation_validator::reservation_validator;
use crate::validators::reservation_validator::time_ok;
use vstd::prelude::*;
use vstd::string::StringExecFns;

verus! {

#[derive(Clone, Debug, PartialEq)]
pub struct Reservation {
    id: u32,
    movie_id: u32,
    card_id: Option<u32>,
    date: Date,
    hour: String,
}

/// The abstract model of a reservation: its time as a character sequence.
#[verifier::ext_equal]
pub ghost struct ReservationV {
    pub id: u32,
    pub movie_id: u32,
    pub card_id: Option<u32>,
    pub date: Date,
    pub hour: Seq<char>,
}

impl View for Reservation {
    type V = ReservationV;

    closed spec fn view(&self) -> ReservationV {
        ReservationV {
            id: self.id,
            movie_id: self.movie_id,
            card_id: self.card_id,
            date: self.date,
            hour: self.hour@,
        }
    }
}

/// The rendering of the loyalty-card link: the literal `None` for absence.
pub open spec fn card_id_string(o: Option<u32>) -> Seq<char> {
    match o {
        None => "None"@,
        Some(x) => u32_digits(x as nat),
    }
}

/// The rendered fields of a reservation, in declared order.
pub open spec fn reservation_fields_spec(v: ReservationV) -> Seq<Seq<char>> {
    seq![
        u32_digits(v.id as nat),
        u32_digits(v.movie_id as nat),
        card_id_string(v.card_id),
        date_string_spec(v.date),
        v.hour,
    ]
}

/// The candidate model recovered from one stored line, before validation:
/// any token of the link field that is not a number reads back as absence.
pub open spec fn reservation_candidate_spec(line: Seq<char>) -> ReservationV {
    let parts = csv_fields_spec(line);
    ReservationV {
        id: u32_or(field_or(parts, 0, Seq::empty()), 0),
        movie_id: u32_or(field_or(parts, 1, Seq::empty()), 0),
        card_id: parse_u32_spec(field_or(parts, 2, Seq::empty())),
        date: match date_from_string_spec(field_or(parts, 3, Seq::empty())) {
            Some(d) => d,
            None => Date { day: 1, month: 1, year: 2000 },
        },
        hour: field_or(parts, 4, "00:00"@),
    }
}

/// What reading one stored line yields: the candidate, if it validates.
pub open spec fn reservation_from_line_spec(line: Seq<char>) -> Option<ReservationV> {
    if reservation_ok(reservation_candidate_spec(line)) {
        Some(reservation_candidate_spec(line))
    } else {
        None
    }
}

impl Reservation {
    /// Builds a reservation after running the aggregate check; any violated
    /// rule rejects the whole candidate with the collected report.
    pub fn new(id: u32, movie_id: u32, card_id: Option<u32>, date: Date, hour: String) -> (r:
        Result<Reservation, String>)
        ensures
            r is Ok <==> reservation_ok(
                ReservationV { id, movie_id, card_id, date, hour: hour@ },
            ),
            r matches Ok(t) ==> t@ == (ReservationV { id, movie_id, card_id, date, hour: hour@ }),
            r matches Err(m) ==> m@ == reservation_err_spec(
                ReservationV { id, movie_id, card_id, date, hour: hour@ },
            ),
    {
        let reservation = Reservation { id, movie_id, card_id, date, hour };
        match reservation_validator(&reservation) {
            Result::Ok(()) => Result::Ok(reservation),
            Result::Err(err) => Result::Err(err),
        }
    }

    pub fn id(&self) -> (r: u32)
        ensures
            r == self@.id,
    {
        self.id
    }

    pub fn movie_id(&self) -> (r: u32)
        ensures
            r == self@.movie_id,
    {
        self.movie_id
    }

    pub fn card_id(&self) -> (r: Option<u32>)
        ensures
            r == self@.card_id,
    {
        self.card_id
    }

    pub fn date(&self) -> (r: Date)
        ensures
            r == self@.date,
    {
        self.date
    }

    pub fn hour(&self) -> (r: &str)
        ensures
            r@ == self@.hour,
    {
        self.hour.as_str()
    }
}

impl Serializable for Reservation {
    open spec fn inv(&self) -> bool {
        reservation_ok(self@)
    }

    open spec fn csv_spec(v: ReservationV) -> Seq<char> {
        csv_line_spec(reservation_fields_spec(v))
    }

    open spec fn from_csv_spec(s: Seq<char>) -> Option<ReservationV> {
        reservation_from_line_spec(s)
    }

    open spec fn csv_safe(&self) -> bool {
        true
    }

    fn to_csv(&self) -> (r: String)
        ensures
            r@ == Self::csv_spec(self@),
    {
        let mut fields: Vec<String> = Vec::new();
        fields.push(u32_to_string(self.id));
        fields.push(u32_to_string(self.movie_id));
        fields.push(
            match self.card_id {
                None => String::from_str("None"),
                Some(x) => u32_to_string(x),
            },
        );
        fields.push(self.date.to_string());
        fields.push(self.hour.clone());
        proof {
            assert(fields.deep_view() =~= reservation_fields_spec(self@));
        }
        csv_line(&fields)
    }

    fn from_csv_to_obj(s: &str) -> (r: Result<Reservation, String>)
        ensures
            r matches Ok(t) ==> Self::from_csv_spec(s@) == Some(t@) && t.inv(),
            r is Err <==> Self::from_csv_spec(s@) is None,
    {
        let parts = csv_fields(s);
        let ghost pv = csv_fields_spec(s@);
        let id: u32 = if parts.len() > 0 {
            match parse_u32(parts[0].as_str()) {
                Some(v) => v,
                None => 0,
            }
        } else {
            0
        };
        let movie_id: u32 = if parts.len() > 1 {
            match parse_u32(parts[1].as_str()) {
                Some(v) => v,
                None => 0,
            }
        } else {
            0
        };
        let card_id: Option<u32> = if parts.len() > 2 {
            parse_u32(parts[2].as_str())
        } else {
            None
        };
        let date: Date = if parts.len() > 3 {
            match Date::from_string(parts[3].as_str()) {
                Ok(d) => d,
                Err(_) => Date::default(),
            }
        } else {
            Date::default()
        };
        let hour: String = if parts.len() > 4 {
            parts[4].clone()
        } else {
            String::from_str("00:00")
        };
        proof {
            assert(parts.deep_view() == pv);
            assert(parts@.len() == pv.len());
            assert forall|k: int| 0 <= k < pv.len() implies parts@[k]@ == pv[k] by {
                assert(parts.deep_view()[k] == parts@[k]@);
            }
            if pv.len() <= 2 {
                assert(parse_u32_spec(field_or(pv, 2, Seq::empty())) is None);
            }
            assert(reservation_candidate_spec(s@) =~= (ReservationV {
                id,
                movie_id,
                card_id,
                date,
                hour: hour@,
            }));
        }
        Reservation::new(id, movie_id, card_id, date, hour)
    }

    proof fn lemma_csv_round_trip(&self) {
        let v = self@;
        let fields = reservation_fields_spec(v);
        let sep = field_sep();
        lemma_field_sep();
        reveal_strlit("None");
        lemma_u32_digits_wf(v.id as nat);
        lemma_u32_digits_wf(v.movie_id as nat);
        lemma_digits_sep_free(u32_digits(v.id as nat), sep);
        lemma_digits_sep_free(u32_digits(v.movie_id as nat), sep);
        match v.card_id {
            None => {
                assert(card_id_string(v.card_id) == "None"@);
                assert forall|i: int| 0 <= i < ("None"@).len() implies ("None"@)[i] != '"' by {}
                lemma_head_free_sep_free(card_id_string(v.card_id), sep);
            },
            Some(x) => {
                lemma_u32_digits_wf(x as nat);
                lemma_digits_sep_free(u32_digits(x as nat), sep);
            },
        }
        lemma_date_string_chars(v.date);
        lemma_head_free_sep_free(date_string_spec(v.date), sep);
        assert(time_ok(v.hour));
        assert forall|i: int| 0 <= i < v.hour.len() implies v.hour[i] != '"' by {
            if i == 0 || i == 1 || i == 3 || i == 4 {
                assert(is_digit(v.hour[i]));
            } else {
                assert(i == 2);
            }
        }
        lemma_head_free_sep_free(v.hour, sep);
        assert forall|k: int| 0 <= k < fields.len() implies sep_free(#[trigger] fields[k], sep) by {
            assert(fields[0] == u32_digits(v.id as nat));
            assert(fields[1] == u32_digits(v.movie_id as nat));
            assert(fields[2] == card_id_string(v.card_id));
            assert(fields[3] == date_string_spec(v.date));
            assert(fields[4] == v.hour);
        }
        assert(fields[0].len() > 0 && is_digit(fields[0][0]));
        assert(fields.last() == v.hour);
        assert(fields.last().len() == 5);
        assert(is_digit(fields.last().last()));
        lemma_csv_line_round_trip(fields);
        let line = csv_line_spec(fields);
        let parts = csv_fields_spec(line);
        assert(parts == fields);
        lemma_parse_u32_digits(v.id);
        lemma_parse_u32_digits(v.movie_id);
        match v.card_id {
            None => {
                assert(!is_digit(("None"@)[0]));
                assert(parse_u32_spec("None"@) is None);
            },
            Some(x) => {
                lemma_parse_u32_digits(x);
            },
        }
        lemma_date_round_trip(v.date);
        assert(reservation_candidate_spec(line) =~= v);
    }
}

} // verus!
