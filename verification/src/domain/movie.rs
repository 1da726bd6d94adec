//! A movie of the rental programme: identifier, title, release year, price
//! and a flag saying whether it is currently offered.

use crate::repo::traits::Serializable;
use crate::text::csv_fields;
use crate::text::csv_fields_spec;
use crate::text::csv_line;
use crate::text::csv_line_spec;
use crate::text::field_or;
use crate::text::field_sep;
use crate::text::is_digit;
use crate::text::lemma_csv_line_round_trip;
use crate::text::lemma_digits_sep_free;
use crate::text::lemma_field_sep;
use crate::text::lemma_head_free_sep_free;
use crate::text::lemma_parse_u32_digits;
use crate::text::lemma_u32_digits_wf;
use crate::text::parse_u32;
use crate::text::quote_free;
use crate::text::sep_free;
use crate::text::u32_digits;
use crate::text::u32_or;
use crate::text::u32_to_string;
use crate::validators::common_validators::id_validator;
use crate::validators::movie_validator::movie_err_spec;
use crate::validators::movie_validator::movie_ok;
use crate::validators::movie_validator::movie_validator;
use crate::validators::movie_validator::price_msg;
use crate::validators::movie_validator::price_ok;
use crate::validators::movie_validator::price_validator;
use crate::validators::movie_validator::release_year_msg;
use crate::validators::movie_validator::release_year_ok;
use crate::validators::movie_validator::release_year_validator;
use crate::validators::movie_validator::title_msg;
use crate::validators::movie_validator::title_ok;
use crate::validators::movie_validator::title_validator;
use vstd::prelude::*;
use vstd::string::StringExecFns;

verus! {

#[derive(Clone, Debug, PartialEq)]
pub struct Movie {
    id: u32,
    title: String,
    release_year: u32,
    price: u32,
    in_program: bool,
}

/// The abstract model of a movie: its title as a character sequence.
#[verifier::ext_equal]
pub ghost struct MovieV {
    pub id: u32,
    pub title: Seq<char>,
    pub release_year: u32,
    pub price: u32,
    pub in_program: bool,
}

impl View for Movie {
    type V = MovieV;

    closed spec fn view(&self) -> MovieV {
        MovieV {
            id: self.id,
            title: self.title@,
            release_year: self.release_year,
            price: self.price,
            in_program: self.in_program,
        }
    }
}

/// The rendering of the programme flag.
pub open spec fn bool_string(b: bool) -> Seq<char> {
    if b {
        "true"@
    } else {
        "false"@
    }
}

/// The rendered fields of a movie, in declared order.
pub open spec fn movie_fields_spec(v: MovieV) -> Seq<Seq<char>> {
    seq![
        u32_digits(v.id as nat),
        v.title,
        u32_digits(v.release_year as nat),
        u32_digits(v.price as nat),
        bool_string(v.in_program),
    ]
}

/// The candidate model recovered from one stored line, before validation: a
/// missing or unreadable field falls back to its fixed default.
pub open spec fn movie_candidate_spec(line: Seq<char>) -> MovieV {
    let parts = csv_fields_spec(line);
    MovieV {
        id: u32_or(field_or(parts, 0, Seq::empty()), 0),
        title: field_or(parts, 1, "placeholder"@),
        release_year: u32_or(field_or(parts, 2, Seq::empty()), 1926),
        price: u32_or(field_or(parts, 3, Seq::empty()), 0),
        in_program: field_or(parts, 4, Seq::empty()) == "true"@,
    }
}

/// What reading one stored line yields: the candidate, if it validates.
pub open spec fn movie_from_line_spec(line: Seq<char>) -> Option<MovieV> {
    if movie_ok(movie_candidate_spec(line)) {
        Some(movie_candidate_spec(line))
    } else {
        None
    }
}

impl Movie {
    /// Builds a movie after running the aggregate check; any violated rule
    /// rejects the whole candidate with the collected report.
    pub fn new(id: u32, title: &str, release_year: u32, price: u32, in_program: bool) -> (r: Result<
        Movie,
        String,
    >)
        ensures
            r is Ok <==> movie_ok(
                MovieV { id, title: title@, release_year, price, in_program },
            ),
            r matches Ok(m) ==> m@ == (MovieV { id, title: title@, release_year, price, in_program }),
            r matches Err(e) ==> e@ == movie_err_spec(
                MovieV { id, title: title@, release_year, price, in_program },
            ),
    {
        let movie = Movie { id, release_year, price, in_program, title: title.to_owned() };
        match movie_validator(&movie) {
            Result::Ok(()) => Result::Ok(movie),
            Result::Err(err) => Result::Err(err),
        }
    }

    pub fn id(&self) -> (r: u32)
        ensures
            r == self@.id,
    {
        self.id
    }

    pub fn title(&self) -> (r: &str)
        ensures
            r@ == self@.title,
    {
        self.title.as_str()
    }

    pub fn release_year(&self) -> (r: u32)
        ensures
            r == self@.release_year,
    {
        self.release_year
    }

    pub fn price(&self) -> (r: u32)
        ensures
            r == self@.price,
    {
        self.price
    }

    pub fn in_program(&self) -> (r: bool)
        ensures
            r == self@.in_program,
    {
        self.in_program
    }

    /// Replaces the identifier; every identifier is accepted.
    pub fn set_id(&mut self, id: u32) -> (r: Result<(), String>)
        ensures
            r is Ok,
            final(self)@ == (MovieV { id, ..old(self)@ }),
    {
        match id_validator(id) {
            Result::Ok(()) => {
                self.id = id;
                Result::Ok(())
            },
            Result::Err(err) => Result::Err(err),
        }
    }

    /// Replaces the title if it passes its own check; otherwise leaves the
    /// movie untouched and reports the failure.
    pub fn set_title(&mut self, title: &str) -> (r: Result<(), String>)
        ensures
            r is Ok <==> title_ok(title@),
            r is Ok ==> final(self)@ == (MovieV { title: title@, ..old(self)@ }),
            r is Err ==> final(self)@ == old(self)@,
            r matches Err(m) ==> m@ == title_msg(),
    {
        match title_validator(title) {
            Result::Ok(()) => {
                self.title = title.to_owned();
                Result::Ok(())
            },
            Result::Err(err) => Result::Err(err),
        }
    }

    /// Replaces the release year if it passes its own check.
    pub fn set_release_year(&mut self, release_year: u32) -> (r: Result<(), String>)
        ensures
            r is Ok <==> release_year_ok(release_year as int),
            r is Ok ==> final(self)@ == (MovieV { release_year, ..old(self)@ }),
            r is Err ==> final(self)@ == old(self)@,
            r matches Err(m) ==> m@ == release_year_msg(),
    {
        match release_year_validator(release_year) {
            Result::Ok(()) => {
                self.release_year = release_year;
                Result::Ok(())
            },
            Result::Err(err) => Result::Err(err),
        }
    }

    /// Replaces the price if it passes its own check.
    pub fn set_price(&mut self, price: u32) -> (r: Result<(), String>)
        ensures
            r is Ok <==> price_ok(price as int),
            r is Ok ==> final(self)@ == (MovieV { price, ..old(self)@ }),
            r is Err ==> final(self)@ == old(self)@,
            r matches Err(m) ==> m@ == price_msg(),
    {
        match price_validator(price) {
            Result::Ok(()) => {
                self.price = price;
                Result::Ok(())
            },
            Result::Err(err) => Result::Err(err),
        }
    }

    /// Replaces the programme flag; both values are accepted.
    pub fn set_in_program(&mut self, in_program: bool) -> (r: Result<(), String>)
        ensures
            r is Ok,
            final(self)@ == (MovieV { in_program, ..old(self)@ }),
    {
        self.in_program = in_program;
        Result::Ok(())
    }
}

impl Serializable for Movie {
    open spec fn inv(&self) -> bool {
        movie_ok(self@)
    }

    open spec fn csv_spec(v: MovieV) -> Seq<char> {
        csv_line_spec(movie_fields_spec(v))
    }

    open spec fn from_csv_spec(s: Seq<char>) -> Option<MovieV> {
        movie_from_line_spec(s)
    }

    open spec fn csv_safe(&self) -> bool {
        quote_free(self@.title)
    }

    fn to_csv(&self) -> (r: String)
        ensures
            r@ == Self::csv_spec(self@),
    {
        let mut fields: Vec<String> = Vec::new();
        fields.push(u32_to_string(self.id));
        fields.push(self.title.clone());
        fields.push(u32_to_string(self.release_year));
        fields.push(u32_to_string(self.price));
        fields.push(
            if self.in_program {
                String::from_str("true")
            } else {
                String::from_str("false")
            },
        );
        proof {
            assert(fields.deep_view() =~= movie_fields_spec(self@));
        }
        csv_line(&fields)
    }

    fn from_csv_to_obj(s: &str) -> (r: Result<Movie, String>)
        ensures
            r matches Ok(t) ==> Self::from_csv_spec(s@) == Some(t@) && t.inv(),
            r is Err <==> Self::from_csv_spec(s@) is None,
    {
        let parts = csv_fields(s);
        let ghost pv = csv_fields_spec(s@);
        let id: u32 = if parts.len() > 0 {
            match parse_u32(parts[0].as_str()) {
                Some(v) => v,
                None => 0,
            }
        } else {
            0
        };
        let title: String = if parts.len() > 1 {
            parts[1].clone()
        } else {
            String::from_str("placeholder")
        };
        let release_year: u32 = if parts.len() > 2 {
            match parse_u32(parts[2].as_str()) {
                Some(v) => v,
                None => 1926,
            }
        } else {
            1926
        };
        let price: u32 = if parts.len() > 3 {
            match parse_u32(parts[3].as_str()) {
                Some(v) => v,
                None => 0,
            }
        } else {
            0
        };
        let truth = String::from_str("true");
        let in_program: bool = if parts.len() > 4 {
            parts[4] == truth
        } else {
            false
        };
        proof {
            assert(parts.deep_view() == pv);
            assert(parts@.len() == pv.len());
            assert forall|k: int| 0 <= k < pv.len() implies parts@[k]@ == pv[k] by {
                assert(parts.deep_view()[k] == parts@[k]@);
            }
            if pv.len() <= 4 {
                reveal_strlit("true");
                assert(field_or(pv, 4, Seq::empty()).len() == 0);
                assert(field_or(pv, 4, Seq::empty()) != "true"@);
            }
            assert(movie_candidate_spec(s@) =~= (MovieV {
                id,
                title: title@,
                release_year,
                price,
                in_program,
            }));
        }
        Movie::new(id, title.as_str(), release_year, price, in_program)
    }

    proof fn lemma_csv_round_trip(&self) {
        let v = self@;
        let fields = movie_fields_spec(v);
        let sep = field_sep();
        lemma_field_sep();
        reveal_strlit("true");
        reveal_strlit("false");
        lemma_u32_digits_wf(v.id as nat);
        lemma_u32_digits_wf(v.release_year as nat);
        lemma_u32_digits_wf(v.price as nat);
        lemma_digits_sep_free(u32_digits(v.id as nat), sep);
        lemma_digits_sep_free(u32_digits(v.release_year as nat), sep);
        lemma_digits_sep_free(u32_digits(v.price as nat), sep);
        lemma_head_free_sep_free(v.title, sep);
        assert forall|i: int| 0 <= i < bool_string(v.in_program).len() implies bool_string(
            v.in_program,
        )[i] != '"' by {
            if v.in_program {
                assert(bool_string(true) == "true"@);
            } else {
                assert(bool_string(false) == "false"@);
            }
        }
        lemma_head_free_sep_free(bool_string(v.in_program), sep);
        assert forall|k: int| 0 <= k < fields.len() implies sep_free(#[trigger] fields[k], sep) by {
            assert(fields[0] == u32_digits(v.id as nat));
            assert(fields[1] == v.title);
            assert(fields[2] == u32_digits(v.release_year as nat));
            assert(fields[3] == u32_digits(v.price as nat));
            assert(fields[4] == bool_string(v.in_program));
        }
        assert(fields[0].len() > 0 && is_digit(fields[0][0]));
        assert(fields.last() == bool_string(v.in_program));
        assert(fields.last().len() > 0);
        assert(fields.last().last() == 'e');
        lemma_csv_line_round_trip(fields);
        let line = csv_line_spec(fields);
        let parts = csv_fields_spec(line);
        assert(parts == fields);
        lemma_parse_u32_digits(v.id);
        lemma_parse_u32_digits(v.release_year);
        lemma_parse_u32_digits(v.price);
        assert(("false"@).len() != ("true"@).len());
        assert((bool_string(v.in_program) == "true"@) == v.in_program);
        assert(movie_candidate_spec(line) =~= v);
    }
}

} // verus!
