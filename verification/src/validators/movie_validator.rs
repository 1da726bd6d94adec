//! Field checks for a movie, and the aggregate check that reports every
//! violated rule at once.

use crate::domain::movie::Movie;
use crate::domain::movie::MovieV;
use crate::text::contains_seq;
use crate::text::lemma_contains_extend_left;
use crate::text::lemma_contains_extend_right;
use crate::text::lemma_contains_prefix;
use crate::validators::common_validators::id_validator;
use vstd::prelude::*;
use vstd::string::StrSliceExecFns;
use vstd::string::StringExecFns;

verus! {

/// An accepted title: two to twenty characters.
pub open spec fn title_ok(s: Seq<char>) -> bool {
    1 < s.len() < 21
}

pub open spec fn title_msg() -> Seq<char> {
    "The title needs to be between 1 and 21 characters."@
}

/// An accepted release year: strictly between 1925 and 2025.
pub open spec fn release_year_ok(y: int) -> bool {
    1925 < y < 2025
}

pub open spec fn release_year_msg() -> Seq<char> {
    "The release year needs to be between 1925 and 2025"@
}

/// An accepted price: strictly below ten thousand.
pub open spec fn price_ok(p: int) -> bool {
    p < 10000
}

pub open spec fn price_msg() -> Seq<char> {
    "The price must be lower than 10.000"@
}

/// Every field of the movie passes its check.
pub open spec fn movie_ok(v: MovieV) -> bool {
    &&& title_ok(v.title)
    &&& release_year_ok(v.release_year as int)
    &&& price_ok(v.price as int)
}

/// The aggregate failure report for a movie: the message of every violated
/// rule, in field order, each followed by one space.
pub open spec fn movie_err_spec(v: MovieV) -> Seq<char> {
    (if !title_ok(v.title) {
        title_msg() + " "@
    } else {
        Seq::<char>::empty()
    }) + (if !release_year_ok(v.release_year as int) {
        release_year_msg() + " "@
    } else {
        Seq::<char>::empty()
    }) + (if !price_ok(v.price as int) {
        price_msg() + " "@
    } else {
        Seq::<char>::empty()
    })
}

/// Every violated rule's message appears in the aggregate report.
pub proof fn lemma_movie_report_lists_failures(v: MovieV)
    ensures
        !title_ok(v.title) ==> contains_seq(movie_err_spec(v), title_msg()),
        !release_year_ok(v.release_year as int) ==> contains_seq(
            movie_err_spec(v),
            release_year_msg(),
        ),
        !price_ok(v.price as int) ==> contains_seq(movie_err_spec(v), price_msg()),
{
    let p1 = if !title_ok(v.title) {
        title_msg() + " "@
    } else {
        Seq::<char>::empty()
    };
    let p2 = if !release_year_ok(v.release_year as int) {
        release_year_msg() + " "@
    } else {
        Seq::<char>::empty()
    };
    let p3 = if !price_ok(v.price as int) {
        price_msg() + " "@
    } else {
        Seq::<char>::empty()
    };
    assert(movie_err_spec(v) == p1 + p2 + p3);
    if !title_ok(v.title) {
        lemma_contains_prefix(title_msg(), " "@);
        lemma_contains_extend_right(p1, p2, title_msg());
        lemma_contains_extend_right(p1 + p2, p3, title_msg());
    }
    if !release_year_ok(v.release_year as int) {
        lemma_contains_prefix(release_year_msg(), " "@);
        lemma_contains_extend_left(p1, p2, release_year_msg());
        lemma_contains_extend_right(p1 + p2, p3, release_year_msg());
    }
    if !price_ok(v.price as int) {
        lemma_contains_prefix(price_msg(), " "@);
        lemma_contains_extend_left(p1 + p2, p3, price_msg());
    }
}

pub fn title_validator(title: &str) -> (r: Result<(), String>)
    ensures
        r is Ok <==> title_ok(title@),
        r matches Err(m) ==> m@ == title_msg(),
{
    let n = title.unicode_len();
    if n > 1 && n < 21 {
        Ok(())
    } else {
        Err(String::from_str("The title needs to be between 1 and 21 characters."))
    }
}

pub fn release_year_validator(release_year: u32) -> (r: Result<(), String>)
    ensures
        r is Ok <==> release_year_ok(release_year as int),
        r matches Err(m) ==> m@ == release_year_msg(),
{
    if release_year > 1925 && release_year < 2025 {
        Ok(())
    } else {
        Err(String::from_str("The release year needs to be between 1925 and 2025"))
    }
}

pub fn price_validator(price: u32) -> (r: Result<(), String>)
    ensures
        r is Ok <==> price_ok(price as int),
        r matches Err(m) ==> m@ == price_msg(),
{
    if price < 10000 {
        Ok(())
    } else {
        Err(String::from_str("The price must be lower than 10.000"))
    }
}

/// Runs every field check of a movie and reports all failures at once,
/// space-joined.
pub fn movie_validator(movie: &Movie) -> (r: Result<(), String>)
    ensures
        r is Ok <==> movie_ok(movie@),
        r matches Err(m) ==> m@ == movie_err_spec(movie@),
{
    let ghost v = movie@;
    let ghost p1 = if !title_ok(v.title) {
        title_msg() + " "@
    } else {
        Seq::<char>::empty()
    };
    let ghost p2 = if !release_year_ok(v.release_year as int) {
        release_year_msg() + " "@
    } else {
        Seq::<char>::empty()
    };
    let ghost p3 = if !price_ok(v.price as int) {
        price_msg() + " "@
    } else {
        Seq::<char>::empty()
    };
    let mut msg = String::new();
    let mut failed = false;
    if let Err(e) = id_validator(movie.id()) {
        msg.append(e.as_str());
        msg.append(" ");
        failed = true;
    }
    if let Err(e) = title_validator(movie.title()) {
        msg.append(e.as_str());
        msg.append(" ");
        failed = true;
    }
    proof {
        assert(msg@ =~= p1);
    }
    if let Err(e) = release_year_validator(movie.release_year()) {
        msg.append(e.as_str());
        msg.append(" ");
        failed = true;
    }
    proof {
        assert(msg@ =~= p1 + p2);
    }
    if let Err(e) = price_validator(movie.price()) {
        msg.append(e.as_str());
        msg.append(" ");
        failed = true;
    }
    proof {
        assert(msg@ =~= p1 + p2 + p3);
        assert(movie_err_spec(v) == p1 + p2 + p3);
        assert(failed == !movie_ok(v));
    }
    if failed {
        Err(msg)
    } else {
        Ok(())
    }
}

} // verus!
