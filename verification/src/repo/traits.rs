//! The serialization contract every stored record kind satisfies.

use vstd::prelude::*;

verus! {

/// A record kind that maps to and from one line of delimited text.
///
/// `View` gives each record an abstract model; the two directions of the
/// mapping are specified over that model, and every implementation proves
/// that reading a rendered record back restores it.
pub trait Serializable: View + Sized {
    /// Every field of the record satisfies its validator.
    spec fn inv(&self) -> bool;

    /// The rendering of a record as one stored line.
    spec fn csv_spec(v: Self::V) -> Seq<char>;

    /// What reading one stored line yields, if the recovered fields pass
    /// validation.
    spec fn from_csv_spec(s: Seq<char>) -> Option<Self::V>;

    /// No text field of the record can disturb the delimiters of its line.
    spec fn csv_safe(&self) -> bool;

    /// Renders the record as one line, exactly as `csv_spec` describes.
    fn to_csv(&self) -> (r: String)
        ensures
            r@ == Self::csv_spec(self@),
    ;

    /// Reads one stored line back; a line whose recovered fields fail
    /// validation is rejected rather than repaired.
    fn from_csv_to_obj(s: &str) -> (r: Result<Self, String>)
        ensures
            r matches Ok(t) ==> Self::from_csv_spec(s@) == Some(t@) && t.inv(),
            r is Err <==> Self::from_csv_spec(s@) is None,
    ;

    /// Reading a rendered record back restores it, field for field.
    proof fn lemma_csv_round_trip(&self)
        requires
            self.inv(),
            self.csv_safe(),
        ensures
            Self::from_csv_spec(Self::csv_spec(self@)) == Some(self@),
    ;
}

} // verus!
