//! The generic store: an ordered in-memory collection of records of one
//! kind, bound to the name of the flat file that mirrors it.
//!
//! The collection is the single source of truth; the file only reflects it
//! when the caller exchanges lines through `to_lines` and `load_from_lines`.
//! `remove_elem` rejects index zero unconditionally: a known off-by-one that
//! is kept, not repaired, and stated plainly in its contract.

use crate::repo::traits::Serializable;
use vstd::prelude::*;
use vstd::string::StringExecFns;

verus! {

pub open spec fn index_msg() -> Seq<char> {
    "Index out of bounds"@
}

pub struct RepoFile<T: Serializable> {
    elems: Vec<T>,
    filename: String,
}

impl<T: Serializable> View for RepoFile<T> {
    type V = Seq<T>;

    closed spec fn view(&self) -> Seq<T> {
        self.elems@
    }
}

impl<T: Serializable> RepoFile<T> {
    /// The name of the file this store is bound to.
    pub closed spec fn spec_filename(&self) -> Seq<char> {
        self.filename@
    }

    /// A store bound to `filename`, holding nothing yet.
    pub fn new(filename: &str) -> (r: Self)
        ensures
            r@ == Seq::<T>::empty(),
            r.spec_filename() == filename@,
    {
        Self { elems: Vec::new(), filename: filename.to_owned() }
    }

    pub fn filename(&self) -> (r: &str)
        ensures
            r@ == self.spec_filename(),
    {
        self.filename.as_str()
    }

    /// Appends unconditionally; uniqueness is the services' concern.
    pub fn add_elem(&mut self, elem: T) -> (r: Result<(), String>)
        ensures
            r is Ok,
            final(self)@ == old(self)@.push(elem),
            final(self).spec_filename() == old(self).spec_filename(),
    {
        self.elems.push(elem);
        Ok(())
    }

    /// Removes the element at `index`. Index zero is always rejected, even
    /// when an element stands there: the quirk is part of the contract.
    pub fn remove_elem(&mut self, index: usize) -> (r: Result<(), String>)
        ensures
            r is Ok <==> 0 < index < old(self)@.len(),
            r is Ok ==> final(self)@ == old(self)@.remove(index as int),
            r is Err ==> final(self)@ == old(self)@,
            r matches Err(m) ==> m@ == index_msg(),
            final(self).spec_filename() == old(self).spec_filename(),
    {
        if index > 0 && index < self.elems.len() {
            self.elems.remove(index);
            Ok(())
        } else {
            Err(String::from_str("Index out of bounds"))
        }
    }

    /// Replaces the element at `index` if one stands there.
    pub fn update_elem(&mut self, index: usize, elem: T) -> (r: Result<(), String>)
        ensures
            r is Ok <==> index < old(self)@.len(),
            r is Ok ==> final(self)@ == old(self)@.update(index as int, elem),
            r is Err ==> final(self)@ == old(self)@,
            r matches Err(m) ==> m@ == index_msg(),
            final(self).spec_filename() == old(self).spec_filename(),
    {
        if index < self.elems.len() {
            self.elems[index] = elem;
            Ok(())
        } else {
            Err(String::from_str("Index out of bounds"))
        }
    }

    pub fn get_all(&self) -> (r: &Vec<T>)
        ensures
            r@ == self@,
    {
        &self.elems
    }

    pub fn get_elem(&self, index: usize) -> (r: Result<&T, String>)
        ensures
            r is Ok <==> index < self@.len(),
            r matches Ok(e) ==> *e == self@[index as int],
            r matches Err(m) ==> m@ == index_msg(),
    {
        if index < self.elems.len() {
            Ok(&self.elems[index])
        } else {
            Err(String::from_str("Index out of bounds"))
        }
    }

    /// Renders every record as one line, in store order: the lines that a
    /// save writes to the bound file.
    pub fn to_lines(&self) -> (r: Vec<String>)
        ensures
            r@.len() == self@.len(),
            forall|i: int| 0 <= i < self@.len() ==> r@[i]@ == T::csv_spec(self@[i]@),
    {
        let mut out: Vec<String> = Vec::new();
        let mut i: usize = 0;
        while i < self.elems.len()
            invariant
                i <= self.elems@.len(),
                self.elems@ == self@,
                out@.len() == i,
                forall|j: int| 0 <= j < i ==> out@[j]@ == T::csv_spec(self@[j]@),
            decreases self.elems@.len() - i,
        {
            let line = self.elems[i].to_csv();
            out.push(line);
            i = i + 1;
        }
        out
    }

    /// Reads one record from each line, in order, and appends them all to
    /// the store. A line whose record fails validation aborts the whole
    /// load with its report and leaves the store unchanged.
    pub fn load_from_lines(&mut self, lines: &Vec<String>) -> (r: Result<(), String>)
        ensures
            r is Ok <==> (forall|i: int|
                0 <= i < lines@.len() ==> #[trigger] T::from_csv_spec(lines@[i]@) is Some),
            r is Ok ==> final(self)@.len() == old(self)@.len() + lines@.len(),
            r is Ok ==> forall|i: int|
                0 <= i < old(self)@.len() ==> final(self)@[i] == old(self)@[i],
            r is Ok ==> forall|i: int|
                0 <= i < lines@.len() ==> #[trigger] T::from_csv_spec(lines@[i]@) == Some(
                    final(self)@[old(self)@.len() + i]@,
                ) && final(self)@[old(self)@.len() + i].inv(),
            r is Err ==> final(self)@ == old(self)@,
            final(self).spec_filename() == old(self).spec_filename(),
    {
        let mut parsed: Vec<T> = Vec::new();
        let mut i: usize = 0;
        while i < lines.len()
            invariant
                i <= lines@.len(),
                parsed@.len() == i,
                forall|j: int|
                    0 <= j < i ==> #[trigger] T::from_csv_spec(lines@[j]@) == Some(parsed@[j]@)
                        && parsed@[j].inv(),
            decreases lines@.len() - i,
        {
            match T::from_csv_to_obj(lines[i].as_str()) {
                Ok(t) => {
                    parsed.push(t);
                },
                Err(e) => {
                    proof {
                        assert(T::from_csv_spec(lines@[i as int]@) is None);
                    }
                    return Err(e);
                },
            }
            i = i + 1;
        }
        self.elems.append(&mut parsed);
        Ok(())
    }
}

/// Saving and loading restores a store's records: every line a store
/// renders reads back as the record it came from, provided each record is
/// valid and none of its text fields can disturb its line.
pub proof fn lemma_store_round_trip<T: Serializable>(elems: Seq<T>)
    requires
        forall|i: int| 0 <= i < elems.len() ==> (#[trigger] elems[i]).inv() && elems[i].csv_safe(),
    ensures
        forall|i: int|
            0 <= i < elems.len() ==> T::from_csv_spec(T::csv_spec((#[trigger] elems[i])@)) == Some(
                elems[i]@,
            ),
{
    assert forall|i: int|
        0 <= i < elems.len() implies T::from_csv_spec(T::csv_spec((#[trigger] elems[i])@)) == Some(
        elems[i]@,
    ) by {
        elems[i].lemma_csv_round_trip();
    }
}

} // verus!
