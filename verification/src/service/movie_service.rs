//! The movie service: owns a movie store and refuses additions and updates
//! that would duplicate another movie's title or identifier.
//!
//! The same two kept quirks as the card service: removal delegates to the
//! store, whose index zero is always rejected; and an update only proceeds
//! when some other record existed during the scan.

use crate::domain::movie::Movie;
use crate::domain::movie::MovieV;
use crate::repo::repo_file::index_msg;
use crate::repo::repo_file::RepoFile;
use crate::service::card_service::other_exists;
use crate::text::str_eq;
use vstd::prelude::*;
use vstd::string::StringExecFns;

verus! {

/// Two movies collide when they share the title or the identifier.
pub open spec fn movie_conflict(a: MovieV, b: MovieV) -> bool {
    a.title == b.title || a.id == b.id
}

/// No movie of `s`, other than the one at `except`, collides with `m`.
pub open spec fn no_movie_conflict(s: Seq<Movie>, m: MovieV, except: int) -> bool {
    forall|j: int| 0 <= j < s.len() && j != except ==> !#[trigger] movie_conflict(s[j]@, m)
}

pub open spec fn add_title_msg() -> Seq<char> {
    "A movie with this title already exists"@
}

pub open spec fn add_movie_id_msg() -> Seq<char> {
    "A movie with this ID already exists."@
}

pub open spec fn update_title_msg() -> Seq<char> {
    "A different movie with that title already exists"@
}

pub open spec fn update_movie_id_msg() -> Seq<char> {
    "A different movie with that ID already exists"@
}

pub open spec fn no_such_movie_msg() -> Seq<char> {
    "There is no movie with that ID"@
}

pub struct MovieService {
    movies: RepoFile<Movie>,
}

impl View for MovieService {
    type V = Seq<Movie>;

    closed spec fn view(&self) -> Seq<Movie> {
        self.movies@
    }
}

impl MovieService {
    /// Takes sole charge of the given store.
    pub fn new(repo: RepoFile<Movie>) -> (r: Self)
        ensures
            r@ == repo@,
            r.movies_spec() == repo,
    {
        MovieService { movies: repo }
    }

    /// The store this service wraps.
    pub closed spec fn movies_spec(&self) -> RepoFile<Movie> {
        self.movies
    }

    /// Hands the store back, for saving or rebinding.
    pub fn into_repo(self) -> (r: RepoFile<Movie>)
        ensures
            r == self.movies_spec(),
            r@ == self@,
    {
        self.movies
    }

    pub fn get_all(&self) -> (r: &Vec<Movie>)
        ensures
            r@ == self@,
    {
        self.movies.get_all()
    }

    pub fn get(&self, index: usize) -> (r: Result<&Movie, String>)
        ensures
            r is Ok <==> index < self@.len(),
            r matches Ok(m) ==> *m == self@[index as int],
            r matches Err(m) ==> m@ == index_msg(),
    {
        self.movies.get_elem(index)
    }

    /// Appends the movie unless an existing movie collides with it; the
    /// report names the first collision, its identifier rule decided after
    /// its title rule.
    pub fn add(&mut self, new_movie: Movie) -> (r: Result<(), String>)
        ensures
            r is Ok <==> no_movie_conflict(old(self)@, new_movie@, -1),
            r is Ok ==> final(self)@ == old(self)@.push(new_movie),
            r is Err ==> final(self)@ == old(self)@,
            r matches Err(m) ==> exists|k: int|
                0 <= k < old(self)@.len() && #[trigger] movie_conflict(old(self)@[k]@, new_movie@)
                    && no_movie_conflict(old(self)@.take(k), new_movie@, -1) && m@ == (if old(
                    self,
                )@[k]@.title == new_movie@.title {
                    add_title_msg()
                } else {
                    add_movie_id_msg()
                }),
            final(self).movies_spec().spec_filename() == old(self).movies_spec().spec_filename(),
    {
        let n = self.movies.get_all().len();
        let mut i: usize = 0;
        while i < n
            invariant
                n == self@.len(),
                i <= n,
                no_movie_conflict(self@.take(i as int), new_movie@, -1),
            decreases n - i,
        {
            let movie = &self.movies.get_all()[i];
            if str_eq(movie.title(), new_movie.title()) {
                proof {
                    assert(movie_conflict(self@[i as int]@, new_movie@));
                }
                return Err(String::from_str("A movie with this title already exists"));
            } else if movie.id() == new_movie.id() {
                proof {
                    assert(movie_conflict(self@[i as int]@, new_movie@));
                }
                return Err(String::from_str("A movie with this ID already exists."));
            }
            proof {
                assert(self@.take(i + 1) =~= self@.take(i as int).push(self@[i as int]));
            }
            i = i + 1;
        }
        proof {
            assert(self@.take(n as int) =~= self@);
        }
        self.movies.add_elem(new_movie)
    }

    /// Replaces the movie at `index` unless another movie collides with the
    /// new one; demands, as the card service does, that some other record
    /// existed during the scan.
    pub fn update(&mut self, index: usize, new_movie: Movie) -> (r: Result<(), String>)
        ensures
            r is Ok <==> no_movie_conflict(old(self)@, new_movie@, index as int) && other_exists(
                old(self)@.len() as int,
                index as int,
            ) && index < old(self)@.len(),
            r is Ok ==> final(self)@ == old(self)@.update(index as int, new_movie),
            r is Err ==> final(self)@ == old(self)@,
            r matches Err(m) ==> (exists|k: int|
                0 <= k < old(self)@.len() && k != index && #[trigger] movie_conflict(
                    old(self)@[k]@,
                    new_movie@,
                ) && no_movie_conflict(old(self)@.take(k), new_movie@, index as int) && m@ == (
                if old(self)@[k]@.title == new_movie@.title {
                    update_title_msg()
                } else {
                    update_movie_id_msg()
                })) || (no_movie_conflict(old(self)@, new_movie@, index as int) && !other_exists(
                old(self)@.len() as int,
                index as int,
            ) && m@ == no_such_movie_msg()) || (no_movie_conflict(
                old(self)@,
                new_movie@,
                index as int,
            ) && other_exists(old(self)@.len() as int, index as int) && index >= old(self)@.len()
                && m@ == index_msg()),
            final(self).movies_spec().spec_filename() == old(self).movies_spec().spec_filename(),
    {
        let n = self.movies.get_all().len();
        let mut found = false;
        let mut i: usize = 0;
        while i < n
            invariant
                n == self@.len(),
                i <= n,
                no_movie_conflict(self@.take(i as int), new_movie@, index as int),
                found <==> other_exists(i as int, index as int),
            decreases n - i,
        {
            if i != index {
                let movie = &self.movies.get_all()[i];
                if str_eq(new_movie.title(), movie.title()) {
                    proof {
                        assert(movie_conflict(self@[i as int]@, new_movie@));
                    }
                    return Err(
                        String::from_str("A different movie with that title already exists"),
                    );
                } else if new_movie.id() == movie.id() {
                    proof {
                        assert(movie_conflict(self@[i as int]@, new_movie@));
                    }
                    return Err(String::from_str("A different movie with that ID already exists"));
                }
                found = true;
            }
            proof {
                assert(self@.take(i + 1) =~= self@.take(i as int).push(self@[i as int]));
            }
            i = i + 1;
        }
        proof {
            assert(self@.take(n as int) =~= self@);
        }
        if found {
            self.movies.update_elem(index, new_movie)
        } else {
            Err(String::from_str("There is no movie with that ID"))
        }
    }

    /// Delegates to the store's removal, index-zero quirk included.
    pub fn remove(&mut self, index: usize) -> (r: Result<(), String>)
        ensures
            r is Ok <==> 0 < index < old(self)@.len(),
            r is Ok ==> final(self)@ == old(self)@.remove(index as int),
            r is Err ==> final(self)@ == old(self)@,
            r matches Err(m) ==> m@ == index_msg(),
            final(self).movies_spec().spec_filename() == old(self).movies_spec().spec_filename(),
    {
        self.movies.remove_elem(index)
    }
}

} // verus!
