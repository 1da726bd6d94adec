//! The card service: owns a card store and refuses additions and updates
//! that would duplicate another card's personal identifier or identifier.
//!
//! Two quirks of the underlying rules are kept and stated in the
//! contracts, not repaired: removal delegates to the store, whose index
//! zero is always rejected; and an update only proceeds when some other
//! record existed during the scan, so a single-record store can never be
//! updated.

use crate::domain::card::Card;
use crate::domain::card::CardV;
use crate::repo::repo_file::index_msg;
use crate::repo::repo_file::RepoFile;
use crate::text::str_eq;
use vstd::prelude::*;
use vstd::string::StringExecFns;

verus! {

/// Two cards collide when they share the personal identifier or the
/// identifier.
pub open spec fn card_conflict(a: CardV, b: CardV) -> bool {
    a.cnp == b.cnp || a.id == b.id
}

/// No card of `s`, other than the one at `except`, collides with `c`.
pub open spec fn no_card_conflict(s: Seq<Card>, c: CardV, except: int) -> bool {
    forall|j: int| 0 <= j < s.len() && j != except ==> !#[trigger] card_conflict(s[j]@, c)
}

pub open spec fn add_cnp_msg() -> Seq<char> {
    "A card with this CNP already exists."@
}

pub open spec fn add_id_msg() -> Seq<char> {
    "A card with this ID already exists"@
}

pub open spec fn update_cnp_msg() -> Seq<char> {
    "A different card with that CNP already exists."@
}

pub open spec fn update_id_msg() -> Seq<char> {
    "A different card with that ID already exists"@
}

pub open spec fn no_such_card_msg() -> Seq<char> {
    "There is no card with that ID."@
}

/// Some position other than `index` exists in a collection of `len`
/// elements: what the update scan means by having found another record.
pub open spec fn other_exists(len: int, index: int) -> bool {
    len >= 2 || (len == 1 && index != 0)
}

pub struct CardService {
    cards: RepoFile<Card>,
}

impl View for CardService {
    type V = Seq<Card>;

    closed spec fn view(&self) -> Seq<Card> {
        self.cards@
    }
}

impl CardService {
    /// Takes sole charge of the given store.
    pub fn new(repo: RepoFile<Card>) -> (r: Self)
        ensures
            r@ == repo@,
            r.cards_spec() == repo,
    {
        CardService { cards: repo }
    }

    /// The store this service wraps.
    pub closed spec fn cards_spec(&self) -> RepoFile<Card> {
        self.cards
    }

    /// Hands the store back, for saving or rebinding.
    pub fn into_repo(self) -> (r: RepoFile<Card>)
        ensures
            r == self.cards_spec(),
            r@ == self@,
    {
        self.cards
    }

    pub fn get_all(&self) -> (r: &Vec<Card>)
        ensures
            r@ == self@,
    {
        self.cards.get_all()
    }

    pub fn get(&self, index: usize) -> (r: Result<&Card, String>)
        ensures
            r is Ok <==> index < self@.len(),
            r matches Ok(c) ==> *c == self@[index as int],
            r matches Err(m) ==> m@ == index_msg(),
    {
        self.cards.get_elem(index)
    }

    /// Appends the card unless an existing card collides with it; the
    /// report names the first collision, its identifier rule decided after
    /// its personal-identifier rule.
    pub fn add(&mut self, new_card: Card) -> (r: Result<(), String>)
        ensures
            r is Ok <==> no_card_conflict(old(self)@, new_card@, -1),
            r is Ok ==> final(self)@ == old(self)@.push(new_card),
            r is Err ==> final(self)@ == old(self)@,
            r matches Err(m) ==> exists|k: int|
                0 <= k < old(self)@.len() && #[trigger] card_conflict(old(self)@[k]@, new_card@)
                    && no_card_conflict(old(self)@.take(k), new_card@, -1) && m@ == (if old(
                    self,
                )@[k]@.cnp == new_card@.cnp {
                    add_cnp_msg()
                } else {
                    add_id_msg()
                }),
            final(self).cards_spec().spec_filename() == old(self).cards_spec().spec_filename(),
    {
        let n = self.cards.get_all().len();
        let mut i: usize = 0;
        while i < n
            invariant
                n == self@.len(),
                i <= n,
                no_card_conflict(self@.take(i as int), new_card@, -1),
            decreases n - i,
        {
            let card = &self.cards.get_all()[i];
            if str_eq(new_card.cnp(), card.cnp()) {
                proof {
                    assert(card_conflict(self@[i as int]@, new_card@));
                }
                return Err(String::from_str("A card with this CNP already exists."));
            } else if new_card.id() == card.id() {
                proof {
                    assert(card_conflict(self@[i as int]@, new_card@));
                }
                return Err(String::from_str("A card with this ID already exists"));
            }
            proof {
                assert(self@.take(i + 1) =~= self@.take(i as int).push(self@[i as int]));
            }
            i = i + 1;
        }
        proof {
            assert(self@.take(n as int) =~= self@);
        }
        self.cards.add_elem(new_card)
    }

    /// Replaces the card at `index` unless another card collides with the
    /// new one. The replacement also demands that some other card existed
    /// during the scan: with a single card at index zero nothing can ever
    /// be updated, a kept quirk.
    pub fn update(&mut self, index: usize, new_card: Card) -> (r: Result<(), String>)
        ensures
            r is Ok <==> no_card_conflict(old(self)@, new_card@, index as int) && other_exists(
                old(self)@.len() as int,
                index as int,
            ) && index < old(self)@.len(),
            r is Ok ==> final(self)@ == old(self)@.update(index as int, new_card),
            r is Err ==> final(self)@ == old(self)@,
            r matches Err(m) ==> (exists|k: int|
                0 <= k < old(self)@.len() && k != index && #[trigger] card_conflict(
                    old(self)@[k]@,
                    new_card@,
                ) && no_card_conflict(old(self)@.take(k), new_card@, index as int) && m@ == (if old(
                    self,
                )@[k]@.cnp == new_card@.cnp {
                    update_cnp_msg()
                } else {
                    update_id_msg()
                })) || (no_card_conflict(old(self)@, new_card@, index as int) && !other_exists(
                old(self)@.len() as int,
                index as int,
            ) && m@ == no_such_card_msg()) || (no_card_conflict(old(self)@, new_card@, index as int)
                && other_exists(old(self)@.len() as int, index as int) && index >= old(self)@.len()
                && m@ == index_msg()),
            final(self).cards_spec().spec_filename() == old(self).cards_spec().spec_filename(),
    {
        let n = self.cards.get_all().len();
        let mut found = false;
        let mut i: usize = 0;
        while i < n
            invariant
                n == self@.len(),
                i <= n,
                no_card_conflict(self@.take(i as int), new_card@, index as int),
                found <==> other_exists(i as int, index as int),
            decreases n - i,
        {
            if i != index {
                let card = &self.cards.get_all()[i];
                if str_eq(new_card.cnp(), card.cnp()) {
                    proof {
                        assert(card_conflict(self@[i as int]@, new_card@));
                    }
                    return Err(String::from_str("A different card with that CNP already exists."));
                } else if new_card.id() == card.id() {
                    proof {
                        assert(card_conflict(self@[i as int]@, new_card@));
                    }
                    return Err(String::from_str("A different card with that ID already exists"));
                }
                found = true;
            }
            proof {
                assert(self@.take(i + 1) =~= self@.take(i as int).push(self@[i as int]));
            }
            i = i + 1;
        }
        proof {
            assert(self@.take(n as int) =~= self@);
        }
        if found {
            self.cards.update_elem(index, new_card)
        } else {
            Err(String::from_str("There is no card with that ID."))
        }
    }

    /// Delegates to the store's removal, index-zero quirk included.
    pub fn remove(&mut self, index: usize) -> (r: Result<(), String>)
        ensures
            r is Ok <==> 0 < index < old(self)@.len(),
            r is Ok ==> final(self)@ == old(self)@.remove(index as int),
            r is Err ==> final(self)@ == old(self)@,
            r matches Err(m) ==> m@ == index_msg(),
            final(self).cards_spec().spec_filename() == old(self).cards_spec().spec_filename(),
    {
        self.cards.remove_elem(index)
    }
}

} // verus!
