//! A bare non-negative count of items, pronounced with the feminine
//! count noun "единица".

use crate::digits::group_count;
use crate::digits::group_digits;
use crate::pronounce::declension_form;
use crate::pronounce::join_word;
use crate::pronounce::lemma_units_group_digits;
use crate::pronounce::magnitude_triplets;
use crate::pronounce::pronounce_triplets;
use crate::pronounce::seq_phrase;
use crate::pronounce::joined;
use crate::pronounce::triplet_view;
use crate::pronounce::NumberPronouce;
use crate::pronounce::Triplet;
use vstd::prelude::*;

verus! {

/// A non-negative integer quantity of items.
#[derive(Clone, Copy, Debug, PartialEq, Eq, Structural)]
pub struct Unit(pub u128);

/// The triplet views of a count: the units group is feminine-agreed
/// because the count noun is grammatically feminine.
pub open spec fn unit_triplet_views(n: nat) -> Seq<(Seq<u8>, int, bool)> {
    Seq::new(group_count(n), |p: int| (group_digits(n, p as nat), p, p == 0))
}

/// The declined count noun: "единица" / "единицы" / "единиц".
pub open spec fn unit_noun(form: int) -> Seq<char> {
    if form == 0 {
        "единица"@
    } else if form == 1 {
        "единицы"@
    } else {
        "единиц"@
    }
}

/// The full displayed text of a count: the pronounced numeral followed
/// by the declined count noun.
pub open spec fn unit_text(n: nat) -> Seq<char> {
    joined(seq_phrase(unit_triplet_views(n)), unit_noun(declension_form(n)))
}

impl NumberPronouce for Unit {
    open spec fn spec_triplets(&self) -> Seq<(Seq<u8>, int, bool)> {
        unit_triplet_views(self.0 as nat)
    }

    open spec fn spec_pronounce(&self) -> Seq<char> {
        seq_phrase(unit_triplet_views(self.0 as nat))
    }

    fn into_triplets(&self) -> (r: Vec<Triplet>)
    {
        let r = magnitude_triplets(self.0, true);
        proof {
            assert(r@.map_values(|t: Triplet| triplet_view(t)) =~= self.spec_triplets());
        }
        r
    }

    fn pronounce(&self) -> (r: String)
    {
        let ts = self.into_triplets();
        pronounce_triplets(&ts)
    }
}

impl Unit {
    /// The displayed text of this count, numeral and declined noun.
    pub fn to_text(&self) -> (r: String)
        ensures
            r@ == unit_text(self.0 as nat),
    {
        let ts = self.into_triplets();
        let phrase = pronounce_triplets(&ts);
        proof {
            assert(ts@.map_values(|t: Triplet| triplet_view(t)).len() == ts@.len());
            lemma_units_group_digits(self.0 as nat);
        }
        let noun = ts[0].triplet_pronounce(["единица", "единицы", "единиц"]);
        let mut s = phrase;
        join_word(&mut s, noun);
        s
    }

    /// The sum of two counts; `None` when it exceeds the storage range.
    pub fn checked_add(self, rhs: Unit) -> (r: Option<Unit>)
        ensures
            self.0 + rhs.0 <= u128::MAX ==> r == Some(Unit((self.0 + rhs.0) as u128)),
            self.0 + rhs.0 > u128::MAX ==> r is None,
    {
        match self.0.checked_add(rhs.0) {
            Some(v) => Some(Unit(v)),
            None => None,
        }
    }

    /// The difference of two counts; `None` when the subtrahend is the
    /// larger.
    pub fn checked_sub(self, rhs: Unit) -> (r: Option<Unit>)
        ensures
            rhs.0 <= self.0 ==> r == Some(Unit((self.0 - rhs.0) as u128)),
            rhs.0 > self.0 ==> r is None,
    {
        match self.0.checked_sub(rhs.0) {
            Some(v) => Some(Unit(v)),
            None => None,
        }
    }

    /// The product of two counts; `None` when it exceeds the storage
    /// range.
    pub fn checked_mul(self, rhs: Unit) -> (r: Option<Unit>)
        ensures
            self.0 * rhs.0 <= u128::MAX ==> r == Some(Unit((self.0 * rhs.0) as u128)),
            self.0 * rhs.0 > u128::MAX ==> r is None,
    {
        match self.0.checked_mul(rhs.0) {
            Some(v) => Some(Unit(v)),
            None => None,
        }
    }

    /// The truncated quotient of two counts; `None` on division by zero.
    pub fn checked_div(self, rhs: Unit) -> (r: Option<Unit>)
        ensures
            rhs.0 != 0 ==> r == Some(Unit((self.0 as nat / rhs.0 as nat) as u128)),
            rhs.0 == 0 ==> r is None,
    {
        if rhs.0 == 0 {
            None
        } else {
            Some(Unit(self.0 / rhs.0))
        }
    }
}

} // verus!
