//! The challenge of an epoch and the row it is kept in.

use crate::bytes::{copy_bytes, same_bytes};
use crate::persistent_store::rows::{counter_row, write_counter, COUNTER_WIDTH};
use vstd::bytes::{
    lemma_auto_spec_u128_to_from_le_bytes, spec_u128_from_le_bytes, u128_from_le_bytes,
};
use vstd::prelude::*;
use vstd::slice::slice_subrange;

verus! {

/// A delay-function instance minted for one ping epoch.
///
/// `id` is the ping counter at the moment of minting; `challenge` is the
/// serialised instance that the beneficiary has to solve.
#[derive(Debug, PartialEq, Eq)]
pub struct Challenge {
    pub id: u128,
    pub challenge: Vec<u8>,
}

/// What a [`Challenge`] stands for: its epoch and the bytes of its instance.
pub struct ChallengeView {
    pub id: u128,
    pub challenge: Seq<u8>,
}

impl View for Challenge {
    type V = ChallengeView;

    open spec fn view(&self) -> ChallengeView {
        ChallengeView { id: self.id, challenge: self.challenge@ }
    }
}

impl Clone for Challenge {
    fn clone(&self) -> (copy: Self)
        ensures
            copy@ == self@,
    {
        Challenge { id: self.id, challenge: copy_bytes(self.challenge.as_slice()) }
    }
}

/// The row that keeps a challenge: the sixteen bytes of its id, least
/// significant first, followed by the bytes of the instance.
pub open spec fn challenge_row(challenge: ChallengeView) -> Seq<u8> {
    counter_row(challenge.id) + challenge.challenge
}

/// The challenge that a row keeps, if the row is long enough to hold an id.
pub open spec fn challenge_of(row: Seq<u8>) -> Option<ChallengeView> {
    if row.len() >= COUNTER_WIDTH {
        Some(
            ChallengeView {
                id: spec_u128_from_le_bytes(row.subrange(0, COUNTER_WIDTH as int)),
                challenge: row.subrange(COUNTER_WIDTH as int, row.len() as int),
            },
        )
    } else {
        None
    }
}

/// Reading back the row of a challenge gives that challenge.
pub proof fn lemma_challenge_row_round_trip(challenge: ChallengeView)
    ensures
        challenge_of(challenge_row(challenge)) == Some(challenge),
{
    lemma_auto_spec_u128_to_from_le_bytes();
    let row = challenge_row(challenge);
    assert(row.subrange(0, COUNTER_WIDTH as int) == counter_row(challenge.id));
    assert(row.subrange(COUNTER_WIDTH as int, row.len() as int) == challenge.challenge);
}

/// A row that keeps a challenge is, byte for byte, the row of that challenge.
pub proof fn lemma_challenge_row_stable(row: Seq<u8>)
    requires
        challenge_of(row) is Some,
    ensures
        challenge_row(challenge_of(row)->0) == row,
{
    lemma_auto_spec_u128_to_from_le_bytes();
    let head = row.subrange(0, COUNTER_WIDTH as int);
    let tail = row.subrange(COUNTER_WIDTH as int, row.len() as int);
    assert(counter_row(spec_u128_from_le_bytes(head)) == head);
    assert(head + tail == row);
}

impl Challenge {
    /// Whether two challenges agree in id and in every byte of the instance.
    pub fn same_as(&self, other: &Challenge) -> (same: bool)
        ensures
            same == (self@ == other@),
    {
        self.id == other.id && same_bytes(self.challenge.as_slice(), other.challenge.as_slice())
    }

    /// Lays the challenge out as its row.
    pub fn to_row(&self) -> (row: Vec<u8>)
        ensures
            row@ == challenge_row(self@),
            challenge_of(row@) == Some(self@),
    {
        let mut row = write_counter(self.id);
        let mut i: usize = 0;
        while i < self.challenge.len()
            invariant
                i <= self.challenge@.len(),
                row@ == counter_row(self.id) + self.challenge@.subrange(0, i as int),
            decreases self.challenge@.len() - i,
        {
            row.push(self.challenge[i]);
            proof {
                let next: int = i + 1;
                assert(self.challenge@.subrange(0, next) == self.challenge@.subrange(
                    0,
                    i as int,
                ).push(self.challenge@[i as int]));
            }
            i += 1;
        }
        proof {
            lemma_challenge_row_round_trip(self@);
        }
        row
    }

    /// Reads a challenge back from its row; `None` if the row is shorter
    /// than an id.
    pub fn from_row(row: &[u8]) -> (challenge: Option<Challenge>)
        ensures
            match challenge {
                Some(c) => challenge_of(row@) == Some(c@),
                None => challenge_of(row@) is None,
            },
    {
        if row.len() < COUNTER_WIDTH {
            return None;
        }
        let id = u128_from_le_bytes(slice_subrange(row, 0, COUNTER_WIDTH));
        let challenge = copy_bytes(slice_subrange(row, COUNTER_WIDTH, row.len()));
        Some(Challenge { id, challenge })
    }
}

} // verus!
