//! The persisted layout: what the rows of the two tables hold, and what
//! each operation on the meta table reads and writes.
//!
//! The secrets table maps a public key, written without its tag byte, to
//! the digits of the server's share. The meta table has two rows: the ping
//! counter and the challenge of the current epoch.

use crate::persistent_store::challenge::{challenge_of, challenge_row, Challenge};
use crate::persistent_store::SetChallengeError;
use crate::scalar::{is_scalar_digits, lemma_trim_same_length, Scalar};
use vstd::bytes::{
    lemma_auto_spec_u128_to_from_le_bytes, spec_u128_from_le_bytes, spec_u128_to_le_bytes,
    u128_from_le_bytes, u128_to_le_bytes,
};
use vstd::prelude::*;

verus! {

/// Width of the counter row in bytes.
pub const COUNTER_WIDTH: usize = 16;

/// What is wrong with the rows that an operation found.
#[derive(Debug, PartialEq, Eq, Clone, Copy)]
pub enum RowError {
    /// The counter row is not sixteen bytes.
    InvalidCounter,
    /// The challenge row is too short to hold an id.
    InvalidChallenge,
    /// A row of the secrets table does not hold the digits of a scalar.
    InvalidShare,
    /// The counter has reached the largest value it can hold.
    CounterExhausted,
}

/// The counter that a row holds, if the row is a well-formed counter row.
pub open spec fn counter_of(row: Seq<u8>) -> Option<u128> {
    if row.len() == COUNTER_WIDTH {
        Some(spec_u128_from_le_bytes(row))
    } else {
        None
    }
}

/// The row that holds a counter: its sixteen bytes, least significant first.
pub open spec fn counter_row(counter: u128) -> Seq<u8> {
    spec_u128_to_le_bytes(counter)
}

/// The bytes of a row that may be absent.
pub open spec fn row_bytes(row: Option<Vec<u8>>) -> Option<Seq<u8>> {
    match row {
        Some(bytes) => Some(bytes@),
        None => None,
    }
}

/// The counter that the meta table holds: zero while the row was never
/// written, `None` where the row is malformed.
pub open spec fn counter_in(row: Option<Seq<u8>>) -> Option<u128> {
    match row {
        Some(bytes) => counter_of(bytes),
        None => Some(0),
    }
}

/// Writing a counter and reading it back gives the counter.
pub proof fn lemma_counter_round_trip(counter: u128)
    ensures
        counter_row(counter).len() == COUNTER_WIDTH,
        counter_of(counter_row(counter)) == Some(counter),
{
    lemma_auto_spec_u128_to_from_le_bytes();
}

/// A row that holds a counter is, byte for byte, the row of that counter.
pub proof fn lemma_counter_row_stable(row: Seq<u8>)
    requires
        counter_of(row) is Some,
    ensures
        counter_row(counter_of(row)->0) == row,
{
    lemma_auto_spec_u128_to_from_le_bytes();
}

/// Reads a counter back from its row; `None` unless the row is sixteen bytes.
pub fn read_counter(value: &[u8]) -> (counter: Option<u128>)
    ensures
        counter == counter_of(value@),
{
    if value.len() != COUNTER_WIDTH {
        return None;
    }
    Some(u128_from_le_bytes(value))
}

/// Lays a counter out as its row.
pub fn write_counter(counter: u128) -> (row: Vec<u8>)
    ensures
        row@ == counter_row(counter),
        row@.len() == COUNTER_WIDTH,
        counter_of(row@) == Some(counter),
{
    proof {
        lemma_counter_round_trip(counter);
    }
    u128_to_le_bytes(counter)
}

/// The ping counter that the meta table holds.
pub fn stored_counter(counter: &Option<Vec<u8>>) -> (stored: Result<u128, RowError>)
    ensures
        match stored {
            Ok(c) => counter_in(row_bytes(*counter)) == Some(c),
            Err(e) => e == RowError::InvalidCounter && counter_in(row_bytes(*counter)) is None,
        },
{
    match counter {
        Some(value) => match read_counter(value.as_slice()) {
            Some(c) => Ok(c),
            None => Err(RowError::InvalidCounter),
        },
        None => Ok(0),
    }
}

/// The challenge that the meta table holds, if any.
pub fn stored_challenge(challenge: &Option<Vec<u8>>) -> (stored: Result<
    Option<Challenge>,
    RowError,
>)
    ensures
        match stored {
            Ok(Some(c)) => *challenge matches Some(row) && challenge_of(row@) == Some(c@),
            Ok(None) => *challenge is None,
            Err(e) => {
                &&& e == RowError::InvalidChallenge
                &&& *challenge matches Some(row) && challenge_of(row@) is None
            },
        },
{
    match challenge {
        Some(row) => match Challenge::from_row(row.as_slice()) {
            Some(c) => Ok(Some(c)),
            None => Err(RowError::InvalidChallenge),
        },
        None => Ok(None),
    }
}

/// What a ping writes: the counter after it. The caller writes the row of
/// that counter and removes the challenge row, in one transaction.
pub fn next_counter(counter: &Option<Vec<u8>>) -> (next: Result<u128, RowError>)
    ensures
        match next {
            Ok(n) => counter_in(row_bytes(*counter)) matches Some(c) && n == c + 1,
            Err(RowError::InvalidCounter) => counter_in(row_bytes(*counter)) is None,
            Err(RowError::CounterExhausted) => counter_in(row_bytes(*counter)) == Some(u128::MAX),
            Err(_) => false,
        },
{
    let current = stored_counter(counter)?;
    if current == u128::MAX {
        Err(RowError::CounterExhausted)
    } else {
        Ok(current + 1)
    }
}

/// Decides whether `challenge` may become the challenge of the current
/// epoch, from the two rows of the meta table. `Ok` holds the row to write.
///
/// `counter` and `current` are the counter row and the challenge row as
/// they were read. A challenge for a past epoch is `Outdated`, one for a
/// future epoch has a `MismatchedId`. Where the epoch already has a
/// challenge, that one stays and is handed back in `AlreadySet`, also where
/// it is the very challenge that was to be set. A challenge row left over
/// from another epoch is overwritten.
pub fn place_challenge(
    counter: &Option<Vec<u8>>,
    current: &Option<Vec<u8>>,
    challenge: &Challenge,
) -> (placed: Result<Vec<u8>, SetChallengeError<RowError>>)
    ensures
        match placed {
            Ok(row) => {
                &&& counter_in(row_bytes(*counter)) == Some(challenge.id)
                &&& match *current {
                    Some(found) => challenge_of(found@) matches Some(c) && c.id != challenge.id,
                    None => true,
                }
                &&& row@ == challenge_row(challenge@)
            },
            Err(SetChallengeError::Outdated) => {
                counter_in(row_bytes(*counter)) matches Some(c) && challenge.id < c
            },
            Err(SetChallengeError::MismatchedId) => {
                counter_in(row_bytes(*counter)) matches Some(c) && challenge.id > c
            },
            Err(SetChallengeError::AlreadySet(existing)) => {
                &&& counter_in(row_bytes(*counter)) == Some(challenge.id)
                &&& *current matches Some(found) && challenge_of(found@) == Some(existing@)
                &&& existing.id == challenge.id
            },
            Err(SetChallengeError::Store(RowError::InvalidCounter)) => {
                counter_in(row_bytes(*counter)) is None
            },
            Err(SetChallengeError::Store(RowError::InvalidChallenge)) => {
                &&& counter_in(row_bytes(*counter)) == Some(challenge.id)
                &&& *current matches Some(found) && challenge_of(found@) is None
            },
            Err(SetChallengeError::Store(_)) => false,
        },
{
    let epoch = match stored_counter(counter) {
        Ok(c) => c,
        Err(e) => {
            return Err(SetChallengeError::Store(e));
        },
    };
    if challenge.id < epoch {
        return Err(SetChallengeError::Outdated);
    } else if challenge.id > epoch {
        return Err(SetChallengeError::MismatchedId);
    }
    let on_file = match stored_challenge(current) {
        Ok(c) => c,
        Err(e) => {
            return Err(SetChallengeError::Store(e));
        },
    };
    if let Some(existing) = on_file {
        if existing.id == challenge.id {
            return Err(SetChallengeError::AlreadySet(existing));
        }
    }
    Ok(challenge.to_row())
}

/// The share that a row of the secrets table holds.
pub fn stored_share(value: &[u8]) -> (share: Result<Scalar, RowError>)
    ensures
        match share {
            Ok(s) => is_scalar_digits(value@) && s@ == value@,
            Err(e) => e == RowError::InvalidShare && !is_scalar_digits(value@),
        },
{
    match Scalar::from_bytes(value) {
        Some(s) => {
            if s.as_bytes().len() == value.len() {
                proof {
                    lemma_trim_same_length(value@);
                }
                Ok(s)
            } else {
                Err(RowError::InvalidShare)
            }
        },
        None => Err(RowError::InvalidShare),
    }
}

} // verus!
