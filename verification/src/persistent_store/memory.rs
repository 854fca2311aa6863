//! A store that keeps its two tables in memory, row for row as a durable
//! store lays them out.

use crate::bytes::same_bytes;
use crate::curve::Point;
use crate::persistent_store::challenge::{
    challenge_of, lemma_challenge_row_round_trip, Challenge,
};
use crate::persistent_store::rows::{
    counter_in, next_counter, place_challenge, row_bytes, stored_challenge, stored_counter,
    stored_share, write_counter, RowError,
};
use crate::persistent_store::{AddShareError, PersistentStore, SetChallengeError, StoreState};
use crate::scalar::{is_scalar_digits, Scalar};
use crate::sealed::Sealed;
use vstd::prelude::*;

verus! {

/// A row of the secrets table.
struct SecretRow {
    key: Vec<u8>,
    value: Vec<u8>,
}

/// Whether some row is filed under `key`.
spec fn has_key(rows: Seq<SecretRow>, key: Seq<u8>) -> bool {
    exists|i: int| 0 <= i < rows.len() && #[trigger] rows[i].key@ == key
}

/// The place of a row that is filed under `key`.
spec fn place_of(rows: Seq<SecretRow>, key: Seq<u8>) -> int {
    choose|i: int| 0 <= i < rows.len() && #[trigger] rows[i].key@ == key
}

/// No two rows are filed under the same key.
spec fn distinct_keys(rows: Seq<SecretRow>) -> bool {
    forall|i: int, j: int|
        0 <= i < rows.len() && 0 <= j < rows.len() && #[trigger] rows[i].key@ == #[trigger] rows[j].key@
            ==> i == j
}

/// The table that the rows make up.
spec fn table(rows: Seq<SecretRow>) -> Map<Seq<u8>, Seq<u8>> {
    Map::new(|key: Seq<u8>| has_key(rows, key), |key: Seq<u8>| rows[place_of(rows, key)].value@)
}

/// The table holds every row under its key.
proof fn lemma_table_at(rows: Seq<SecretRow>, i: int)
    requires
        distinct_keys(rows),
        0 <= i < rows.len(),
    ensures
        table(rows).contains_key(rows[i].key@),
        table(rows)[rows[i].key@] == rows[i].value@,
{
}

/// A row under a new key adds its entry to the table and changes no other.
proof fn lemma_table_push(rows: Seq<SecretRow>, row: SecretRow)
    requires
        distinct_keys(rows),
        !has_key(rows, row.key@),
    ensures
        distinct_keys(rows.push(row)),
        table(rows.push(row)) == table(rows).insert(row.key@, row.value@),
{
    let longer = rows.push(row);
    assert(distinct_keys(longer));
    assert forall|key: Seq<u8>| #[trigger]
        table(longer).contains_key(key) == table(rows).insert(
            row.key@,
            row.value@,
        ).contains_key(key) by {
        if has_key(rows, key) {
            assert(longer[place_of(rows, key)].key@ == key);
        }
        if key == row.key@ {
            assert(longer[rows.len() as int].key@ == key);
        }
    }
    assert forall|key: Seq<u8>| #[trigger] table(longer).contains_key(key) implies table(
        longer,
    )[key] == table(rows).insert(row.key@, row.value@)[key] by {
        let i = place_of(longer, key);
        lemma_table_at(longer, i);
        if i < rows.len() {
            lemma_table_at(rows, i);
        }
    }
}

/// A store in memory.
pub struct MemoryStore {
    secrets: Vec<SecretRow>,
    counter: Option<Vec<u8>>,
    challenge: Option<Vec<u8>>,
}

impl MemoryStore {
    /// Keys are filed once, every share is the digits of a scalar, the
    /// counter row can be read, and a challenge row holds a challenge of
    /// the current epoch.
    #[verifier::type_invariant]
    spec fn well_formed(self) -> bool {
        &&& distinct_keys(self.secrets@)
        &&& forall|i: int|
            0 <= i < self.secrets@.len() ==> is_scalar_digits(
                (#[trigger] self.secrets@[i]).value@,
            )
        &&& counter_in(row_bytes(self.counter)) is Some
        &&& self.challenge matches Some(row) ==> challenge_of(row@) matches Some(c) && c.id
            == counter_in(row_bytes(self.counter))->0
    }

    /// A store that holds nothing: no share, no ping, no challenge.
    pub fn new() -> (store: Self)
        ensures
            store.state() == StoreState::fresh(),
    {
        let store = MemoryStore { secrets: Vec::new(), counter: None, challenge: None };
        proof {
            assert(table(store.secrets@) =~= Map::empty());
        }
        store
    }

    /// The place of the row that is filed under `key`, if there is one.
    fn position(&self, key: &[u8]) -> (place: Option<usize>)
        ensures
            match place {
                Some(i) => i < self.secrets@.len() && self.secrets@[i as int].key@ == key@,
                None => !has_key(self.secrets@, key@),
            },
    {
        let mut i: usize = 0;
        while i < self.secrets.len()
            invariant
                i <= self.secrets@.len(),
                forall|j: int| 0 <= j < i ==> (#[trigger] self.secrets@[j]).key@ != key@,
            decreases self.secrets@.len() - i,
        {
            if same_bytes(self.secrets[i].key.as_slice(), key) {
                return Some(i);
            }
            i += 1;
        }
        None
    }
}

impl PersistentStore for MemoryStore {
    type Error = RowError;

    closed spec fn state(&self) -> StoreState {
        StoreState {
            shares: table(self.secrets@),
            counter: counter_in(row_bytes(self.counter))->0,
            challenge: match self.challenge {
                Some(row) => challenge_of(row@),
                None => None,
            },
        }
    }

    open spec fn steady(&self) -> bool {
        true
    }

    fn add_server_secret_share(&mut self, public_key: Point, server_secret_share: Scalar) -> (added:
        Result<(), AddShareError<RowError>>) {
        proof {
            use_type_invariant(&*self);
        }
        let key = public_key.to_bytes();
        match self.position(key.as_slice()) {
            Some(i) => {
                proof {
                    lemma_table_at(self.secrets@, i as int);
                }
                Err(AddShareError::AlreadyExists)
            },
            None => {
                let row = SecretRow { key, value: server_secret_share.to_bytes() };
                proof {
                    lemma_table_push(self.secrets@, row);
                }
                // The table is taken out while it grows, so that the store is
                // well formed at every step.
                let mut secrets: Vec<SecretRow> = Vec::new();
                core::mem::swap(&mut self.secrets, &mut secrets);
                secrets.push(row);
                core::mem::swap(&mut self.secrets, &mut secrets);
                Ok(())
            },
        }
    }

    fn get_server_secret_share(&mut self, public_key: Point) -> (found: Result<
        Option<Sealed>,
        RowError,
    >) {
        proof {
            use_type_invariant(&*self);
        }
        let key = public_key.to_bytes();
        match self.position(key.as_slice()) {
            Some(i) => {
                proof {
                    lemma_table_at(self.secrets@, i as int);
                }
                match stored_share(self.secrets[i].value.as_slice()) {
                    Ok(share) => Ok(Some(Sealed::new(public_key, share))),
                    Err(e) => Err(e),
                }
            },
            None => Ok(None),
        }
    }

    fn increase_ping_counter(&mut self) -> (counter: Result<u128, RowError>) {
        proof {
            use_type_invariant(&*self);
        }
        let next = next_counter(&self.counter)?;
        self.challenge = None;
        self.counter = Some(write_counter(next));
        Ok(next)
    }

    fn get_ping_counter(&mut self) -> (counter: Result<u128, RowError>) {
        proof {
            use_type_invariant(&*self);
        }
        stored_counter(&self.counter)
    }

    fn set_challenge(&mut self, challenge: Challenge) -> (set: Result<
        (),
        SetChallengeError<RowError>,
    >) {
        proof {
            use_type_invariant(&*self);
        }
        match place_challenge(&self.counter, &self.challenge, &challenge) {
            Ok(row) => {
                proof {
                    lemma_challenge_row_round_trip(challenge@);
                }
                self.challenge = Some(row);
                Ok(())
            },
            Err(e) => Err(e),
        }
    }

    fn get_challenge(&mut self) -> (challenge: Result<Option<Challenge>, RowError>) {
        proof {
            use_type_invariant(&*self);
        }
        stored_challenge(&self.challenge)
    }
}

} // verus!
