//! The durable state of the service: deposited shares, the ping counter and
//! the challenge of the current epoch.

pub mod challenge;
pub mod history;
pub mod memory;
pub mod rows;

pub use challenge::{Challenge, ChallengeView};

use crate::curve::Point;
use crate::scalar::Scalar;
use crate::sealed::{Sealed, SealedView};
use vstd::prelude::*;

verus! {

/// Why a challenge was not set.
#[derive(Debug)]
pub enum SetChallengeError<E> {
    /// The epoch already has a challenge: this one.
    AlreadySet(Challenge),
    /// The challenge belongs to an epoch that is over.
    Outdated,
    /// The challenge belongs to an epoch that has not begun.
    MismatchedId,
    /// The store itself failed.
    Store(E),
}

impl<E> SetChallengeError<E> {
    /// What went wrong, in words.
    pub fn message(&self) -> (text: &'static str)
        ensures
            text@ == match *self {
                SetChallengeError::AlreadySet(_) => "challenge is already set"@,
                SetChallengeError::Outdated => "testator is not offline"@,
                SetChallengeError::MismatchedId => "id doesn't match current ping counter"@,
                SetChallengeError::Store(_) => "persistent store failed"@,
            },
    {
        match self {
            SetChallengeError::AlreadySet(_) => "challenge is already set",
            SetChallengeError::Outdated => "testator is not offline",
            SetChallengeError::MismatchedId => "id doesn't match current ping counter",
            SetChallengeError::Store(_) => "persistent store failed",
        }
    }

    /// The failure of the store that lies behind this error, if one does.
    pub fn source(&self) -> (cause: Option<&E>)
        ensures
            match *self {
                SetChallengeError::Store(e) => cause == Some(&e),
                _ => cause is None,
            },
    {
        match self {
            SetChallengeError::Store(e) => Some(e),
            _ => None,
        }
    }
}

/// Why a share was not added.
#[derive(Debug)]
pub enum AddShareError<E> {
    /// The public key already has a share on file.
    AlreadyExists,
    /// The store itself failed.
    Store(E),
}

/// What a store holds.
pub struct StoreState {
    /// The deposited shares: from a joint public key, written without its
    /// tag byte, to the digits of the server's share.
    pub shares: Map<Seq<u8>, Seq<u8>>,
    /// How many pings the store has counted.
    pub counter: u128,
    /// The challenge of the current epoch, if one was set.
    pub challenge: Option<ChallengeView>,
}

impl StoreState {
    /// The state of a store that was never written to.
    pub open spec fn fresh() -> StoreState {
        StoreState { shares: Map::empty(), counter: 0, challenge: None }
    }

    /// A challenge on file belongs to the current epoch.
    pub open spec fn wf(self) -> bool {
        self.challenge matches Some(c) ==> c.id == self.counter
    }

    /// Whether `later` can follow `self` in the life of one store: the
    /// counter has not gone down, every share on file is still on file,
    /// and within one epoch a challenge that was set has stayed.
    pub open spec fn evolves_to(self, later: StoreState) -> bool {
        &&& self.counter <= later.counter
        &&& forall|key: Seq<u8>| #[trigger]
            self.shares.contains_key(key) ==> later.shares.contains_key(key)
                && later.shares[key] == self.shares[key]
        &&& (self.counter == later.counter && self.challenge is Some ==> later.challenge
            == self.challenge)
    }

    /// Whether the store, on its way from `self` to `later`, may have
    /// stood at `between`.
    pub open spec fn passes_through(self, between: StoreState, later: StoreState) -> bool {
        &&& self.evolves_to(between)
        &&& between.wf()
        &&& between.evolves_to(later)
    }

    /// The state after a ping: the next epoch, with no challenge yet.
    pub open spec fn after_ping(self) -> StoreState
        recommends
            self.counter < u128::MAX,
    {
        StoreState {
            shares: self.shares,
            counter: (self.counter + 1) as u128,
            challenge: None,
        }
    }

    /// The state after a deposit.
    pub open spec fn with_share(self, public_key: Seq<u8>, share: Seq<u8>) -> StoreState {
        StoreState {
            shares: self.shares.insert(public_key, share),
            counter: self.counter,
            challenge: self.challenge,
        }
    }

    /// The state after a challenge was set.
    pub open spec fn with_challenge(self, challenge: ChallengeView) -> StoreState {
        StoreState { shares: self.shares, counter: self.counter, challenge: Some(challenge) }
    }

    /// Whether `challenge` may be set: it is for the current epoch, and the
    /// epoch has none yet.
    pub open spec fn admits(self, challenge: ChallengeView) -> bool {
        challenge.id == self.counter && self.challenge is None
    }
}

/// A state follows itself.
pub proof fn lemma_evolves_reflexive(state: StoreState)
    ensures
        state.evolves_to(state),
{
}

/// What follows a follower follows.
pub proof fn lemma_evolves_transitive(first: StoreState, second: StoreState, third: StoreState)
    requires
        first.evolves_to(second),
        second.evolves_to(third),
    ensures
        first.evolves_to(third),
{
}

/// The operations that the custody engine needs from its store.
///
/// A store may be shared: other holders of the same store may act on it
/// between two operations and just before one. So an operation says where
/// the store stands when it returns, and that this state follows the one
/// before the call ([`StoreState::evolves_to`]); it does not say that
/// nothing else happened. Each operation is one atomic step.
///
/// No operation promises to succeed: a store may fail at any time, and then
/// reports it in its `Error`.
///
/// A store is steady ([`PersistentStore::steady`]) where its holder is the
/// only one to act on it and it does not fail but for a counter that cannot
/// go higher. Of a steady store every operation says exactly what it
/// returns and how it leaves the store.
pub trait PersistentStore: Sized {
    type Error;

    /// What the store holds. An implementation in verified code says so;
    /// one outside leaves it unsaid.
    open spec fn state(&self) -> StoreState {
        arbitrary()
    }

    /// Whether the store is steady: nobody else acts on it, and it fails
    /// only where the counter cannot go higher.
    open spec fn steady(&self) -> bool {
        arbitrary()
    }

    /// Files a share under its joint public key. A key that has a share
    /// keeps it: the deposit fails with `AlreadyExists`.
    fn add_server_secret_share(&mut self, public_key: Point, server_secret_share: Scalar) -> (added:
        Result<(), AddShareError<Self::Error>>)
        ensures
            final(self).state().wf(),
            old(self).state().evolves_to(final(self).state()),
            match added {
                Ok(_) => {
                    &&& !old(self).state().shares.contains_key(public_key@)
                    &&& final(self).state().shares.contains_key(public_key@)
                    &&& final(self).state().shares[public_key@] == server_secret_share@
                },
                Err(AddShareError::AlreadyExists) => final(self).state().shares.contains_key(
                    public_key@,
                ),
                Err(AddShareError::Store(_)) => true,
            },
            old(self).steady() ==> {
                &&& final(self).steady()
                &&& (added is Ok <==> !old(self).state().shares.contains_key(public_key@))
                &&& (added matches Err(e) ==> e is AlreadyExists)
                &&& final(self).state() == if added is Ok {
                    old(self).state().with_share(public_key@, server_secret_share@)
                } else {
                    old(self).state()
                }
            },
    ;

    /// The share on file for a joint public key, sealed.
    fn get_server_secret_share(&mut self, public_key: Point) -> (found: Result<
        Option<Sealed>,
        Self::Error,
    >)
        ensures
            final(self).state().wf(),
            old(self).state().evolves_to(final(self).state()),
            match found {
                Ok(Some(sealed)) => {
                    &&& final(self).state().shares.contains_key(public_key@)
                    &&& sealed@ == (SealedView {
                        public_key: public_key@,
                        server_share: final(self).state().shares[public_key@],
                    })
                },
                Ok(None) => !final(self).state().shares.contains_key(public_key@),
                Err(_) => true,
            },
            old(self).steady() ==> {
                &&& final(self).steady()
                &&& found is Ok
                &&& final(self).state() == old(self).state()
            },
    ;

    /// Counts a ping: the next epoch begins, and the challenge of the old
    /// one is erased in the same step. Returns the new counter.
    fn increase_ping_counter(&mut self) -> (counter: Result<u128, Self::Error>)
        ensures
            final(self).state().wf(),
            old(self).state().evolves_to(final(self).state()),
            match counter {
                Ok(c) => {
                    &&& final(self).state().counter == c
                    &&& old(self).state().counter < c
                    &&& final(self).state().challenge is None
                },
                Err(_) => true,
            },
            old(self).steady() ==> {
                &&& final(self).steady()
                &&& (counter is Ok <==> old(self).state().counter < u128::MAX)
                &&& final(self).state() == if counter is Ok {
                    old(self).state().after_ping()
                } else {
                    old(self).state()
                }
            },
    ;

    /// The ping counter: zero until the first ping.
    fn get_ping_counter(&mut self) -> (counter: Result<u128, Self::Error>)
        ensures
            final(self).state().wf(),
            old(self).state().evolves_to(final(self).state()),
            match counter {
                Ok(c) => final(self).state().counter == c,
                Err(_) => true,
            },
            old(self).steady() ==> {
                &&& final(self).steady()
                &&& counter is Ok
                &&& final(self).state() == old(self).state()
            },
    ;

    /// Sets the challenge of the current epoch, unless the epoch has one:
    /// then that one stays and is handed back in `AlreadySet`, whether or
    /// not it differs from `challenge`. A challenge for an epoch that is
    /// over is `Outdated`; one for an epoch that has not begun has a
    /// `MismatchedId`.
    fn set_challenge(&mut self, challenge: Challenge) -> (set: Result<
        (),
        SetChallengeError<Self::Error>,
    >)
        ensures
            final(self).state().wf(),
            old(self).state().evolves_to(final(self).state()),
            match set {
                Ok(_) => {
                    &&& final(self).state().counter == challenge.id
                    &&& final(self).state().challenge == Some(challenge@)
                },
                Err(SetChallengeError::AlreadySet(existing)) => {
                    &&& final(self).state().counter == challenge.id
                    &&& final(self).state().challenge == Some(existing@)
                },
                Err(SetChallengeError::Outdated) => challenge.id < final(self).state().counter,
                Err(SetChallengeError::MismatchedId) => {
                    challenge.id > final(self).state().counter
                },
                Err(SetChallengeError::Store(_)) => true,
            },
            old(self).steady() ==> {
                &&& final(self).steady()
                &&& (set is Ok <==> old(self).state().admits(challenge@))
                &&& (set matches Err(e) ==> !(e is Store))
                &&& final(self).state() == if set is Ok {
                    old(self).state().with_challenge(challenge@)
                } else {
                    old(self).state()
                }
            },
    ;

    /// The challenge of the current epoch, if one was set. Its id is the
    /// ping counter.
    fn get_challenge(&mut self) -> (challenge: Result<Option<Challenge>, Self::Error>)
        ensures
            final(self).state().wf(),
            old(self).state().evolves_to(final(self).state()),
            match challenge {
                Ok(Some(c)) => {
                    &&& final(self).state().challenge == Some(c@)
                    &&& c.id == final(self).state().counter
                },
                Ok(None) => final(self).state().challenge is None,
                Err(_) => true,
            },
            old(self).steady() ==> {
                &&& final(self).steady()
                &&& challenge is Ok
                &&& final(self).state() == old(self).state()
            },
    ;
}

} // verus!
