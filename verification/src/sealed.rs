//! A deposited share, sealed: it leaves only through `verify` and `open`.

use crate::bytes::same_bytes;
use crate::curve::Point;
use crate::persistent_store::challenge::{Challenge, ChallengeView};
use crate::scalar::Scalar;
use vstd::prelude::*;

verus! {

/// Why a sealed share stayed closed.
#[derive(Debug, PartialEq, Eq, Clone, Copy)]
pub enum OpenError {
    /// The client's public share, multiplied by the server's share, is not
    /// the joint public key.
    ClientShareDoesntMatchServerShare,
    /// The delay function rejected the solution.
    IncorrectSolution,
    /// The solved challenge belongs to an earlier epoch than the current one.
    OldChallenge,
    /// The solved challenge is not the current one.
    InvalidChallenge,
}

/// The first check that a claim fails, in the order in which they are made:
/// the epoch, the identity of the challenge, the solution, the client's
/// share. `None` if the claim passes all four.
pub open spec fn first_failure(
    current: ChallengeView,
    solved: ChallengeView,
    solution_verifies: bool,
    share_matches: bool,
) -> Option<OpenError> {
    if solved.id < current.id {
        Some(OpenError::OldChallenge)
    } else if solved != current {
        Some(OpenError::InvalidChallenge)
    } else if !solution_verifies {
        Some(OpenError::IncorrectSolution)
    } else if !share_matches {
        Some(OpenError::ClientShareDoesntMatchServerShare)
    } else {
        None
    }
}

/// A joint public key with the server's share of its secret.
pub struct Sealed {
    public_key: Point,
    server_share: Scalar,
}

/// What a [`Sealed`] holds: the joint public key, written without its tag
/// byte, and the digits of the server's share.
pub struct SealedView {
    pub public_key: Seq<u8>,
    pub server_share: Seq<u8>,
}

impl View for Sealed {
    type V = SealedView;

    closed spec fn view(&self) -> SealedView {
        SealedView { public_key: self.public_key@, server_share: self.server_share@ }
    }
}

impl Sealed {
    /// Seals a share under its joint public key.
    pub fn new(public_key: Point, server_secret: Scalar) -> (sealed: Self)
        ensures
            sealed@ == (SealedView { public_key: public_key@, server_share: server_secret@ }),
    {
        Sealed { public_key, server_share: server_secret }
    }

    /// Whether the client's public share, multiplied by the server's share,
    /// gives the joint public key.
    pub open spec fn fits(&self, client_share_pk: &Point) -> bool {
        client_share_pk.times(self@.server_share) == self@.public_key
    }

    /// Multiplies the client's public share by the server's share. Where the
    /// product is the joint public key it is returned, as proof that the
    /// server holds the matching share; otherwise `None`.
    pub fn verify(&self, client_share_pk: Point) -> (evidence: Option<Vec<u8>>)
        ensures
            match evidence {
                Some(product) => self.fits(&client_share_pk) && product@ == self@.public_key,
                None => !self.fits(&client_share_pk),
            },
    {
        let product = client_share_pk.scale(&self.server_share);
        let key = self.public_key.to_bytes();
        if same_bytes(product.as_slice(), key.as_slice()) {
            Some(product)
        } else {
            None
        }
    }

    /// The two checks of [`Sealed::open`] that look at the challenges alone:
    /// the solved challenge is not of an earlier epoch, and it is the
    /// current one. They cost no arithmetic and need no solution.
    pub fn screen(current_challenge: &Challenge, solved_challenge: &Challenge) -> (screened:
        Result<(), OpenError>)
        ensures
            match screened {
                Ok(_) => first_failure(current_challenge@, solved_challenge@, true, true) is None,
                Err(e) => first_failure(current_challenge@, solved_challenge@, true, true)
                    == Some(e),
            },
    {
        if current_challenge.id > solved_challenge.id {
            Err(OpenError::OldChallenge)
        } else if !current_challenge.same_as(solved_challenge) {
            Err(OpenError::InvalidChallenge)
        } else {
            Ok(())
        }
    }

    /// Opens the seal for a claim. `solution_verifies` says whether the delay
    /// function accepted the claimed solution of `solved_challenge`.
    ///
    /// The checks come in a fixed order, and the first that fails is
    /// reported: a stale epoch before anything else, the solution before the
    /// client's share.
    pub fn open(
        self,
        current_challenge: &Challenge,
        solved_challenge: &Challenge,
        solution_verifies: bool,
        client_share_pk: Point,
    ) -> (opened: Result<Scalar, OpenError>)
        ensures
            match opened {
                Ok(share) => {
                    &&& first_failure(
                        current_challenge@,
                        solved_challenge@,
                        solution_verifies,
                        self.fits(&client_share_pk),
                    ) is None
                    &&& share@ == self@.server_share
                },
                Err(e) => first_failure(
                    current_challenge@,
                    solved_challenge@,
                    solution_verifies,
                    self.fits(&client_share_pk),
                ) == Some(e),
            },
    {
        if let Err(e) = Sealed::screen(current_challenge, solved_challenge) {
            Err(e)
        } else if !solution_verifies {
            Err(OpenError::IncorrectSolution)
        } else if self.verify(client_share_pk).is_none() {
            Err(OpenError::ClientShareDoesntMatchServerShare)
        } else {
            Ok(self.server_share)
        }
    }

    /// The share itself, unsealed. Meant for tests of a store.
    pub fn secret_share(&self) -> (share: &Scalar)
        ensures
            share@ == self@.server_share,
    {
        &self.server_share
    }
}

} // verus!
