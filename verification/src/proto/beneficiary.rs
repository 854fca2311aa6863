//! Messages of the beneficiary's endpoint.

use crate::persistent_store::challenge::ChallengeView;
use crate::persistent_store::rows::counter_row;
use vstd::prelude::*;

verus! {

/// Asks the server to show that it holds the share for a public key.
#[derive(Debug, Clone, PartialEq, Eq, Default)]
pub struct VerifyServerShareRequest {
    /// The joint public key, uncompressed, without its tag byte.
    pub public_key: Vec<u8>,
    /// The beneficiary's public share, in the same form.
    pub client_public_share: Vec<u8>,
}

/// The server's proof that it holds the share.
#[derive(Debug, Clone, PartialEq, Eq, Default)]
pub struct VerifyServerShareResponse {
    /// The client's public share multiplied by the server's share,
    /// uncompressed, without its tag byte.
    pub server_public_share: Vec<u8>,
}

/// Asks for the challenge of the current epoch.
#[derive(Debug, Clone, Copy, PartialEq, Eq, Default)]
pub struct GetChallengeRequest {}

/// A challenge as it travels.
#[derive(Debug, Clone, PartialEq, Eq, Default)]
pub struct Challenge {
    /// The epoch: sixteen bytes, least significant first.
    pub id: Vec<u8>,
    /// The serialised delay-function instance.
    pub challenge: Vec<u8>,
}

/// A claim: a solved challenge and what identifies the share.
#[derive(Debug, Clone, PartialEq, Eq, Default)]
pub struct ObtainServerSecretShareRequest {
    /// The joint public key, uncompressed, without its tag byte.
    pub public_key: Vec<u8>,
    /// The beneficiary's public share, in the same form.
    pub client_public_share: Vec<u8>,
    /// The challenge that was solved.
    pub solved_challenge: Option<Challenge>,
    /// The serialised solution.
    pub solution: Vec<u8>,
}

/// The released share.
#[derive(Debug, Clone, PartialEq, Eq, Default)]
pub struct ObtainServerSecretShareResponse {
    /// The share as a big-endian number, without leading zero bytes.
    pub server_secret_share: Vec<u8>,
}

/// Whether `message` is `challenge` as it travels: the id as sixteen
/// little-endian bytes, the instance unchanged.
pub open spec fn carries(message: Challenge, challenge: ChallengeView) -> bool {
    &&& message.id@ == counter_row(challenge.id)
    &&& message.challenge@ == challenge.challenge
}

} // verus!
