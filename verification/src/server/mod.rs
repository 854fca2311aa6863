//! The custody engine: what the service does with a deposit, a ping, a
//! request for proof, a request for the challenge, and a claim.
//!
//! The engine decides; the store remembers. Every operation says how the
//! store stands when it returns, and the store may be shared, so between
//! two steps of one operation a ping or a deposit of another caller may
//! have come in. Of a steady store, which only its holder acts on, every
//! operation says exactly what it answers: see the `*_outcome` functions.

pub mod beneficiary;
pub mod testator;

pub use beneficiary::{
    challenge_message, challenge_reply, decode_claim, decode_proof_request, open_status,
    proof_reply, release_reply, BeneficiaryServer, Claim, Verdict,
};
pub use testator::{decode_deposit, deposit_reply, ping_reply, TestatorServer};
