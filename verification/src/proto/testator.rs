//! Messages of the testator's endpoint.

use vstd::prelude::*;

verus! {

/// A keepalive: it carries nothing.
#[derive(Debug, Clone, Copy, PartialEq, Eq, Default)]
pub struct PingRequest {}

/// The answer to a keepalive: it carries nothing.
#[derive(Debug, Clone, Copy, PartialEq, Eq, Default)]
pub struct PongResponse {}

/// A deposit: the joint public key and the server's share of its secret.
#[derive(Debug, Clone, PartialEq, Eq, Default)]
pub struct SaveServerShareRequest {
    /// The joint public key, uncompressed, without its tag byte.
    pub public_key: Vec<u8>,
    /// The share as a big-endian number.
    pub server_secret_share: Vec<u8>,
}

/// The answer to a deposit: it carries nothing.
#[derive(Debug, Clone, Copy, PartialEq, Eq, Default)]
pub struct SaveServerShareResponse {}

} // verus!
