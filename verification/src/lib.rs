//! Custody of one half of a two-party secret behind a dead-man's switch.
//!
//! A testator deposits the server's share of a joint secret and keeps
//! pinging. A beneficiary may claim the share only with a solved challenge
//! of the current ping epoch: each ping starts a new epoch and erases the
//! challenge of the old one, so a claim takes at least as long as the delay
//! function, counted from the testator's last sign of life.
//!
//! - [`scalar`] and [`curve`]: shares and public keys, as bytes.
//! - [`sealed`]: a deposited share and the two ways in which it is used.
//! - [`persistent_store`]: what a store holds, what its operations promise,
//!   the layout of its rows, and a store in memory.
//! - [`server`]: the custody engine behind the two endpoints.
//! - [`proto`], [`status`], [`cli`]: messages, failures and settings.

pub mod bytes;
pub mod cli;
pub mod curve;
pub mod persistent_store;
pub mod proto;
pub mod scalar;
pub mod sealed;
pub mod server;
pub mod status;
