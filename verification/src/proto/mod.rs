//! The messages of the two endpoints, as plain values, and the paths of
//! their methods.

pub mod beneficiary;
pub mod route;
pub mod testator;
