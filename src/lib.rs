//! Dealing one poker hand from a shared entropy value: a counter-indexed random stream, a
//! Fisher-Yates shuffle, additive secret sharing of each street's viewing secret, the phase gate
//! that decides when community cards may be disclosed, and the showdown.

pub mod contract;
pub mod error;
pub mod msg;
pub mod phase;
pub mod random;
pub mod showdown;
pub mod state;
