//! What holds of the clearing book as a whole: over what its operations promise,
//! and over the state transitions that they carry out.

pub mod aethel;
pub mod authority;
pub mod clearing;
pub mod confidential;
pub mod cycles;
pub mod defaults;
pub mod encoding;
pub mod guarantees;
pub mod holds;
pub mod losses;
pub mod members;
pub mod netting;
pub mod offers;
pub mod operations;
pub mod order;
pub mod proposals;
pub mod reachable;
pub mod reading;
pub mod refusals;
pub mod restore;
pub mod soundness;
pub mod statements;
pub mod texts;
pub mod validity;
