//! The things that are traded and the parties that trade them.

pub mod asset;
pub mod investor;
pub mod order;
pub mod transaction;
