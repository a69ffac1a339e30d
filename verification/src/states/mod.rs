//! The states that a node goes through.

pub mod adult;
pub mod bootstrapping_peer;
pub mod elder;
pub mod joining_peer;
