//! The state of a section and the history of its keys.

pub mod accumulating;
pub mod bls_emu;
pub mod chain;
pub mod elders_info;
pub mod genesis;
pub mod laws;
pub mod member_info;
pub mod network_params;
pub mod non_empty_list;
pub mod proof_chain;
pub mod section_laws;
pub mod shared_state;
pub mod state_view;
