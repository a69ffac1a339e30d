//! Section state, proof chains and the joining protocol of a routing node.
//!
//! A network is split into sections, each responsible for the names that start with its prefix.
//! The modules hold the state that the elders of a section share, the history of the section's
//! keys, what a peer does while it joins a section, and how a node is configured and queried.

pub mod chain;
pub mod closeness;
pub mod encoding;
pub mod error;
pub mod event;
pub mod id;
pub mod messages;
pub mod network_service;
pub mod node;
pub mod ordered_map;
pub mod peer_map;
pub mod prefix;
pub mod prefix_map;
pub mod routing_message_filter;
pub mod state_machine;
pub mod states;
pub mod text;
pub mod timer;
pub mod value;
pub mod wire;
pub mod xor_name;
