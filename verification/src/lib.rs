//! A peer-to-peer storage node: the rules that decide what the node stores,
//! looks up and writes, with the cryptography and the network behind small
//! trusted boundaries.

pub mod auth;
pub mod behaviour;
pub mod chunk;
pub mod claims;
pub mod command;
pub mod event_loop;
pub mod hashing;
pub mod hexcode;
pub mod network;
pub mod node;
pub mod retrieval;
pub mod signing;
pub mod text;
