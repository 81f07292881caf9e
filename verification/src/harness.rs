//! The pure core of the end-to-end harness: what is computed and decided
//! around the processes that a test network is made of.

pub mod command;
pub mod constants;
pub mod genesis;
pub mod genesis_tree;
pub mod network;
pub mod session;
