//! Typed node configuration with layered loading, and the pure core of the
//! end-to-end network harness.
//!
//! The configuration of a node is a [`config::Config`]. It is written out
//! as a document ([`value::Datum`]) and read back from one; a document is
//! read from layers (defaults, file, environment) that are laid over each
//! other ([`value::Datum::merge`], [`env::layer`]), and is read from and
//! written out as TOML text by [`document`]. [`store`] decides what is
//! read and written when; touching the file system is left to the caller.
//!
//! [`harness`] holds what is computed around the processes of a test
//! network: the genesis document, command lines, paths, and what to make
//! of what a process printed.

pub mod config;
pub mod document;
pub mod engine;
pub mod env;
pub mod error;
pub mod filter;
pub mod harness;
pub mod ip6;
pub mod ip6_laws;
pub mod leaf;
pub mod materialize;
pub mod merge_laws;
pub mod mode;
pub mod net;
pub mod path;
pub mod peer;
pub mod read_laws;
pub mod round_trip;
pub mod store;
pub mod text;
pub mod time;
pub mod timeout;
pub mod tree;
pub mod tree_laws;
pub mod value;
