//! Assembly and transport of GRANDPA finality proofs for a parachain light
//! client.
//!
//! A light client that follows a relay chain and a parachain anchored in it
//! needs, for every step forward, a bundle that shows that a relay block is
//! final and that given parachain headers are committed in the relay blocks up
//! to it. This crate holds the two halves of that exchange:
//!
//! - [`prover`] starts the queries that assemble such a bundle. A query does
//!   no I/O: [`proof_query`] and [`headers_query`] ask for one thing at a time
//!   and take the answer back. What every bundle satisfies is proved there,
//!   and [`driven`] proves which bundle a query ends with when a chain
//!   answers it.
//! - [`header`] is the bundle as the light client consumes it, with its
//!   conversion to and from the wire shape of [`proto`]. The conversion is
//!   proved to lose nothing.
//!
//! [`chain`] decodes block headers, [`hash`] holds the 32-byte block hash,
//! [`primitives`] the parts of a bundle, and [`relay_map`] the ordered map
//! from relay block hashes to parachain header proofs.

pub mod bytes;
pub mod chain;
pub mod driven;
pub mod error;
pub mod hash;
pub mod header;
pub mod headers_query;
pub mod primitives;
pub mod proof_query;
pub mod proto;
pub mod prover;
pub mod relay_map;
