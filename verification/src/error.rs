//! Failures of proof assembly and of wire conversion.

use vstd::prelude::*;
use crate::hash::BlockHash;

verus! {

/// Something that was asked of the chain and does not exist there.
#[derive(Clone, Copy, Debug, PartialEq, Eq)]
pub enum NotFound {
    /// No header is known under this hash.
    Header(BlockHash),
    /// No finality justification is known for the relay block of this number.
    Justification(u32),
}

/// Bytes that do not have the shape they should have.
#[derive(Clone, Copy, Debug, PartialEq, Eq)]
pub enum DecodeError {
    /// A hash field does not hold exactly 32 bytes; carries the length found.
    HashLength(usize),
    /// Bytes that should hold an encoded block header do not decode as one.
    Header,
    /// Bytes that should hold an encoded finality proof do not decode as one.
    FinalityProof,
}

/// A sub-message that a wire message must carry.
#[derive(Clone, Copy, Debug, PartialEq, Eq)]
pub enum RequiredField {
    /// The finality proof of a header message.
    FinalityProof,
    /// The proofs of a parachain header entry.
    ParachainHeader,
}

/// Why a query or a conversion failed. Every failure is final for the call
/// that met it: nothing is retried and no partial result is handed out.
#[derive(Clone, Copy, Debug, PartialEq, Eq)]
pub enum Error {
    /// A requested header or justification does not exist.
    NotFound(NotFound),
    /// Bytes do not parse as the expected shape.
    Decode(DecodeError),
    /// A wire message omits a required sub-message.
    MissingRequiredField(RequiredField),
    /// The walk towards the previously finalized block stopped at this hash
    /// without reaching it.
    ChainDiscontinuity(BlockHash),
}

} // verus!
