//! The wire shape of a header message: hashes and headers as raw bytes,
//! sub-messages optional, parachain headers as a list.

use vstd::prelude::*;
use crate::bytes::byte_strings;
use crate::primitives::ParachainHeaderProofsView;

verus! {

/// What a wire `FinalityProof` holds, as plain values.
pub struct FinalityProofView {
    pub block: Seq<u8>,
    pub justification: Seq<u8>,
    pub unknown_headers: Seq<Seq<u8>>,
}

/// Wire form of a finality proof.
#[derive(Debug, PartialEq, Eq)]
pub struct FinalityProof {
    /// Hash of the finalized block; 32 bytes in a valid message.
    pub block: Vec<u8>,
    /// The encoded justification.
    pub justification: Vec<u8>,
    /// The encoded unknown headers.
    pub unknown_headers: Vec<Vec<u8>>,
}

impl View for FinalityProof {
    type V = FinalityProofView;

    open spec fn view(&self) -> FinalityProofView {
        FinalityProofView {
            block: self.block@,
            justification: self.justification@,
            unknown_headers: byte_strings(self.unknown_headers@),
        }
    }
}

/// Wire form of the proofs of one parachain header.
#[derive(Debug, PartialEq, Eq)]
pub struct ParachainHeaderProofs {
    pub state_proof: Vec<Vec<u8>>,
    pub extrinsic: Vec<u8>,
    pub extrinsic_proof: Vec<Vec<u8>>,
}

impl View for ParachainHeaderProofs {
    type V = ParachainHeaderProofsView;

    open spec fn view(&self) -> ParachainHeaderProofsView {
        ParachainHeaderProofsView {
            state_proof: byte_strings(self.state_proof@),
            extrinsic: self.extrinsic@,
            extrinsic_proof: byte_strings(self.extrinsic_proof@),
        }
    }
}

/// What a wire `ParachainHeaderWithRelayHash` holds, as plain values.
pub struct ParachainHeaderWithRelayHashView {
    pub relay_hash: Seq<u8>,
    pub parachain_header: Option<ParachainHeaderProofsView>,
}

/// Wire form of one parachain header entry.
#[derive(Debug, PartialEq, Eq)]
pub struct ParachainHeaderWithRelayHash {
    /// Hash of the relay block; 32 bytes in a valid message.
    pub relay_hash: Vec<u8>,
    /// The proofs; present in a valid message.
    pub parachain_header: Option<ParachainHeaderProofs>,
}

impl View for ParachainHeaderWithRelayHash {
    type V = ParachainHeaderWithRelayHashView;

    open spec fn view(&self) -> ParachainHeaderWithRelayHashView {
        ParachainHeaderWithRelayHashView {
            relay_hash: self.relay_hash@,
            parachain_header: match self.parachain_header {
                Some(proofs) => Some(proofs@),
                None => None,
            },
        }
    }
}

/// The entries that `list` holds, as plain values and in order.
pub open spec fn entry_views(
    list: Seq<ParachainHeaderWithRelayHash>,
) -> Seq<ParachainHeaderWithRelayHashView> {
    Seq::new(list.len(), |i: int| list[i]@)
}

/// What a wire `Header` holds, as plain values.
pub struct HeaderView {
    pub finality_proof: Option<FinalityProofView>,
    pub parachain_headers: Seq<ParachainHeaderWithRelayHashView>,
}

/// Wire form of a header message.
#[derive(Debug, PartialEq, Eq)]
pub struct Header {
    /// The finality proof; present in a valid message.
    pub finality_proof: Option<FinalityProof>,
    /// The parachain header entries.
    pub parachain_headers: Vec<ParachainHeaderWithRelayHash>,
}

impl View for Header {
    type V = HeaderView;

    open spec fn view(&self) -> HeaderView {
        HeaderView {
            finality_proof: match self.finality_proof {
                Some(finality) => Some(finality@),
                None => None,
            },
            parachain_headers: entry_views(self.parachain_headers@),
        }
    }
}

} // verus!
