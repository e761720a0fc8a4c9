//! The proofs that a finality bundle carries.

use vstd::prelude::*;
use parity_scale_codec::Decode;
use sp_core::H256;
use sp_runtime::generic::Header as SubstrateHeader;
use sp_runtime::traits::BlakeTwo256;
use crate::bytes::{byte_strings, clone_byte_strings};
use crate::chain::{ChainHeaderView, RelayChainHeader};
use crate::hash::BlockHash;
use crate::relay_map::ParachainHeaderMap;

verus! {

/// What `ParachainHeaderProofs` holds, as plain values.
pub struct ParachainHeaderProofsView {
    pub state_proof: Seq<Seq<u8>>,
    pub extrinsic: Seq<u8>,
    pub extrinsic_proof: Seq<Seq<u8>>,
}

/// Proof that a parachain head was committed at a relay block, with the
/// parachain's timestamp extrinsic and the proof of its inclusion.
#[derive(Debug, PartialEq, Eq)]
pub struct ParachainHeaderProofs {
    /// Nodes of the storage proof of the parachain head in relay chain state.
    pub state_proof: Vec<Vec<u8>>,
    /// The encoded timestamp extrinsic of the parachain block.
    pub extrinsic: Vec<u8>,
    /// Nodes of the inclusion proof of that extrinsic.
    pub extrinsic_proof: Vec<Vec<u8>>,
}

impl View for ParachainHeaderProofs {
    type V = ParachainHeaderProofsView;

    open spec fn view(&self) -> ParachainHeaderProofsView {
        ParachainHeaderProofsView {
            state_proof: byte_strings(self.state_proof@),
            extrinsic: self.extrinsic@,
            extrinsic_proof: byte_strings(self.extrinsic_proof@),
        }
    }
}

/// The views of `headers`, in order.
pub open spec fn header_views(headers: Seq<RelayChainHeader>) -> Seq<ChainHeaderView> {
    Seq::new(headers.len(), |i: int| headers[i]@)
}

/// Each header of `headers` is the parent of the one before it, and the last
/// one is a child of the block `previous`.
pub open spec fn links_back_to(headers: Seq<ChainHeaderView>, previous: BlockHash) -> bool {
    &&& forall|i: int|
        0 <= i < headers.len() - 1 ==> (#[trigger] headers[i]).parent_hash == headers[i + 1].hash
    &&& headers.len() > 0 ==> headers.last().parent_hash == previous
}

/// What `FinalityProof` holds, as plain values.
pub struct FinalityProofView {
    pub block: Seq<u8>,
    pub justification: Seq<u8>,
    pub unknown_headers: Seq<ChainHeaderView>,
}

/// A justification of a finalized relay block, and the relay headers that lead
/// from it back to a block that was finalized before.
#[derive(Debug, PartialEq, Eq)]
pub struct FinalityProof {
    /// Hash of the block that the justification is for.
    pub block: BlockHash,
    /// The encoded justification; never looked into here.
    pub justification: Vec<u8>,
    /// Relay headers from the newly finalized block backward, down to but
    /// without the previously finalized one.
    pub unknown_headers: Vec<RelayChainHeader>,
}

impl View for FinalityProof {
    type V = FinalityProofView;

    open spec fn view(&self) -> FinalityProofView {
        FinalityProofView {
            block: self.block@,
            justification: self.justification@,
            unknown_headers: header_views(self.unknown_headers@),
        }
    }
}

/// What a finality bundle holds, as plain values.
pub struct BundleView {
    pub finality_proof: FinalityProofView,
    pub parachain_headers: Map<Seq<u8>, ParachainHeaderProofsView>,
}

/// Finalized parachain headers, each under the hash of the relay block that
/// committed it, with the finality proof of the relay chain.
#[derive(Debug, PartialEq, Eq)]
pub struct ParachainHeadersWithFinalityProof {
    /// The finality proof of the relay chain.
    pub finality_proof: FinalityProof,
    /// Proofs of the parachain headers, by relay block hash.
    pub parachain_headers: ParachainHeaderMap,
}

impl View for ParachainHeadersWithFinalityProof {
    type V = BundleView;

    open spec fn view(&self) -> BundleView {
        BundleView {
            finality_proof: self.finality_proof@,
            parachain_headers: self.parachain_headers@,
        }
    }
}

impl Clone for ParachainHeaderProofs {
    fn clone(&self) -> (copy: ParachainHeaderProofs)
        ensures
            copy@ == self@,
    {
        ParachainHeaderProofs {
            state_proof: clone_byte_strings(&self.state_proof),
            extrinsic: self.extrinsic.clone(),
            extrinsic_proof: clone_byte_strings(&self.extrinsic_proof),
        }
    }
}

/// A copy of `headers`.
pub fn clone_headers(headers: &Vec<RelayChainHeader>) -> (copy: Vec<RelayChainHeader>)
    ensures
        header_views(copy@) == header_views(headers@),
{
    let mut copy: Vec<RelayChainHeader> = Vec::new();
    let mut i: usize = 0;
    while i < headers.len()
        invariant
            i <= headers@.len(),
            copy@.len() == i,
            forall|j: int| 0 <= j < i ==> (#[trigger] copy@[j])@ == headers@[j]@,
        decreases headers@.len() - i,
    {
        copy.push(headers[i].clone());
        i = i + 1;
    }
    assert(header_views(copy@) =~= header_views(headers@));
    copy
}

/// The block hash and the justification of the finality proof that `bytes`
/// decode to in the SCALE codec; `None` where they do not decode as a finality
/// proof.
pub uninterp spec fn scale_decoded_finality_proof(bytes: Seq<u8>) -> Option<(BlockHash, Seq<u8>)>;

/// Decodes `bytes` with `Decode::decode` of `parity_scale_codec` as a block
/// hash, a justification and a list of headers, which is how a finality proof
/// is encoded, and hands out the first two. The decoded headers are dropped.
///
/// Trusted: the outcome is the named decoding of `bytes`.
#[verifier::external_body]
fn decode_finality_proof(bytes: &[u8]) -> (decoded: Option<(BlockHash, Vec<u8>)>)
    ensures
        match decoded {
            Some(parts) => scale_decoded_finality_proof(bytes@) == Some((parts.0, parts.1@)),
            None => scale_decoded_finality_proof(bytes@) is None,
        },
{
    match <(H256, Vec<u8>, Vec<SubstrateHeader<u32, BlakeTwo256>>)>::decode(&mut &bytes[..]) {
        Ok((block, justification, _)) => Some((BlockHash(block.0), justification)),
        Err(_) => None,
    }
}

impl FinalityProof {
    /// Decodes an encoded finality proof, as the chain hands it out for a
    /// finalized block, into the hash of the block it is for and its
    /// justification. The headers that it names are left out: the list of
    /// unknown headers is empty.
    pub fn decode(bytes: &[u8]) -> (decoded: Option<FinalityProof>)
        ensures
            match decoded {
                Some(finality) => {
                    &&& scale_decoded_finality_proof(bytes@) == Some(
                        (finality.block, finality.justification@),
                    )
                    &&& finality.unknown_headers@.len() == 0
                },
                None => scale_decoded_finality_proof(bytes@) is None,
            },
    {
        match decode_finality_proof(bytes) {
            Some((block, justification)) => Some(
                FinalityProof { block, justification, unknown_headers: Vec::new() },
            ),
            None => None,
        }
    }
}

impl Clone for FinalityProof {
    fn clone(&self) -> (copy: FinalityProof)
        ensures
            copy@ == self@,
    {
        FinalityProof {
            block: self.block,
            justification: self.justification.clone(),
            unknown_headers: clone_headers(&self.unknown_headers),
        }
    }
}

impl Clone for ParachainHeadersWithFinalityProof {
    fn clone(&self) -> (copy: ParachainHeadersWithFinalityProof)
        ensures
            copy@ == self@,
    {
        ParachainHeadersWithFinalityProof {
            finality_proof: self.finality_proof.clone(),
            parachain_headers: self.parachain_headers.clone(),
        }
    }
}

} // verus!
