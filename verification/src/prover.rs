//! The prover, and what it asks of the chains.
//!
//! A query does no I/O. It names the next thing to fetch as a [`Request`];
//! whoever drives it performs the request and hands the answer back, until
//! the query has nothing left to ask.

use vstd::prelude::*;
use crate::chain::{scale_decoded_header, ChainHeader, ChainHeaderView, ParachainHeader};
use crate::hash::BlockHash;
use crate::headers_query::HeadersQuery;
use crate::primitives::{scale_decoded_finality_proof, FinalityProof};
use crate::proof_query::ProofQuery;

verus! {

/// Something to fetch from the relay chain or from the parachain.
#[derive(Clone, Copy, Debug, PartialEq, Eq)]
pub enum Request {
    /// The relay chain header with this hash.
    Header(BlockHash),
    /// A proof of finality for the relay block with this number.
    FinalityProof(u32),
    /// The relay blocks after `from` and up to `to`, `to` included, in which
    /// the head of the parachain `para_id` changed, in ascending order.
    StorageChanges { para_id: u32, from: BlockHash, to: BlockHash },
    /// The head of the parachain `para_id` as the relay block `at` holds it.
    ParachainHead { para_id: u32, at: BlockHash },
    /// A storage proof of the head of the parachain `para_id` at the relay
    /// block `at`.
    StorageProof { para_id: u32, at: BlockHash },
    /// The timestamp extrinsic of the parachain block `at`, with the proof of
    /// its inclusion.
    TimestampExtrinsic { at: BlockHash },
}

/// What came back for something that the chain holds in encoded form.
#[derive(Debug, PartialEq, Eq)]
pub enum Lookup<T> {
    /// The chain does not have it.
    NotFound,
    /// The chain has it, and it does not decode.
    Malformed,
    /// The chain has it, and this is what it decodes to.
    Found(T),
}

/// An encoded justification proving that a header has been finalized.
#[derive(Debug, PartialEq, Eq)]
pub struct JustificationNotification(pub Vec<u8>);

impl View for JustificationNotification {
    type V = Seq<u8>;

    open spec fn view(&self) -> Seq<u8> {
        self.0@
    }
}

/// The bytes that were fetched, if any, as plain values.
pub open spec fn fetched_bytes(encoded: Option<Vec<u8>>) -> Option<Seq<u8>> {
    match encoded {
        Some(bytes) => Some(bytes@),
        None => None,
    }
}

/// The notification that was fetched, if any, as plain values.
pub open spec fn fetched_notification(
    notification: Option<JustificationNotification>,
) -> Option<Seq<u8>> {
    match notification {
        Some(bytes) => Some(bytes@),
        None => None,
    }
}

/// What a fetched header amounts to.
pub open spec fn header_lookup(encoded: Option<Seq<u8>>) -> Lookup<ChainHeaderView> {
    match encoded {
        None => Lookup::NotFound,
        Some(bytes) => match scale_decoded_header(bytes) {
            None => Lookup::Malformed,
            Some(header) => Lookup::Found(header),
        },
    }
}

/// What a fetched proof of finality amounts to: the hash of the block that it
/// is for, and the justification.
pub open spec fn justification_lookup(
    notification: Option<Seq<u8>>,
) -> Lookup<(BlockHash, Seq<u8>)> {
    match notification {
        None => Lookup::NotFound,
        Some(bytes) => match scale_decoded_finality_proof(bytes) {
            None => Lookup::Malformed,
            Some(parts) => Lookup::Found(parts),
        },
    }
}

/// A looked-up header, as plain values.
pub open spec fn header_lookup_view(lookup: Lookup<ChainHeader>) -> Lookup<ChainHeaderView> {
    match lookup {
        Lookup::NotFound => Lookup::NotFound,
        Lookup::Malformed => Lookup::Malformed,
        Lookup::Found(header) => Lookup::Found(header@),
    }
}

/// A looked-up finality proof, as plain values: the hash of its block and
/// its justification.
pub open spec fn justification_lookup_view(
    lookup: Lookup<FinalityProof>,
) -> Lookup<(BlockHash, Seq<u8>)> {
    match lookup {
        Lookup::NotFound => Lookup::NotFound,
        Lookup::Malformed => Lookup::Malformed,
        Lookup::Found(finality) => Lookup::Found((finality.block, finality.justification@)),
    }
}

/// A looked-up parachain head, as plain values.
pub open spec fn head_view(head: Option<ParachainHeader>) -> Option<ChainHeaderView> {
    match head {
        Some(header) => Some(header@),
        None => None,
    }
}

/// Decodes a fetched header.
pub fn lookup_header(encoded: Option<Vec<u8>>) -> (lookup: Lookup<ChainHeader>)
    ensures
        header_lookup_view(lookup) == header_lookup(fetched_bytes(encoded)),
        lookup matches Lookup::Found(header) ==> header.wf(),
{
    match encoded {
        None => Lookup::NotFound,
        Some(bytes) => match ChainHeader::decode(bytes.as_slice()) {
            None => Lookup::Malformed,
            Some(header) => Lookup::Found(header),
        },
    }
}

/// Decodes a fetched proof of finality.
pub fn lookup_justification(
    notification: Option<JustificationNotification>,
) -> (lookup: Lookup<FinalityProof>)
    ensures
        justification_lookup_view(lookup) == justification_lookup(
            fetched_notification(notification),
        ),
{
    match notification {
        None => Lookup::NotFound,
        Some(encoded) => match FinalityProof::decode(encoded.0.as_slice()) {
            None => Lookup::Malformed,
            Some(finality) => Lookup::Found(finality),
        },
    }
}

/// Assembles finality proofs for the parachain `para_id`.
#[derive(Clone, Copy, Debug, PartialEq, Eq)]
pub struct GrandpaProver {
    /// Identifier of the parachain whose heads are tracked.
    pub para_id: u32,
}

impl GrandpaProver {
    /// Starts a query for the finalized parachain headers between the given
    /// relay chain hashes: those committed after `previous_finalized_hash`
    /// and up to `latest_finalized_hash`.
    pub fn query_finalized_parachain_headers_between(
        &self,
        latest_finalized_hash: BlockHash,
        previous_finalized_hash: BlockHash,
    ) -> (query: HeadersQuery)
        ensures
            query@ == crate::headers_query::HeadersQueryView::start(
                self.para_id,
                latest_finalized_hash,
                previous_finalized_hash,
            ),
            query@.wf(),
    {
        HeadersQuery::start(self.para_id, latest_finalized_hash, previous_finalized_hash)
    }

    /// Starts a query for the finality proof of `latest_finalized_hash` over
    /// `previous_finalized_hash`, with the proofs of the parachain headers
    /// whose numbers are in `header_numbers`.
    pub fn query_finalized_parachain_headers_with_proof(
        &self,
        latest_finalized_hash: BlockHash,
        previous_finalized_hash: BlockHash,
        header_numbers: Vec<u32>,
    ) -> (query: ProofQuery)
        ensures
            query@ == crate::proof_query::ProofQueryView::start(
                self.para_id,
                latest_finalized_hash,
                previous_finalized_hash,
                header_numbers@,
            ),
            query@.wf(),
    {
        ProofQuery::start(
            self.para_id,
            latest_finalized_hash,
            previous_finalized_hash,
            header_numbers,
        )
    }
}

} // verus!
