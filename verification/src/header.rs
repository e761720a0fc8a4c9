//! The header that the light client consumes, and its conversion to and from
//! the wire.

use vstd::prelude::*;
use crate::bytes::byte_strings;
use crate::chain::{scale_decoded_header, ChainHeader, ChainHeaderView, RelayChainHeader};
use crate::error::{DecodeError, Error, RequiredField};
use crate::hash::BlockHash;
use crate::primitives::{
    header_views, BundleView, FinalityProof, FinalityProofView, ParachainHeaderProofs,
};
use crate::proto;
use crate::relay_map::{as_map, ascending, Entry, ParachainHeaderMap};

verus! {

/// Type URL of the GRANDPA header among the light client header messages.
pub const GRANDPA_HEADER_TYPE_URL: &'static str = "/ibc.lightclients.grandpa.v1.Header";

/// Parachain headers with a GRANDPA finality proof.
#[derive(Debug, PartialEq, Eq)]
pub struct Header {
    /// The finality proof: relay chain headers from the last known finalized
    /// block on.
    pub finality_proof: FinalityProof,
    /// Proofs of the parachain headers finalized at a relay chain block, by
    /// the hash of that block.
    pub parachain_headers: ParachainHeaderMap,
}

impl View for Header {
    type V = BundleView;

    open spec fn view(&self) -> BundleView {
        BundleView {
            finality_proof: self.finality_proof@,
            parachain_headers: self.parachain_headers@,
        }
    }
}

impl Clone for Header {
    fn clone(&self) -> (copy: Header)
        ensures
            copy@ == self@,
    {
        Header {
            finality_proof: self.finality_proof.clone(),
            parachain_headers: self.parachain_headers.clone(),
        }
    }
}

/// Why a wire entry cannot be taken over, if it cannot: its relay hash is
/// looked at first, then its proofs.
pub open spec fn entry_error(entry: proto::ParachainHeaderWithRelayHashView) -> Option<Error> {
    if entry.relay_hash.len() != 32 {
        Some(Error::Decode(DecodeError::HashLength(entry.relay_hash.len() as usize)))
    } else if entry.parachain_header is None {
        Some(Error::MissingRequiredField(RequiredField::ParachainHeader))
    } else {
        None
    }
}

/// The error of the first entry of `entries` that cannot be taken over.
pub open spec fn first_entry_error(
    entries: Seq<proto::ParachainHeaderWithRelayHashView>,
) -> Option<Error>
    decreases entries.len(),
{
    if entries.len() == 0 {
        None
    } else {
        match first_entry_error(entries.drop_last()) {
            Some(error) => Some(error),
            None => entry_error(entries.last()),
        }
    }
}

/// The wire entries as keys and values, in order.
pub open spec fn wire_entries(entries: Seq<proto::ParachainHeaderWithRelayHashView>) -> Seq<Entry> {
    Seq::new(entries.len(), |i: int| (entries[i].relay_hash, entries[i].parachain_header.unwrap()))
}

/// The in-memory header that the parts of a wire message make, with the
/// unknown headers already decoded (`None` where one did not decode), or the
/// error of the first defect: the block hash is looked at first, then the
/// parachain entries in order, then the unknown headers.
pub open spec fn assembled(
    block: Seq<u8>,
    justification: Seq<u8>,
    unknown_headers: Seq<Option<ChainHeaderView>>,
    parachain_headers: Seq<proto::ParachainHeaderWithRelayHashView>,
) -> Result<BundleView, Error> {
    if block.len() != 32 {
        Err(Error::Decode(DecodeError::HashLength(block.len() as usize)))
    } else if first_entry_error(parachain_headers) is Some {
        Err(first_entry_error(parachain_headers).unwrap())
    } else if exists|i: int|
        0 <= i < unknown_headers.len() && (#[trigger] unknown_headers[i]) is None {
        Err(Error::Decode(DecodeError::Header))
    } else {
        Ok(
            BundleView {
                finality_proof: FinalityProofView {
                    block,
                    justification,
                    unknown_headers: Seq::new(
                        unknown_headers.len(),
                        |i: int| unknown_headers[i].unwrap(),
                    ),
                },
                parachain_headers: as_map(wire_entries(parachain_headers)),
            },
        )
    }
}

/// What each of `headers` decodes to.
pub open spec fn decodings(headers: Seq<Seq<u8>>) -> Seq<Option<ChainHeaderView>> {
    Seq::new(headers.len(), |i: int| scale_decoded_header(headers[i]))
}

/// The in-memory header that a wire message stands for, or why it stands for
/// none.
pub open spec fn wire_to_header(raw: proto::HeaderView) -> Result<BundleView, Error> {
    match raw.finality_proof {
        None => Err(Error::MissingRequiredField(RequiredField::FinalityProof)),
        Some(finality) => assembled(
            finality.block,
            finality.justification,
            decodings(finality.unknown_headers),
            raw.parachain_headers,
        ),
    }
}

/// The wire message of an in-memory header: every hash as its 32 bytes, every
/// unknown header as its canonical encoding, the parachain entries in
/// ascending order of their relay hashes.
pub open spec fn header_to_wire(header: Header) -> proto::HeaderView {
    let entries = header.parachain_headers.entries();
    let headers = header.finality_proof@.unknown_headers;
    proto::HeaderView {
        finality_proof: Some(
            proto::FinalityProofView {
                block: header.finality_proof@.block,
                justification: header.finality_proof@.justification,
                unknown_headers: Seq::new(headers.len(), |i: int| headers[i].encoded),
            },
        ),
        parachain_headers: Seq::new(
            entries.len(),
            |i: int|
                proto::ParachainHeaderWithRelayHashView {
                    relay_hash: entries[i].0,
                    parachain_header: Some(entries[i].1),
                },
        ),
    }
}

/// The views of `headers`, `None` where there is no header.
pub open spec fn optional_header_views(
    headers: Seq<Option<RelayChainHeader>>,
) -> Seq<Option<ChainHeaderView>> {
    Seq::new(
        headers.len(),
        |i: int|
            match headers[i] {
                Some(header) => Some(header@),
                None => None,
            },
    )
}

/// Where the entries before `at` can all be taken over and the one at `at`
/// cannot, its error is the error of the list.
proof fn lemma_first_entry_error_at(entries: Seq<proto::ParachainHeaderWithRelayHashView>, at: int)
    requires
        0 <= at < entries.len(),
        first_entry_error(entries.take(at)) is None,
        entry_error(entries[at]) is Some,
    ensures
        first_entry_error(entries) == entry_error(entries[at]),
    decreases entries.len(),
{
    if at == entries.len() - 1 {
        assert(entries.take(at) =~= entries.drop_last());
    } else {
        assert(entries.drop_last().take(at) =~= entries.take(at));
        lemma_first_entry_error_at(entries.drop_last(), at);
    }
}

/// A list whose entries can all be taken over has no error.
proof fn lemma_no_entry_error(entries: Seq<proto::ParachainHeaderWithRelayHashView>)
    requires
        forall|i: int| 0 <= i < entries.len() ==> entry_error(#[trigger] entries[i]) is None,
    ensures
        first_entry_error(entries) is None,
    decreases entries.len(),
{
    if entries.len() > 0 {
        lemma_no_entry_error(entries.drop_last());
    }
}

/// A list with an entry that cannot be taken over has an error.
proof fn lemma_some_entry_error(entries: Seq<proto::ParachainHeaderWithRelayHashView>, at: int)
    requires
        0 <= at < entries.len(),
        entry_error(entries[at]) is Some,
    ensures
        first_entry_error(entries) is Some,
    decreases entries.len(),
{
    if at < entries.len() - 1 {
        lemma_some_entry_error(entries.drop_last(), at);
    }
}

impl Header {
    /// Every unknown header is the decoding of its own canonical encoding, and
    /// the parachain headers are in order.
    pub open spec fn wf(&self) -> bool {
        &&& self.parachain_headers.wf()
        &&& forall|i: int|
            0 <= i < self.finality_proof.unknown_headers@.len() ==> (
            #[trigger] self.finality_proof.unknown_headers@[i]).wf()
    }

    /// Builds the header from the parts of a wire message, the unknown
    /// headers already decoded.
    #[verifier::loop_isolation(false)]
    pub fn assemble(
        block: Vec<u8>,
        justification: Vec<u8>,
        unknown_headers: Vec<Option<RelayChainHeader>>,
        parachain_headers: Vec<proto::ParachainHeaderWithRelayHash>,
    ) -> (result: Result<Header, Error>)
        ensures
            match result {
                Ok(header) => assembled(
                    block@,
                    justification@,
                    optional_header_views(unknown_headers@),
                    proto::entry_views(parachain_headers@),
                ) == Ok::<BundleView, Error>(header@),
                Err(error) => assembled(
                    block@,
                    justification@,
                    optional_header_views(unknown_headers@),
                    proto::entry_views(parachain_headers@),
                ) == Err::<BundleView, Error>(error),
            },
            result matches Ok(header) ==> {
                &&& header.parachain_headers.wf()
                &&& header.finality_proof.unknown_headers@.len() == unknown_headers@.len()
                &&& forall|i: int|
                    0 <= i < unknown_headers@.len() ==> header.finality_proof.unknown_headers@[i]
                        == (#[trigger] unknown_headers@[i]).unwrap()
            },
    {
        let ghost wire = proto::entry_views(parachain_headers@);
        let ghost options = optional_header_views(unknown_headers@);
        if block.len() != 32 {
            return Err(Error::Decode(DecodeError::HashLength(block.len())));
        }
        let block_hash = BlockHash::from_slice(block.as_slice());
        let mut map = ParachainHeaderMap::new();
        for entry in it: parachain_headers
            invariant
                it.seq() == parachain_headers@,
                wire == proto::entry_views(parachain_headers@),
                first_entry_error(wire.take(it.index() as int)) is None,
                map@ == as_map(wire_entries(wire.take(it.index() as int))),
        {
            let ghost at = it.index() as int;
            assert(wire[at] == entry@);
            assert(wire.take(at + 1).drop_last() =~= wire.take(at));
            if entry.relay_hash.len() != 32 {
                proof {
                    lemma_first_entry_error_at(wire, at);
                }
                return Err(Error::Decode(DecodeError::HashLength(entry.relay_hash.len())));
            }
            let relay_hash = BlockHash::from_slice(entry.relay_hash.as_slice());
            match entry.parachain_header {
                None => {
                    proof {
                        lemma_first_entry_error_at(wire, at);
                    }
                    return Err(Error::MissingRequiredField(RequiredField::ParachainHeader));
                },
                Some(proofs) => {
                    let proofs = ParachainHeaderProofs {
                        state_proof: proofs.state_proof,
                        extrinsic: proofs.extrinsic,
                        extrinsic_proof: proofs.extrinsic_proof,
                    };
                    assert(wire_entries(wire.take(at + 1)).drop_last() =~= wire_entries(
                        wire.take(at),
                    ));
                    assert(wire_entries(wire.take(at + 1)).last() == (relay_hash@, proofs@));
                    map.insert(relay_hash, proofs);
                },
            }
        }
        assert(wire.take(wire.len() as int) =~= wire);
        let mut headers: Vec<RelayChainHeader> = Vec::new();
        for decoded in it: unknown_headers
            invariant
                it.seq() == unknown_headers@,
                options == optional_header_views(unknown_headers@),
                headers@.len() == it.index(),
                forall|j: int|
                    0 <= j < it.index() ==> (#[trigger] unknown_headers@[j]) is Some
                        && headers@[j] == unknown_headers@[j].unwrap(),
        {
            match decoded {
                None => {
                    assert(options[it.index() as int] is None);
                    return Err(Error::Decode(DecodeError::Header));
                },
                Some(header) => {
                    headers.push(header);
                },
            }
        }
        proof {
            use_type_invariant(&map);
        }
        let header = Header {
            finality_proof: FinalityProof {
                block: block_hash,
                justification,
                unknown_headers: headers,
            },
            parachain_headers: map,
        };
        proof {
            assert forall|i: int| 0 <= i < options.len() implies !(
            (#[trigger] options[i]) is None) by {
                assert(unknown_headers@[i] is Some);
            }
            assert(header@.finality_proof.unknown_headers =~= Seq::new(
                options.len(),
                |i: int| options[i].unwrap(),
            )) by {
                assert forall|i: int| 0 <= i < options.len() implies header_views(headers@)[i]
                    == options[i].unwrap() by {
                    assert(unknown_headers@[i] is Some);
                }
            }
        }
        Ok(header)
    }

    /// Converts a wire message into the header it stands for.
    ///
    /// The finality proof must be present and its block hash 32 bytes long;
    /// every parachain entry must have a relay hash of 32 bytes and its
    /// proofs; every unknown header must decode. The first defect, in this
    /// order, is the error. Of two entries with one relay hash the later one
    /// stays.
    pub fn try_from(raw: proto::Header) -> (result: Result<Header, Error>)
        ensures
            match result {
                Ok(header) => wire_to_header(raw@) == Ok::<BundleView, Error>(header@)
                    && header.wf(),
                Err(error) => wire_to_header(raw@) == Err::<BundleView, Error>(error),
            },
    {
        let proto::Header { finality_proof, parachain_headers } = raw;
        let finality = match finality_proof {
            None => {
                return Err(Error::MissingRequiredField(RequiredField::FinalityProof));
            },
            Some(finality) => finality,
        };
        let proto::FinalityProof { block, justification, unknown_headers } = finality;
        let mut decoded: Vec<Option<RelayChainHeader>> = Vec::new();
        let mut i: usize = 0;
        while i < unknown_headers.len()
            invariant
                i <= unknown_headers@.len(),
                decoded@.len() == i,
                forall|j: int|
                    0 <= j < i ==> match #[trigger] decoded@[j] {
                        Some(header) => scale_decoded_header(unknown_headers@[j]@) == Some(header@)
                            && header.wf(),
                        None => scale_decoded_header(unknown_headers@[j]@) is None,
                    },
            decreases unknown_headers@.len() - i,
        {
            decoded.push(ChainHeader::decode(unknown_headers[i].as_slice()));
            i = i + 1;
        }
        assert(optional_header_views(decoded@) =~= decodings(byte_strings(unknown_headers@)));
        let result = Header::assemble(block, justification, decoded, parachain_headers);
        proof {
            if result is Ok {
                let header = result->Ok_0;
                assert forall|i: int|
                    0 <= i < header.finality_proof.unknown_headers@.len() implies (
                #[trigger] header.finality_proof.unknown_headers@[i]).wf() by {
                    assert(!(optional_header_views(decoded@)[i] is None));
                }
            }
        }
        result
    }
}

impl proto::Header {
    /// Converts a header into its wire message. This never fails.
    pub fn from(header: Header) -> (raw: proto::Header)
        ensures
            raw@ == header_to_wire(header),
    {
        let ghost entries = header.parachain_headers.entries();
        let ghost views = header.finality_proof@.unknown_headers;
        let Header { finality_proof, parachain_headers } = header;
        let FinalityProof { block, justification, unknown_headers } = finality_proof;
        let mut encoded: Vec<Vec<u8>> = Vec::new();
        for relay_header in it: unknown_headers
            invariant
                it.seq() == unknown_headers@,
                encoded@.len() == it.index(),
                forall|j: int|
                    0 <= j < it.index() ==> (#[trigger] encoded@[j])@
                        == unknown_headers@[j]@.encoded,
        {
            encoded.push(relay_header.into_encoded());
        }
        let mut list: Vec<proto::ParachainHeaderWithRelayHash> = Vec::new();
        let pairs = parachain_headers.into_entries();
        for pair in it: pairs
            invariant
                it.seq() == pairs@,
                list@.len() == it.index(),
                forall|j: int|
                    0 <= j < it.index() ==> (#[trigger] list@[j])@
                        == (proto::ParachainHeaderWithRelayHashView {
                        relay_hash: pairs@[j].0@,
                        parachain_header: Some(pairs@[j].1@),
                    }),
        {
            let (relay_hash, proofs) = pair;
            list.push(
                proto::ParachainHeaderWithRelayHash {
                    relay_hash: relay_hash.to_vec(),
                    parachain_header: Some(
                        proto::ParachainHeaderProofs {
                            state_proof: proofs.state_proof,
                            extrinsic: proofs.extrinsic,
                            extrinsic_proof: proofs.extrinsic_proof,
                        },
                    ),
                },
            );
        }
        let raw = proto::Header {
            finality_proof: Some(
                proto::FinalityProof {
                    block: block.to_vec(),
                    justification,
                    unknown_headers: encoded,
                },
            ),
            parachain_headers: list,
        };
        proof {
            let wire = header_to_wire(header);
            assert(raw@.parachain_headers =~= wire.parachain_headers);
            assert(raw@.finality_proof.unwrap().unknown_headers
                =~= wire.finality_proof.unwrap().unknown_headers);
        }
        raw
    }
}

/// A header that is converted to its wire message and back is the same
/// header again, in every field.
pub proof fn lemma_wire_round_trip(header: Header)
    requires
        header.wf(),
    ensures
        wire_to_header(header_to_wire(header)) == Ok::<BundleView, Error>(header@),
{
    let raw = header_to_wire(header);
    let finality = raw.finality_proof.unwrap();
    let entries = header.parachain_headers.entries();
    let headers = header.finality_proof@.unknown_headers;
    header.parachain_headers.lemma_entries_ascending();
    assert forall|i: int| 0 <= i < raw.parachain_headers.len() implies entry_error(
        #[trigger] raw.parachain_headers[i],
    ) is None by {
        assert(entries[i].0.len() == 32);
    }
    lemma_no_entry_error(raw.parachain_headers);
    assert(wire_entries(raw.parachain_headers) =~= entries);
    let decoded = decodings(finality.unknown_headers);
    assert forall|i: int| 0 <= i < decoded.len() implies (#[trigger] decoded[i]) == Some(
        headers[i],
    ) by {
        assert(header.finality_proof.unknown_headers@[i].wf());
    }
    assert(Seq::new(decoded.len(), |i: int| decoded[i].unwrap()) =~= headers);
}

/// A wire message with a block hash or a relay hash that is not 32 bytes long
/// stands for no header: the conversion fails, and nothing is built.
pub proof fn lemma_hash_length_rejected(raw: proto::HeaderView)
    requires
        (raw.finality_proof is Some && raw.finality_proof.unwrap().block.len() != 32) || exists|
            i: int,
        |
            0 <= i < raw.parachain_headers.len() && (
            #[trigger] raw.parachain_headers[i]).relay_hash.len() != 32,
    ensures
        wire_to_header(raw) is Err,
{
    if raw.finality_proof is Some && raw.finality_proof.unwrap().block.len() == 32 {
        let i = choose|i: int|
            0 <= i < raw.parachain_headers.len() && (
            #[trigger] raw.parachain_headers[i]).relay_hash.len() != 32;
        lemma_some_entry_error(raw.parachain_headers, i);
    }
}

/// Where a hash of the wrong length is the first defect of a wire message,
/// the conversion fails with a decode error that names a length other than
/// 32: the finality proof is present, and either its block hash has the wrong
/// length, or some relay hash has and no entry before it lacks its proofs.
pub proof fn lemma_hash_length_is_decode_error(raw: proto::Header)
    requires
        raw.finality_proof is Some,
        raw.finality_proof.unwrap().block@.len() != 32 || exists|i: int|
            {
                &&& 0 <= i < raw.parachain_headers@.len()
                &&& (#[trigger] raw.parachain_headers@[i]).relay_hash@.len() != 32
                &&& forall|j: int|
                    0 <= j < i ==> (#[trigger] raw.parachain_headers@[j]).parachain_header is Some
            },
    ensures
        wire_to_header(raw@) matches Err(Error::Decode(DecodeError::HashLength(length))) && length
            != 32,
{
    let block = raw.finality_proof.unwrap().block;
    assert(block.len() == block@.len());
    if block@.len() == 32 {
        let list = raw.parachain_headers@;
        let entries = raw@.parachain_headers;
        let i = choose|i: int|
            {
                &&& 0 <= i < list.len()
                &&& (#[trigger] list[i]).relay_hash@.len() != 32
                &&& forall|j: int| 0 <= j < i ==> (#[trigger] list[j]).parachain_header is Some
            };
        assert forall|j: int| 0 <= j < entries.len() implies (
        #[trigger] entries[j]).relay_hash.len() <= usize::MAX by {
            assert(list[j].relay_hash.len() == list[j].relay_hash@.len());
        }
        assert forall|j: int| 0 <= j < i implies (
        #[trigger] entries[j]).parachain_header is Some by {
            assert(list[j].parachain_header is Some);
        }
        assert(entries[i].relay_hash == list[i].relay_hash@);
        lemma_first_defect_is_hash_length(entries, i);
    }
}

/// In a list with a relay hash of the wrong length at `at` and no entry
/// before it without proofs, the error of the list is a hash length other
/// than 32.
proof fn lemma_first_defect_is_hash_length(
    entries: Seq<proto::ParachainHeaderWithRelayHashView>,
    at: int,
)
    requires
        0 <= at < entries.len(),
        entries[at].relay_hash.len() != 32,
        forall|j: int| 0 <= j < at ==> (#[trigger] entries[j]).parachain_header is Some,
        forall|j: int|
            0 <= j < entries.len() ==> (#[trigger] entries[j]).relay_hash.len() <= usize::MAX,
    ensures
        first_entry_error(entries) matches Some(Error::Decode(DecodeError::HashLength(length)))
            && length != 32,
    decreases entries.len(),
{
    let front = entries.drop_last();
    if at < entries.len() - 1 {
        lemma_first_defect_is_hash_length(front, at);
    } else if first_entry_error(front) is Some {
        lemma_front_defect_is_hash_length(front);
    }
}

/// In a list where every entry has its proofs, an error is a hash length
/// other than 32.
proof fn lemma_front_defect_is_hash_length(entries: Seq<proto::ParachainHeaderWithRelayHashView>)
    requires
        forall|j: int| 0 <= j < entries.len() ==> (#[trigger] entries[j]).parachain_header is Some,
        forall|j: int|
            0 <= j < entries.len() ==> (#[trigger] entries[j]).relay_hash.len() <= usize::MAX,
        first_entry_error(entries) is Some,
    ensures
        first_entry_error(entries) matches Some(Error::Decode(DecodeError::HashLength(length)))
            && length != 32,
    decreases entries.len(),
{
    let front = entries.drop_last();
    if first_entry_error(front) is Some {
        lemma_front_defect_is_hash_length(front);
    } else {
        assert(entries[entries.len() - 1].parachain_header is Some);
    }
}

} // verus!
