//! Block headers as the chain encodes them.

use vstd::prelude::*;
use parity_scale_codec::{Decode, Encode};
use sp_runtime::generic::Header as SubstrateHeader;
use sp_runtime::traits::BlakeTwo256;
use crate::hash::BlockHash;

verus! {

/// What a block header is, as plain values.
pub struct ChainHeaderView {
    /// The canonical encoding of the header.
    pub encoded: Seq<u8>,
    /// Hash of the parent block.
    pub parent_hash: BlockHash,
    /// Block number.
    pub number: u32,
    /// Root of the state trie.
    pub state_root: BlockHash,
    /// Root of the extrinsics trie.
    pub extrinsics_root: BlockHash,
    /// Hash of the header itself.
    pub hash: BlockHash,
}

/// A decoded block header with 32-bit numbers and Blake2-256 hashes. The digest
/// stays opaque inside the canonical encoding that the header carries along.
#[derive(Debug, PartialEq, Eq)]
pub struct ChainHeader {
    encoded: Vec<u8>,
    parent_hash: BlockHash,
    number: u32,
    state_root: BlockHash,
    extrinsics_root: BlockHash,
    hash: BlockHash,
}

/// A header of the relay chain.
pub type RelayChainHeader = ChainHeader;

/// A header of the parachain, as committed into relay chain state.
pub type ParachainHeader = ChainHeader;

/// The header that `bytes` decode to in the SCALE codec, described by its
/// fields, its canonical encoding and its hash; `None` where they do not decode.
pub uninterp spec fn scale_decoded_header(bytes: Seq<u8>) -> Option<ChainHeaderView>;

/// Decodes `bytes` with `Header::<u32, BlakeTwo256>::decode` of `sp_runtime`
/// (trailing bytes are ignored, as that decoder does) and describes the header
/// it yields: the four fields read off the decoded value, `Encode::encode` of it
/// and `Header::hash` of it.
///
/// Trusted: the outcome is the named decoding of `bytes`, and a header that was
/// decoded is well formed, that is, decoding its canonical encoding yields the
/// same header again. The latter is the codec's round trip: `decode` inverts
/// `encode`.
#[verifier::external_body]
fn decode_header(bytes: &[u8]) -> (decoded: Option<ChainHeader>)
    ensures
        match decoded {
            Some(header) => scale_decoded_header(bytes@) == Some(header@) && header.wf(),
            None => scale_decoded_header(bytes@) is None,
        },
{
    match SubstrateHeader::<u32, BlakeTwo256>::decode(&mut &bytes[..]) {
        Ok(h) => Some(ChainHeader {
            encoded: h.encode(),
            parent_hash: BlockHash(h.parent_hash.0),
            number: h.number,
            state_root: BlockHash(h.state_root.0),
            extrinsics_root: BlockHash(h.extrinsics_root.0),
            hash: BlockHash(h.hash().0),
        }),
        Err(_) => None,
    }
}

impl View for ChainHeader {
    type V = ChainHeaderView;

    closed spec fn view(&self) -> ChainHeaderView {
        ChainHeaderView {
            encoded: self.encoded@,
            parent_hash: self.parent_hash,
            number: self.number,
            state_root: self.state_root,
            extrinsics_root: self.extrinsics_root,
            hash: self.hash,
        }
    }
}

impl ChainHeaderView {
    /// The header is the decoding of its own canonical encoding.
    pub open spec fn wf(self) -> bool {
        scale_decoded_header(self.encoded) == Some(self)
    }
}

impl ChainHeader {
    /// The header is the decoding of its own canonical encoding.
    pub open spec fn wf(&self) -> bool {
        self@.wf()
    }

    /// Decodes a header from the front of `bytes`.
    pub fn decode(bytes: &[u8]) -> (decoded: Option<ChainHeader>)
        ensures
            match decoded {
                Some(header) => scale_decoded_header(bytes@) == Some(header@) && header.wf(),
                None => scale_decoded_header(bytes@) is None,
            },
    {
        decode_header(bytes)
    }

    /// The canonical encoding of the header.
    pub fn encode(&self) -> (bytes: Vec<u8>)
        ensures
            bytes@ == self@.encoded,
    {
        self.encoded.clone()
    }

    /// The canonical encoding of the header, taken out of it.
    pub fn into_encoded(self) -> (bytes: Vec<u8>)
        ensures
            bytes@ == self@.encoded,
    {
        self.encoded
    }

    /// Hash of the parent block.
    pub fn parent_hash(&self) -> (hash: BlockHash)
        ensures
            hash == self@.parent_hash,
    {
        self.parent_hash
    }

    /// Block number.
    pub fn number(&self) -> (number: u32)
        ensures
            number == self@.number,
    {
        self.number
    }

    /// Root of the state trie.
    pub fn state_root(&self) -> (root: BlockHash)
        ensures
            root == self@.state_root,
    {
        self.state_root
    }

    /// Root of the extrinsics trie.
    pub fn extrinsics_root(&self) -> (root: BlockHash)
        ensures
            root == self@.extrinsics_root,
    {
        self.extrinsics_root
    }

    /// Hash of the header.
    pub fn hash(&self) -> (hash: BlockHash)
        ensures
            hash == self@.hash,
    {
        self.hash
    }
}

impl Clone for ChainHeader {
    fn clone(&self) -> (copy: ChainHeader)
        ensures
            copy@ == self@,
    {
        ChainHeader {
            encoded: self.encoded.clone(),
            parent_hash: self.parent_hash,
            number: self.number,
            state_root: self.state_root,
            extrinsics_root: self.extrinsics_root,
            hash: self.hash,
        }
    }
}

} // verus!
