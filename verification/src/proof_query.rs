//! The query for parachain headers with their finality proof.
//!
//! The query goes through three passes. It fetches the header of the latest
//! finalized relay block and a proof of its finality. It walks the parents of
//! that header back to the previously finalized block. It scans the relay
//! blocks in which the parachain head changed, and collects proofs for the
//! parachain headers that were asked for.

use vstd::prelude::*;
use crate::bytes::byte_strings;
use crate::chain::{ChainHeaderView, ParachainHeader, RelayChainHeader};
use crate::error::{DecodeError, Error, NotFound};
use crate::hash::BlockHash;
use crate::primitives::{
    header_views, links_back_to, BundleView, FinalityProof, FinalityProofView,
    ParachainHeaderProofs, ParachainHeaderProofsView, ParachainHeadersWithFinalityProof,
};
use crate::prover::{
    fetched_bytes, fetched_notification, head_view, header_lookup, header_lookup_view,
    justification_lookup, justification_lookup_view, lookup_header, lookup_justification,
    JustificationNotification, Lookup, Request,
};
use crate::relay_map::ParachainHeaderMap;

verus! {

/// Where a query stands: what it waits for.
#[derive(Clone, Copy, Debug, PartialEq, Eq)]
pub enum Stage {
    /// The header of the latest finalized relay block.
    Latest,
    /// A proof of finality for that block.
    Justification,
    /// The parent of the last unknown header.
    Ancestor,
    /// The relay blocks in which the parachain head changed.
    Changes,
    /// The header of the relay block under scan.
    ChangedHeader,
    /// The parachain head committed in the relay block under scan.
    Head,
    /// A storage proof of that head.
    StateProof,
    /// The timestamp extrinsic of the parachain block, with its proof.
    Extrinsic,
    /// Nothing: the bundle is complete.
    Done,
}

/// The state of a query, as plain values.
pub struct ProofQueryView {
    /// Identifier of the parachain.
    pub para_id: u32,
    /// Hash of the latest finalized relay block.
    pub latest: BlockHash,
    /// Hash of the relay block that was finalized before.
    pub previous: BlockHash,
    /// Numbers of the parachain headers that proofs are wanted for.
    pub targets: Seq<u32>,
    /// What the query waits for.
    pub stage: Stage,
    /// Hash of the block that the justification is for.
    pub block: BlockHash,
    /// The justification.
    pub justification: Seq<u8>,
    /// The relay headers walked so far, from the latest finalized one backward.
    pub unknown_headers: Seq<ChainHeaderView>,
    /// How many more parents the walk may fetch.
    pub budget: u32,
    /// The relay blocks in which the parachain head changed.
    pub changes: Seq<BlockHash>,
    /// Position in `changes` of the relay block under scan.
    pub index: int,
    /// Hash of the parachain header that proofs are being fetched for.
    pub parachain_block: BlockHash,
    /// The storage proof fetched for that header.
    pub state_proof: Seq<Seq<u8>>,
    /// The proofs collected so far, by relay block hash.
    pub parachain_headers: Map<Seq<u8>, ParachainHeaderProofsView>,
    /// For each relay block whose parachain head was looked at so far, in
    /// order: its hash, and the number of the parachain header committed in it.
    pub heads: Seq<(BlockHash, u32)>,
}

/// Each header is the parent of the one before it.
pub open spec fn chained(headers: Seq<ChainHeaderView>) -> bool {
    forall|i: int|
        0 <= i < headers.len() - 1 ==> (#[trigger] headers[i]).parent_hash == headers[i + 1].hash
}

/// No header but the last is a child of the block `previous`.
pub open spec fn short_of(headers: Seq<ChainHeaderView>, previous: BlockHash) -> bool {
    forall|i: int| 0 <= i < headers.len() - 1 ==> (#[trigger] headers[i]).parent_hash != previous
}

impl ProofQueryView {
    /// The state in which a query starts.
    pub open spec fn start(
        para_id: u32,
        latest: BlockHash,
        previous: BlockHash,
        targets: Seq<u32>,
    ) -> ProofQueryView {
        ProofQueryView {
            para_id,
            latest,
            previous,
            targets,
            stage: Stage::Latest,
            block: latest,
            justification: Seq::empty(),
            unknown_headers: Seq::empty(),
            budget: 0,
            changes: Seq::empty(),
            index: 0,
            parachain_block: latest,
            state_proof: Seq::empty(),
            parachain_headers: Map::empty(),
            heads: Seq::empty(),
        }
    }

    /// Proofs are wanted for the parachain header with this number: it is
    /// not the genesis header, and it was asked for.
    pub open spec fn wanted(self, number: u32) -> bool {
        number != 0 && self.targets.contains(number)
    }

    /// The walk to the previously finalized block is over.
    pub open spec fn walked(self) -> bool {
        !(self.stage is Latest || self.stage is Justification || self.stage is Ancestor)
    }

    /// A relay block is under scan.
    pub open spec fn scanning(self) -> bool {
        self.stage is ChangedHeader || self.stage is Head || self.stage is StateProof
            || self.stage is Extrinsic
    }

    /// Proofs are being fetched for the parachain header of the relay block
    /// under scan.
    pub open spec fn proving(self) -> bool {
        self.stage is StateProof || self.stage is Extrinsic
    }

    /// What holds of every state that a query goes through.
    pub open spec fn wf(self) -> bool {
        &&& self.stage is Latest ==> self.unknown_headers.len() == 0
        &&& !(self.stage is Latest) ==> {
            &&& self.unknown_headers.len() > 0
            &&& self.unknown_headers[0].hash == self.latest
            &&& chained(self.unknown_headers)
            &&& short_of(self.unknown_headers, self.previous)
        }
        &&& self.walked() ==> self.unknown_headers.last().parent_hash == self.previous
        &&& self.stage is Ancestor ==> self.unknown_headers.last().parent_hash != self.previous
        &&& self.stage is Justification ==> self.unknown_headers.len() == 1
        &&& self.stage is Ancestor ==> self.budget + self.unknown_headers.len()
            == self.unknown_headers[0].number
        &&& 0 <= self.index <= self.changes.len()
        &&& !self.walked() || self.stage is Changes ==> self.index == 0
        &&& self.scanning() ==> self.index < self.changes.len()
        &&& self.stage is Done ==> self.index == self.changes.len()
        &&& self.heads.len() == self.index + (if self.proving() {
            1int
        } else {
            0int
        })
        &&& forall|i: int|
            0 <= i < self.heads.len() ==> (#[trigger] self.heads[i]).0 == self.changes[i]
        &&& self.proving() ==> self.wanted(self.heads.last().1)
        &&& forall|key: Seq<u8>| #[trigger]
            self.parachain_headers.contains_key(key) ==> self.collected(key)
        &&& forall|i: int|
            0 <= i < self.index && self.wanted((#[trigger] self.heads[i]).1)
                ==> self.parachain_headers.contains_key(self.heads[i].0@)
    }

    /// Proofs were collected under `key` for a wanted parachain header: some
    /// relay block that has been scanned has the hash `key`, and the number of
    /// the parachain header committed in it is wanted.
    pub open spec fn collected(self, key: Seq<u8>) -> bool {
        exists|i: int|
            0 <= i < self.index && (#[trigger] self.heads[i]).0@ == key && self.wanted(
                self.heads[i].1,
            )
    }

    /// What the query asks for next; `None` when the bundle is complete.
    pub open spec fn request(self) -> Option<Request> {
        match self.stage {
            Stage::Latest => Some(Request::Header(self.latest)),
            Stage::Justification => Some(Request::FinalityProof(self.unknown_headers[0].number)),
            Stage::Ancestor => Some(Request::Header(self.unknown_headers.last().parent_hash)),
            Stage::Changes => Some(
                Request::StorageChanges {
                    para_id: self.para_id,
                    from: self.previous,
                    to: self.latest,
                },
            ),
            Stage::ChangedHeader => Some(Request::Header(self.changes[self.index])),
            Stage::Head => Some(
                Request::ParachainHead { para_id: self.para_id, at: self.changes[self.index] },
            ),
            Stage::StateProof => Some(
                Request::StorageProof { para_id: self.para_id, at: self.changes[self.index] },
            ),
            Stage::Extrinsic => Some(Request::TimestampExtrinsic { at: self.parachain_block }),
            Stage::Done => None,
        }
    }

    /// The state after the last unknown header was added: the walk is over if
    /// that header is a child of the previously finalized block; it fails if
    /// no more parents may be fetched; else the parent is fetched next.
    pub open spec fn walk(self) -> Result<ProofQueryView, Error> {
        let parent = self.unknown_headers.last().parent_hash;
        if parent == self.previous {
            Ok(ProofQueryView { stage: Stage::Changes, ..self })
        } else if self.budget == 0 {
            Err(Error::ChainDiscontinuity(parent))
        } else {
            Ok(ProofQueryView { stage: Stage::Ancestor, budget: (self.budget - 1) as u32, ..self })
        }
    }

    /// The state once the relay block at `index` is to be scanned: the scan
    /// is over if there is no such block.
    pub open spec fn scan(self, index: int) -> ProofQueryView {
        ProofQueryView {
            stage: if index < self.changes.len() {
                Stage::ChangedHeader
            } else {
                Stage::Done
            },
            index,
            ..self
        }
    }

    /// The state after a relay header came back, or why the query fails.
    ///
    /// A header is taken only if its hash is the one that was asked for. The
    /// header of the latest finalized block becomes the first unknown header.
    /// A parent becomes the next unknown header, and the walk goes on from
    /// it; a parent that cannot be had breaks the chain. The header of a
    /// relay block under scan lets the scan go on to its parachain head. In
    /// any other stage nothing changes.
    pub open spec fn with_header(
        self,
        header: Lookup<ChainHeaderView>,
    ) -> Result<ProofQueryView, Error> {
        match self.stage {
            Stage::Latest => match header {
                Lookup::NotFound => Err(Error::NotFound(NotFound::Header(self.latest))),
                Lookup::Malformed => Err(Error::Decode(DecodeError::Header)),
                Lookup::Found(found) => if found.hash == self.latest {
                    Ok(
                        ProofQueryView {
                            stage: Stage::Justification,
                            unknown_headers: seq![found],
                            ..self
                        },
                    )
                } else {
                    Err(Error::NotFound(NotFound::Header(self.latest)))
                },
            },
            Stage::Ancestor => {
                let parent = self.unknown_headers.last().parent_hash;
                match header {
                    Lookup::NotFound => Err(Error::ChainDiscontinuity(parent)),
                    Lookup::Malformed => Err(Error::Decode(DecodeError::Header)),
                    Lookup::Found(found) => if found.hash == parent {
                        ProofQueryView {
                            unknown_headers: self.unknown_headers.push(found),
                            ..self
                        }.walk()
                    } else {
                        Err(Error::ChainDiscontinuity(parent))
                    },
                }
            },
            Stage::ChangedHeader => {
                let block = self.changes[self.index];
                match header {
                    Lookup::NotFound => Err(Error::NotFound(NotFound::Header(block))),
                    Lookup::Malformed => Err(Error::Decode(DecodeError::Header)),
                    Lookup::Found(found) => if found.hash == block {
                        Ok(ProofQueryView { stage: Stage::Head, ..self })
                    } else {
                        Err(Error::NotFound(NotFound::Header(block)))
                    },
                }
            },
            _ => Ok(self),
        }
    }

    /// The state after a proof of finality came back, or why the query
    /// fails. The walk starts from the header of the latest finalized block,
    /// and may fetch as many parents as that block has ancestors by its
    /// number. In any other stage than `Justification` nothing changes.
    pub open spec fn with_justification(
        self,
        finality: Lookup<(BlockHash, Seq<u8>)>,
    ) -> Result<ProofQueryView, Error> {
        if !(self.stage is Justification) {
            Ok(self)
        } else {
            match finality {
                Lookup::NotFound => Err(
                    Error::NotFound(NotFound::Justification(self.unknown_headers[0].number)),
                ),
                Lookup::Malformed => Err(Error::Decode(DecodeError::FinalityProof)),
                Lookup::Found(parts) => ProofQueryView {
                    block: parts.0,
                    justification: parts.1,
                    budget: self.unknown_headers[0].number,
                    ..self
                }.walk(),
            }
        }
    }

    /// The state after the changed relay blocks came back: the scan starts
    /// with the first of them. In any other stage than `Changes` nothing
    /// changes.
    pub open spec fn with_storage_changes(self, blocks: Seq<BlockHash>) -> ProofQueryView {
        if !(self.stage is Changes) {
            self
        } else {
            ProofQueryView { changes: blocks, ..self }.scan(0)
        }
    }

    /// The state after the parachain head of the relay block under scan came
    /// back, `None` where it did not decode, or why the query fails. The head
    /// is noted. Where its number is wanted a storage proof is fetched next;
    /// else the scan goes on with the next relay block. In any other stage
    /// than `Head` nothing changes.
    pub open spec fn with_parachain_head(
        self,
        head: Option<ChainHeaderView>,
    ) -> Result<ProofQueryView, Error> {
        if !(self.stage is Head) {
            Ok(self)
        } else {
            match head {
                None => Err(Error::Decode(DecodeError::Header)),
                Some(header) => {
                    let noted = ProofQueryView {
                        heads: self.heads.push((self.changes[self.index], header.number)),
                        ..self
                    };
                    if self.wanted(header.number) {
                        Ok(
                            ProofQueryView {
                                stage: Stage::StateProof,
                                parachain_block: header.hash,
                                ..noted
                            },
                        )
                    } else {
                        Ok(noted.scan(self.index + 1))
                    }
                },
            }
        }
    }

    /// The state after the storage proof came back: the timestamp extrinsic
    /// is fetched next. In any other stage than `StateProof` nothing changes.
    pub open spec fn with_storage_proof(self, nodes: Seq<Seq<u8>>) -> ProofQueryView {
        if !(self.stage is StateProof) {
            self
        } else {
            ProofQueryView { stage: Stage::Extrinsic, state_proof: nodes, ..self }
        }
    }

    /// The state after the timestamp extrinsic came back: the proofs go into
    /// the bundle under the hash of the relay block under scan, in place of
    /// what was there, and the scan goes on with the next relay block. In any
    /// other stage than `Extrinsic` nothing changes.
    pub open spec fn with_timestamp_extrinsic(
        self,
        extrinsic: Seq<u8>,
        extrinsic_proof: Seq<Seq<u8>>,
    ) -> ProofQueryView {
        if !(self.stage is Extrinsic) {
            self
        } else {
            ProofQueryView {
                parachain_headers: self.parachain_headers.insert(
                    self.changes[self.index]@,
                    ParachainHeaderProofsView {
                        state_proof: self.state_proof,
                        extrinsic,
                        extrinsic_proof,
                    },
                ),
                state_proof: Seq::empty(),
                ..self
            }.scan(self.index + 1)
        }
    }

    /// The bundle of a query that is done.
    pub open spec fn bundle(self) -> BundleView {
        BundleView {
            finality_proof: FinalityProofView {
                block: self.block@,
                justification: self.justification,
                unknown_headers: self.unknown_headers,
            },
            parachain_headers: self.parachain_headers,
        }
    }
}

impl ProofQueryView {
    /// The clauses of `wf` that speak of the scan hold of `next` where they
    /// hold of `self` and the scan is where it was.
    proof fn lemma_same_scan(self, next: ProofQueryView)
        requires
            self.wf(),
            next.targets == self.targets,
            next.changes == self.changes,
            next.index == self.index,
            next.parachain_headers == self.parachain_headers,
            next.heads == self.heads,
            next.proving() == self.proving(),
        ensures
            next.heads.len() == next.index + (if next.proving() {
                1int
            } else {
                0int
            }),
            forall|i: int|
                0 <= i < next.heads.len() ==> (#[trigger] next.heads[i]).0 == next.changes[i],
            next.proving() ==> next.wanted(next.heads.last().1),
            forall|key: Seq<u8>| #[trigger]
                next.parachain_headers.contains_key(key) ==> next.collected(key),
            forall|i: int|
                0 <= i < next.index && next.wanted((#[trigger] next.heads[i]).1)
                    ==> next.parachain_headers.contains_key(next.heads[i].0@),
    {
        assert forall|key: Seq<u8>| #[trigger]
            next.parachain_headers.contains_key(key) implies next.collected(key) by {
            assert(self.collected(key));
        }
        assert forall|i: int|
            0 <= i < next.index && next.wanted(
                (#[trigger] next.heads[i]).1,
            ) implies next.parachain_headers.contains_key(next.heads[i].0@) by {
            assert(self.wanted(self.heads[i].1));
        }
        if next.proving() {
            assert(self.wanted(self.heads.last().1));
        }
    }

    /// No relay block has been scanned yet, and no proofs are held.
    pub open spec fn before_scan(self) -> bool {
        &&& self.index == 0
        &&& self.heads.len() == 0
        &&& forall|key: Seq<u8>| !(#[trigger] self.parachain_headers.contains_key(key))
    }

    /// A well-formed state in which the walk is not over is before the scan.
    proof fn lemma_before_scan(self)
        requires
            self.wf(),
            !self.walked(),
        ensures
            self.before_scan(),
    {
        assert forall|key: Seq<u8>| !(#[trigger] self.parachain_headers.contains_key(key)) by {
            if self.parachain_headers.contains_key(key) {
                assert(self.collected(key));
            }
        }
    }

    /// Going on from the last unknown header leaves the state well formed,
    /// where the headers held and the parents that may still be fetched are
    /// together one more than the number of the latest block.
    proof fn lemma_walk_keeps_wf(self)
        requires
            self.before_scan(),
            self.unknown_headers.len() > 0,
            chained(self.unknown_headers),
            short_of(self.unknown_headers, self.previous),
            self.unknown_headers[0].hash == self.latest,
            self.budget + self.unknown_headers.len() == self.unknown_headers[0].number + 1,
        ensures
            self.walk() matches Ok(next) ==> next.wf(),
    {
    }

    /// Taking a header keeps the state well formed.
    pub proof fn lemma_with_header_keeps_wf(self, header: Lookup<ChainHeaderView>)
        requires
            self.wf(),
        ensures
            self.with_header(header) matches Ok(next) ==> next.wf(),
    {
        if self.with_header(header) is Ok {
            let next = self.with_header(header)->Ok_0;
            if self.stage is Ancestor {
                let found = header->Found_0;
                let grown = ProofQueryView {
                    unknown_headers: self.unknown_headers.push(found),
                    ..self
                };
                self.lemma_before_scan();
                assert(short_of(grown.unknown_headers, grown.previous)) by {
                    assert forall|i: int| 0 <= i < grown.unknown_headers.len() - 1 implies (
                    #[trigger] grown.unknown_headers[i]).parent_hash != grown.previous by {
                        if i < self.unknown_headers.len() - 1 {
                            assert(self.unknown_headers[i].parent_hash != self.previous);
                        }
                    }
                }
                assert(chained(grown.unknown_headers)) by {
                    assert forall|i: int| 0 <= i < grown.unknown_headers.len() - 1 implies (
                    #[trigger] grown.unknown_headers[i]).parent_hash == grown.unknown_headers[i
                        + 1].hash by {
                        if i < self.unknown_headers.len() - 1 {
                            assert(self.unknown_headers[i].parent_hash == self.unknown_headers[i
                                + 1].hash);
                        }
                    }
                }
                grown.lemma_walk_keeps_wf();
            } else {
                self.lemma_same_scan(next);
            }
        }
    }

    /// Taking a proof of finality keeps the state well formed.
    pub proof fn lemma_with_justification_keeps_wf(self, finality: Lookup<(BlockHash, Seq<u8>)>)
        requires
            self.wf(),
        ensures
            self.with_justification(finality) matches Ok(next) ==> next.wf(),
    {
        if self.with_justification(finality) is Ok && self.stage is Justification {
            let parts = finality->Found_0;
            let justified = ProofQueryView {
                block: parts.0,
                justification: parts.1,
                budget: self.unknown_headers[0].number,
                ..self
            };
            self.lemma_before_scan();
            justified.lemma_walk_keeps_wf();
        }
    }

    /// Taking the changed relay blocks keeps the state well formed.
    pub proof fn lemma_with_storage_changes_keeps_wf(self, blocks: Seq<BlockHash>)
        requires
            self.wf(),
        ensures
            self.with_storage_changes(blocks).wf(),
    {
        let next = self.with_storage_changes(blocks);
        if self.stage is Changes {
            assert forall|key: Seq<u8>| #[trigger]
                next.parachain_headers.contains_key(key) implies next.collected(key) by {
                assert(self.collected(key));
            }
        }
    }

    /// Taking a parachain head keeps the state well formed.
    pub proof fn lemma_with_parachain_head_keeps_wf(self, head: Option<ChainHeaderView>)
        requires
            self.wf(),
        ensures
            self.with_parachain_head(head) matches Ok(next) ==> next.wf(),
    {
        if self.with_parachain_head(head) is Ok && self.stage is Head {
            let next = self.with_parachain_head(head)->Ok_0;
            let number = head->Some_0.number;
            assert forall|i: int| 0 <= i < next.heads.len() implies (#[trigger] next.heads[i]).0
                == next.changes[i] by {
                if i < self.heads.len() {
                    assert(self.heads[i].0 == self.changes[i]);
                }
            }
            assert forall|key: Seq<u8>| #[trigger]
                next.parachain_headers.contains_key(key) implies next.collected(key) by {
                assert(self.collected(key));
                let i = choose|i: int|
                    0 <= i < self.index && (#[trigger] self.heads[i]).0@ == key && self.wanted(
                        self.heads[i].1,
                    );
                assert(next.heads[i] == self.heads[i]);
            }
            assert forall|i: int|
                0 <= i < next.index && next.wanted(
                    (#[trigger] next.heads[i]).1,
                ) implies next.parachain_headers.contains_key(next.heads[i].0@) by {
                if i < self.index {
                    assert(self.wanted(self.heads[i].1));
                }
            }
        }
    }

    /// Taking a storage proof keeps the state well formed.
    pub proof fn lemma_with_storage_proof_keeps_wf(self, nodes: Seq<Seq<u8>>)
        requires
            self.wf(),
        ensures
            self.with_storage_proof(nodes).wf(),
    {
        self.lemma_same_scan(self.with_storage_proof(nodes));
    }

    /// Taking a timestamp extrinsic keeps the state well formed.
    pub proof fn lemma_with_timestamp_extrinsic_keeps_wf(
        self,
        extrinsic: Seq<u8>,
        extrinsic_proof: Seq<Seq<u8>>,
    )
        requires
            self.wf(),
        ensures
            self.with_timestamp_extrinsic(extrinsic, extrinsic_proof).wf(),
    {
        let next = self.with_timestamp_extrinsic(extrinsic, extrinsic_proof);
        if self.stage is Extrinsic {
            assert(self.heads[self.index].0 == self.changes[self.index]);
            assert(self.wanted(self.heads.last().1));
            assert forall|key: Seq<u8>| #[trigger]
                next.parachain_headers.contains_key(key) implies next.collected(key) by {
                if key == self.changes[self.index]@ {
                    assert(next.heads[self.index].0@ == key);
                } else {
                    assert(self.collected(key));
                }
            }
            assert forall|i: int|
                0 <= i < next.index && next.wanted(
                    (#[trigger] next.heads[i]).1,
                ) implies next.parachain_headers.contains_key(next.heads[i].0@) by {
                if i < self.index {
                    assert(self.wanted(self.heads[i].1));
                }
            }
        } else {
            self.lemma_same_scan(next);
        }
    }

    /// The bound on the walk cuts no walk short of the genesis block: where
    /// every header on the way has the number of its child less one, the walk
    /// fails for want of further parents only at a header with the number zero.
    pub proof fn lemma_walk_is_cut_only_at_genesis(self, found: ChainHeaderView)
        requires
            self.wf(),
            self.stage is Ancestor,
            found.hash == self.unknown_headers.last().parent_hash,
            found.parent_hash != self.previous,
            forall|i: int|
                0 <= i < self.unknown_headers.len() ==> (#[trigger] self.unknown_headers[i]).number
                    + i == self.unknown_headers[0].number,
            found.number + self.unknown_headers.len() == self.unknown_headers[0].number,
        ensures
            self.with_header(Lookup::Found(found)) is Err ==> found.number == 0,
    {
    }

    /// In the bundle of a query that is done, the unknown headers lead from
    /// the latest finalized block back to the previously finalized one: the
    /// first is the header of the latest block, each is the parent of the one
    /// before it, and the last, and no other, is a child of the previous block.
    pub proof fn lemma_bundle_links_back(self)
        requires
            self.wf(),
            self.stage is Done,
        ensures
            self.bundle().finality_proof.unknown_headers.len() > 0,
            self.bundle().finality_proof.unknown_headers[0].hash == self.latest,
            links_back_to(self.bundle().finality_proof.unknown_headers, self.previous),
            short_of(self.bundle().finality_proof.unknown_headers, self.previous),
    {
    }

    /// The bundle of a query that is done holds proofs under a key exactly if
    /// the key is the hash of a changed relay block whose parachain header
    /// is wanted: its number is not zero, and it is among the targets.
    pub proof fn lemma_bundle_holds_the_wanted(self, key: Seq<u8>)
        requires
            self.wf(),
            self.stage is Done,
        ensures
            self.heads.len() == self.changes.len(),
            self.bundle().parachain_headers.contains_key(key) <==> exists|i: int|
                {
                    &&& 0 <= i < self.changes.len()
                    &&& (#[trigger] self.heads[i]).0 == self.changes[i]
                    &&& self.changes[i]@ == key
                    &&& self.heads[i].1 != 0
                    &&& self.targets.contains(self.heads[i].1)
                },
    {
        if self.bundle().parachain_headers.contains_key(key) {
            assert(self.collected(key));
        }
    }
}

/// An answer of the chain to a request, as plain values.
pub enum Answer {
    /// A relay header.
    Header(Lookup<ChainHeaderView>),
    /// A proof of finality: the hash of its block, and the justification.
    Justification(Lookup<(BlockHash, Seq<u8>)>),
    /// The relay blocks in which the parachain head changed.
    StorageChanges(Seq<BlockHash>),
    /// A parachain head; `None` where it did not decode.
    ParachainHead(Option<ChainHeaderView>),
    /// The nodes of a storage proof.
    StorageProof(Seq<Seq<u8>>),
    /// A timestamp extrinsic, and the nodes of the proof of its inclusion.
    TimestampExtrinsic(Seq<u8>, Seq<Seq<u8>>),
}

impl ProofQueryView {
    /// The state after one answer, or why the query fails.
    pub open spec fn answered(self, answer: Answer) -> Result<ProofQueryView, Error> {
        match answer {
            Answer::Header(header) => self.with_header(header),
            Answer::Justification(finality) => self.with_justification(finality),
            Answer::StorageChanges(blocks) => Ok(self.with_storage_changes(blocks)),
            Answer::ParachainHead(head) => self.with_parachain_head(head),
            Answer::StorageProof(nodes) => Ok(self.with_storage_proof(nodes)),
            Answer::TimestampExtrinsic(extrinsic, extrinsic_proof) => Ok(
                self.with_timestamp_extrinsic(extrinsic, extrinsic_proof),
            ),
        }
    }

    /// The state after a run of answers, or the failure at the first answer
    /// that the query cannot go on from.
    pub open spec fn fed(self, answers: Seq<Answer>) -> Result<ProofQueryView, Error>
        decreases answers.len(),
    {
        if answers.len() == 0 {
            Ok(self)
        } else {
            match self.fed(answers.drop_last()) {
                Ok(state) => state.answered(answers.last()),
                Err(error) => Err(error),
            }
        }
    }

    /// Whatever the chain answers, a query stays well formed.
    pub proof fn lemma_fed_keeps_wf(self, answers: Seq<Answer>)
        requires
            self.wf(),
        ensures
            self.fed(answers) matches Ok(state) ==> state.wf(),
        decreases answers.len(),
    {
        if answers.len() > 0 {
            self.lemma_fed_keeps_wf(answers.drop_last());
            if self.fed(answers.drop_last()) is Ok {
                let state = self.fed(answers.drop_last())->Ok_0;
                match answers.last() {
                    Answer::Header(header) => state.lemma_with_header_keeps_wf(header),
                    Answer::Justification(finality) => state.lemma_with_justification_keeps_wf(
                        finality,
                    ),
                    Answer::StorageChanges(blocks) => state.lemma_with_storage_changes_keeps_wf(
                        blocks,
                    ),
                    Answer::ParachainHead(head) => state.lemma_with_parachain_head_keeps_wf(head),
                    Answer::StorageProof(nodes) => state.lemma_with_storage_proof_keeps_wf(nodes),
                    Answer::TimestampExtrinsic(
                        extrinsic,
                        extrinsic_proof,
                    ) => state.lemma_with_timestamp_extrinsic_keeps_wf(extrinsic, extrinsic_proof),
                }
            }
        }
    }
}

/// Contiguity. Whatever the chain answers, the unknown headers of a bundle
/// that a query produces start at the latest finalized block, each is the
/// parent of the one before it, and the last is a child of the previously
/// finalized block.
pub proof fn lemma_unknown_headers_are_contiguous(
    para_id: u32,
    latest: BlockHash,
    previous: BlockHash,
    targets: Seq<u32>,
    answers: Seq<Answer>,
)
    ensures
        ProofQueryView::start(para_id, latest, previous, targets).fed(answers) matches Ok(state)
            ==> (state.stage is Done ==> {
            let headers = state.bundle().finality_proof.unknown_headers;
            &&& headers.len() > 0
            &&& headers[0].hash == latest
            &&& forall|i: int|
                0 <= i < headers.len() - 1 ==> (#[trigger] headers[i]).parent_hash == headers[i
                    + 1].hash
            &&& headers.last().parent_hash == previous
        }),
{
    let start = ProofQueryView::start(para_id, latest, previous, targets);
    start.lemma_fed_keeps_wf(answers);
    if start.fed(answers) is Ok && start.fed(answers)->Ok_0.stage is Done {
        lemma_fed_keeps_the_question(start, answers);
        start.fed(answers)->Ok_0.lemma_bundle_links_back();
    }
}

/// Genesis filter and target filter. Whatever the chain answers, a bundle
/// that a query produces holds proofs under a key only if the key is the hash
/// of a changed relay block whose parachain head was looked at and has a
/// number that is not zero and is among the targets.
pub proof fn lemma_bundle_holds_only_the_wanted(
    para_id: u32,
    latest: BlockHash,
    previous: BlockHash,
    targets: Seq<u32>,
    answers: Seq<Answer>,
    key: Seq<u8>,
)
    ensures
        ProofQueryView::start(para_id, latest, previous, targets).fed(answers) matches Ok(state)
            ==> (state.stage is Done && state.bundle().parachain_headers.contains_key(key)
            ==> exists|i: int|
            {
                &&& 0 <= i < state.changes.len()
                &&& (#[trigger] state.heads[i]).0 == state.changes[i]
                &&& state.changes[i]@ == key
                &&& state.heads[i].1 != 0
                &&& targets.contains(state.heads[i].1)
            }),
{
    let start = ProofQueryView::start(para_id, latest, previous, targets);
    start.lemma_fed_keeps_wf(answers);
    if start.fed(answers) is Ok && start.fed(answers)->Ok_0.stage is Done {
        lemma_fed_keeps_the_question(start, answers);
        start.fed(answers)->Ok_0.lemma_bundle_holds_the_wanted(key);
    }
}

/// No answer changes what a query was asked.
proof fn lemma_fed_keeps_the_question(start: ProofQueryView, answers: Seq<Answer>)
    ensures
        start.fed(answers) matches Ok(state) ==> {
            &&& state.para_id == start.para_id
            &&& state.latest == start.latest
            &&& state.previous == start.previous
            &&& state.targets == start.targets
        },
    decreases answers.len(),
{
    if answers.len() > 0 {
        lemma_fed_keeps_the_question(start, answers.drop_last());
    }
}

/// Where the walk goes from a header with the parent `parent`, and how many
/// more parents it may fetch then: see [`ProofQueryView::walk`].
fn walk_on(
    parent: BlockHash,
    previous: BlockHash,
    budget: u32,
) -> (result: Result<(Stage, u32), Error>)
    ensures
        match result {
            Ok((stage, left)) => if parent == previous {
                stage == Stage::Changes && left == budget
            } else {
                budget != 0 && stage == Stage::Ancestor && left == budget - 1
            },
            Err(error) => parent != previous && budget == 0 && error == Error::ChainDiscontinuity(
                parent,
            ),
        },
{
    if parent == previous {
        Ok((Stage::Changes, budget))
    } else if budget == 0 {
        Err(Error::ChainDiscontinuity(parent))
    } else {
        Ok((Stage::Ancestor, budget - 1))
    }
}

/// Whether `number` is among `numbers`.
fn contains(numbers: &Vec<u32>, number: u32) -> (found: bool)
    ensures
        found == numbers@.contains(number),
{
    let mut i: usize = 0;
    while i < numbers.len()
        invariant
            i <= numbers@.len(),
            forall|j: int| 0 <= j < i ==> numbers@[j] != number,
        decreases numbers@.len() - i,
    {
        if numbers[i] == number {
            return true;
        }
        i = i + 1;
    }
    false
}

/// A query for parachain headers with their finality proof, in progress.
pub struct ProofQuery {
    para_id: u32,
    latest: BlockHash,
    previous: BlockHash,
    targets: Vec<u32>,
    stage: Stage,
    block: BlockHash,
    justification: Vec<u8>,
    unknown_headers: Vec<RelayChainHeader>,
    budget: u32,
    changes: Vec<BlockHash>,
    index: usize,
    parachain_block: BlockHash,
    state_proof: Vec<Vec<u8>>,
    parachain_headers: ParachainHeaderMap,
    heads: Ghost<Seq<(BlockHash, u32)>>,
}

impl View for ProofQuery {
    type V = ProofQueryView;

    closed spec fn view(&self) -> ProofQueryView {
        ProofQueryView {
            para_id: self.para_id,
            latest: self.latest,
            previous: self.previous,
            targets: self.targets@,
            stage: self.stage,
            block: self.block,
            justification: self.justification@,
            unknown_headers: header_views(self.unknown_headers@),
            budget: self.budget,
            changes: self.changes@,
            index: self.index as int,
            parachain_block: self.parachain_block,
            state_proof: byte_strings(self.state_proof@),
            parachain_headers: self.parachain_headers@,
            heads: self.heads@,
        }
    }
}

impl ProofQuery {
    /// Every state of a query is well formed.
    #[verifier::type_invariant]
    pub closed spec fn inv(&self) -> bool {
        self@.wf()
    }

    /// Starts a query.
    pub fn start(
        para_id: u32,
        latest: BlockHash,
        previous: BlockHash,
        targets: Vec<u32>,
    ) -> (query: ProofQuery)
        ensures
            query@ == ProofQueryView::start(para_id, latest, previous, targets@),
            query@.wf(),
    {
        let query = ProofQuery {
            para_id,
            latest,
            previous,
            targets,
            stage: Stage::Latest,
            block: latest,
            justification: Vec::new(),
            unknown_headers: Vec::new(),
            budget: 0,
            changes: Vec::new(),
            index: 0,
            parachain_block: latest,
            state_proof: Vec::new(),
            parachain_headers: ParachainHeaderMap::new(),
            heads: Ghost(Seq::empty()),
        };
        assert(query@.unknown_headers =~= Seq::<ChainHeaderView>::empty());
        assert(query@.state_proof =~= Seq::<Seq<u8>>::empty());
        query
    }

    /// What to fetch next; `None` when the bundle is complete.
    pub fn request(&self) -> (request: Option<Request>)
        ensures
            request == self@.request(),
            self@.wf(),
    {
        proof {
            use_type_invariant(self);
        }
        match self.stage {
            Stage::Latest => Some(Request::Header(self.latest)),
            Stage::Justification => Some(Request::FinalityProof(self.unknown_headers[0].number())),
            Stage::Ancestor => Some(
                Request::Header(self.unknown_headers[self.unknown_headers.len() - 1].parent_hash()),
            ),
            Stage::Changes => Some(
                Request::StorageChanges {
                    para_id: self.para_id,
                    from: self.previous,
                    to: self.latest,
                },
            ),
            Stage::ChangedHeader => Some(Request::Header(self.changes[self.index])),
            Stage::Head => Some(
                Request::ParachainHead { para_id: self.para_id, at: self.changes[self.index] },
            ),
            Stage::StateProof => Some(
                Request::StorageProof { para_id: self.para_id, at: self.changes[self.index] },
            ),
            Stage::Extrinsic => Some(Request::TimestampExtrinsic { at: self.parachain_block }),
            Stage::Done => None,
        }
    }

    /// Takes the header that was looked up: see [`ProofQueryView::with_header`].
    pub fn with_header(
        self,
        header: Lookup<RelayChainHeader>,
    ) -> (result: Result<ProofQuery, Error>)
        ensures
            match result {
                Ok(next) => self@.with_header(header_lookup_view(header)) == Ok::<
                    ProofQueryView,
                    Error,
                >(next@) && next@.wf(),
                Err(error) => self@.with_header(header_lookup_view(header)) == Err::<
                    ProofQueryView,
                    Error,
                >(error),
            },
    {
        proof {
            use_type_invariant(&self);
            self@.lemma_with_header_keeps_wf(header_lookup_view(header));
        }
        match self.stage {
            Stage::Latest => match header {
                Lookup::NotFound => Err(Error::NotFound(NotFound::Header(self.latest))),
                Lookup::Malformed => Err(Error::Decode(DecodeError::Header)),
                Lookup::Found(found) => {
                    if found.hash() == self.latest {
                        let mut unknown_headers: Vec<RelayChainHeader> = Vec::new();
                        unknown_headers.push(found);
                        assert(header_views(unknown_headers@) =~= seq![found@]);
                        Ok(ProofQuery { stage: Stage::Justification, unknown_headers, ..self })
                    } else {
                        Err(Error::NotFound(NotFound::Header(self.latest)))
                    }
                },
            },
            Stage::Ancestor => {
                let parent = self.unknown_headers[self.unknown_headers.len() - 1].parent_hash();
                match header {
                    Lookup::NotFound => Err(Error::ChainDiscontinuity(parent)),
                    Lookup::Malformed => Err(Error::Decode(DecodeError::Header)),
                    Lookup::Found(found) => {
                        if found.hash() == parent {
                            let ghost before = header_views(self.unknown_headers@);
                            let (stage, budget) = walk_on(
                                found.parent_hash(),
                                self.previous,
                                self.budget,
                            )?;
                            let mut unknown_headers = self.unknown_headers;
                            unknown_headers.push(found);
                            assert(header_views(unknown_headers@) =~= before.push(found@));
                            Ok(ProofQuery { stage, budget, unknown_headers, ..self })
                        } else {
                            Err(Error::ChainDiscontinuity(parent))
                        }
                    },
                }
            },
            Stage::ChangedHeader => {
                let block = self.changes[self.index];
                match header {
                    Lookup::NotFound => Err(Error::NotFound(NotFound::Header(block))),
                    Lookup::Malformed => Err(Error::Decode(DecodeError::Header)),
                    Lookup::Found(found) => {
                        if found.hash() == block {
                            Ok(ProofQuery { stage: Stage::Head, ..self })
                        } else {
                            Err(Error::NotFound(NotFound::Header(block)))
                        }
                    },
                }
            },
            _ => Ok(self),
        }
    }

    /// Takes the proof of finality that was looked up: see
    /// [`ProofQueryView::with_justification`].
    pub fn with_justification(
        self,
        finality: Lookup<FinalityProof>,
    ) -> (result: Result<ProofQuery, Error>)
        ensures
            match result {
                Ok(next) => self@.with_justification(justification_lookup_view(finality)) == Ok::<
                    ProofQueryView,
                    Error,
                >(next@) && next@.wf(),
                Err(error) => self@.with_justification(justification_lookup_view(finality))
                    == Err::<ProofQueryView, Error>(error),
            },
    {
        proof {
            use_type_invariant(&self);
            self@.lemma_with_justification_keeps_wf(justification_lookup_view(finality));
        }
        match self.stage {
            Stage::Justification => {
                let number: u32 = self.unknown_headers[0].number();
                match finality {
                    Lookup::NotFound => Err(Error::NotFound(NotFound::Justification(number))),
                    Lookup::Malformed => Err(Error::Decode(DecodeError::FinalityProof)),
                    Lookup::Found(found) => {
                        let (stage, budget) = walk_on(
                            self.unknown_headers[0].parent_hash(),
                            self.previous,
                            number,
                        )?;
                        Ok(
                            ProofQuery {
                                stage,
                                block: found.block,
                                justification: found.justification,
                                budget,
                                ..self
                            },
                        )
                    },
                }
            },
            _ => Ok(self),
        }
    }

    /// Takes the relay blocks in which the parachain head changed, in the
    /// order in which the chain reported them: see
    /// [`ProofQueryView::with_storage_changes`].
    pub fn on_storage_changes(self, blocks: Vec<BlockHash>) -> (next: ProofQuery)
        ensures
            next@ == self@.with_storage_changes(blocks@),
            next@.wf(),
    {
        proof {
            use_type_invariant(&self);
            self@.lemma_with_storage_changes_keeps_wf(blocks@);
        }
        match self.stage {
            Stage::Changes => {
                let stage = if blocks.len() > 0 {
                    Stage::ChangedHeader
                } else {
                    Stage::Done
                };
                ProofQuery { stage, changes: blocks, index: 0, ..self }
            },
            _ => self,
        }
    }

    /// Takes the parachain head that was decoded: see
    /// [`ProofQueryView::with_parachain_head`].
    pub fn with_parachain_head(
        self,
        head: Option<ParachainHeader>,
    ) -> (result: Result<ProofQuery, Error>)
        ensures
            match result {
                Ok(next) => self@.with_parachain_head(head_view(head)) == Ok::<
                    ProofQueryView,
                    Error,
                >(next@) && next@.wf(),
                Err(error) => self@.with_parachain_head(head_view(head)) == Err::<
                    ProofQueryView,
                    Error,
                >(error),
            },
    {
        proof {
            use_type_invariant(&self);
            self@.lemma_with_parachain_head_keeps_wf(head_view(head));
        }
        match self.stage {
            Stage::Head => match head {
                None => Err(Error::Decode(DecodeError::Header)),
                Some(header) => {
                    let number: u32 = header.number();
                    let ghost heads = self.heads@.push((self.changes@[self.index as int], number));
                    if number != 0 && contains(&self.targets, number) {
                        Ok(
                            ProofQuery {
                                stage: Stage::StateProof,
                                parachain_block: header.hash(),
                                heads: Ghost(heads),
                                ..self
                            },
                        )
                    } else {
                        assert(self.index < self.changes.len());
                        let index: usize = self.index + 1;
                        let stage = if index < self.changes.len() {
                            Stage::ChangedHeader
                        } else {
                            Stage::Done
                        };
                        Ok(ProofQuery { stage, index, heads: Ghost(heads), ..self })
                    }
                },
            },
            _ => Ok(self),
        }
    }

    /// Takes the nodes of the storage proof: see
    /// [`ProofQueryView::with_storage_proof`].
    pub fn on_storage_proof(self, nodes: Vec<Vec<u8>>) -> (next: ProofQuery)
        ensures
            next@ == self@.with_storage_proof(byte_strings(nodes@)),
            next@.wf(),
    {
        proof {
            use_type_invariant(&self);
            self@.lemma_with_storage_proof_keeps_wf(byte_strings(nodes@));
        }
        match self.stage {
            Stage::StateProof => ProofQuery { stage: Stage::Extrinsic, state_proof: nodes, ..self },
            _ => self,
        }
    }

    /// Takes the timestamp extrinsic and the nodes of its inclusion proof: see
    /// [`ProofQueryView::with_timestamp_extrinsic`].
    pub fn on_timestamp_extrinsic(
        self,
        extrinsic: Vec<u8>,
        extrinsic_proof: Vec<Vec<u8>>,
    ) -> (next: ProofQuery)
        ensures
            next@ == self@.with_timestamp_extrinsic(extrinsic@, byte_strings(extrinsic_proof@)),
            next@.wf(),
    {
        proof {
            use_type_invariant(&self);
            self@.lemma_with_timestamp_extrinsic_keeps_wf(
                extrinsic@,
                byte_strings(extrinsic_proof@),
            );
        }
        match self.stage {
            Stage::Extrinsic => {
                let relay_block = self.changes[self.index];
                let proofs = ParachainHeaderProofs {
                    state_proof: self.state_proof,
                    extrinsic,
                    extrinsic_proof,
                };
                let mut parachain_headers = self.parachain_headers;
                parachain_headers.insert(relay_block, proofs);
                assert(self.index < self.changes.len());
                let index: usize = self.index + 1;
                let stage = if index < self.changes.len() {
                    Stage::ChangedHeader
                } else {
                    Stage::Done
                };
                let state_proof: Vec<Vec<u8>> = Vec::new();
                assert(byte_strings(state_proof@) =~= Seq::<Seq<u8>>::empty());
                ProofQuery { stage, index, state_proof, parachain_headers, ..self }
            },
            _ => self,
        }
    }

    /// Takes the header that came back, encoded, or `None` where the chain
    /// has no header under the hash.
    pub fn on_header(self, encoded: Option<Vec<u8>>) -> (result: Result<ProofQuery, Error>)
        ensures
            match result {
                Ok(next) => self@.with_header(header_lookup(fetched_bytes(encoded))) == Ok::<
                    ProofQueryView,
                    Error,
                >(next@) && next@.wf(),
                Err(error) => self@.with_header(header_lookup(fetched_bytes(encoded))) == Err::<
                    ProofQueryView,
                    Error,
                >(error),
            },
    {
        self.with_header(lookup_header(encoded))
    }

    /// Takes the proof of finality that came back, or `None` where the chain
    /// has none for the block.
    pub fn on_justification(
        self,
        notification: Option<JustificationNotification>,
    ) -> (result: Result<ProofQuery, Error>)
        ensures
            match result {
                Ok(next) => self@.with_justification(
                    justification_lookup(fetched_notification(notification)),
                ) == Ok::<ProofQueryView, Error>(next@) && next@.wf(),
                Err(error) => self@.with_justification(
                    justification_lookup(fetched_notification(notification)),
                ) == Err::<ProofQueryView, Error>(error),
            },
    {
        self.with_justification(lookup_justification(notification))
    }

    /// Takes the parachain head that came back, encoded.
    pub fn on_parachain_head(self, head: Vec<u8>) -> (result: Result<ProofQuery, Error>)
        ensures
            match result {
                Ok(next) => self@.with_parachain_head(crate::chain::scale_decoded_header(head@))
                    == Ok::<ProofQueryView, Error>(next@) && next@.wf(),
                Err(error) => self@.with_parachain_head(crate::chain::scale_decoded_header(head@))
                    == Err::<ProofQueryView, Error>(error),
            },
    {
        self.with_parachain_head(ParachainHeader::decode(head.as_slice()))
    }

    /// The bundle, once the query has nothing left to ask; `None` before.
    ///
    /// The unknown headers of the bundle lead from the latest finalized block
    /// back to the previously finalized one: the first is the header of the
    /// latest block, each is the parent of the one before it, and the last is
    /// a child of the previous block. The bundle holds proofs under a
    /// key only if the key is the hash of a changed relay block whose
    /// parachain header has a number that is not zero and is among the
    /// targets, and it holds proofs for every such block.
    pub fn finish(self) -> (bundle: Option<ParachainHeadersWithFinalityProof>)
        ensures
            self@.wf(),
            match bundle {
                Some(bundle) => self@.stage is Done && bundle@ == self@.bundle(),
                None => !(self@.stage is Done),
            },
            bundle matches Some(bundle) ==> {
                &&& bundle@.finality_proof.unknown_headers.len() > 0
                &&& bundle@.finality_proof.unknown_headers[0].hash == self@.latest
                &&& links_back_to(bundle@.finality_proof.unknown_headers, self@.previous)
                &&& forall|key: Seq<u8>| #[trigger]
                    bundle@.parachain_headers.contains_key(key) ==> exists|i: int|
                        {
                            &&& 0 <= i < self@.changes.len()
                            &&& (#[trigger] self@.heads[i]).0 == self@.changes[i]
                            &&& self@.changes[i]@ == key
                            &&& self@.heads[i].1 != 0
                            &&& self@.targets.contains(self@.heads[i].1)
                        }
                &&& forall|i: int|
                    0 <= i < self@.changes.len() && (#[trigger] self@.heads[i]).1 != 0
                        && self@.targets.contains(self@.heads[i].1)
                        ==> bundle@.parachain_headers.contains_key(self@.changes[i]@)
            },
    {
        proof {
            use_type_invariant(&self);
            if self@.stage is Done {
                self@.lemma_bundle_links_back();
                assert forall|key: Seq<u8>| #[trigger]
                    self@.bundle().parachain_headers.contains_key(key) implies exists|i: int|
                    {
                        &&& 0 <= i < self@.changes.len()
                        &&& (#[trigger] self@.heads[i]).0 == self@.changes[i]
                        &&& self@.changes[i]@ == key
                        &&& self@.heads[i].1 != 0
                        &&& self@.targets.contains(self@.heads[i].1)
                    } by {
                    self@.lemma_bundle_holds_the_wanted(key);
                }
                assert forall|i: int|
                    0 <= i < self@.changes.len() && (#[trigger] self@.heads[i]).1 != 0
                        && self@.targets.contains(
                        self@.heads[i].1,
                    ) implies self@.bundle().parachain_headers.contains_key(self@.changes[i]@) by {
                    assert(self@.wanted(self@.heads[i].1));
                    assert(self@.heads[i].0 == self@.changes[i]);
                }
            }
        }
        match self.stage {
            Stage::Done => Some(
                ParachainHeadersWithFinalityProof {
                    finality_proof: FinalityProof {
                        block: self.block,
                        justification: self.justification,
                        unknown_headers: self.unknown_headers,
                    },
                    parachain_headers: self.parachain_headers,
                },
            ),
            _ => None,
        }
    }
}

} // verus!
