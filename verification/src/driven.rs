//! What a query for a finality proof ends with when a chain answers it.
//!
//! A chain is taken as what it answers to each request. A query that is
//! driven by a chain keeps track of it: whatever it holds is what the chain
//! answered, and once it is done its bundle is the one that the chain
//! determines.

use vstd::prelude::*;
use crate::chain::ChainHeaderView;
use crate::error::Error;
use crate::hash::BlockHash;
use crate::primitives::ParachainHeaderProofsView;
use crate::proof_query::{Answer, ProofQueryView};
use crate::prover::{Lookup, Request};

verus! {

/// A relay chain with a parachain, as what they answer.
pub struct Chain {
    /// The relay header under a hash.
    pub header: spec_fn(BlockHash) -> Lookup<ChainHeaderView>,
    /// The proof of finality for a relay block number: the hash of the block
    /// that it is for, and the justification.
    pub finality: spec_fn(u32) -> Lookup<(BlockHash, Seq<u8>)>,
    /// The relay blocks after the first hash and up to the second in which
    /// the head of a parachain changed.
    pub changes: spec_fn(u32, BlockHash, BlockHash) -> Seq<BlockHash>,
    /// The head of a parachain at a relay block; `None` where it does not
    /// decode.
    pub head: spec_fn(u32, BlockHash) -> Option<ChainHeaderView>,
    /// The storage proof of the head of a parachain at a relay block.
    pub state_proof: spec_fn(u32, BlockHash) -> Seq<Seq<u8>>,
    /// The timestamp extrinsic of a parachain block, and the proof of its
    /// inclusion.
    pub extrinsic: spec_fn(BlockHash) -> (Seq<u8>, Seq<Seq<u8>>),
}

impl Chain {
    /// What the chain answers to a request.
    pub open spec fn answer(self, request: Request) -> Answer {
        match request {
            Request::Header(hash) => Answer::Header((self.header)(hash)),
            Request::FinalityProof(number) => Answer::Justification((self.finality)(number)),
            Request::StorageChanges { para_id, from, to } => Answer::StorageChanges(
                (self.changes)(para_id, from, to),
            ),
            Request::ParachainHead { para_id, at } => Answer::ParachainHead(
                (self.head)(para_id, at),
            ),
            Request::StorageProof { para_id, at } => Answer::StorageProof(
                (self.state_proof)(para_id, at),
            ),
            Request::TimestampExtrinsic { at } => Answer::TimestampExtrinsic(
                (self.extrinsic)(at).0,
                (self.extrinsic)(at).1,
            ),
        }
    }

    /// The proofs that the chain has for the parachain header `head`
    /// committed in the relay block `block`.
    pub open spec fn proofs(self, para_id: u32, block: BlockHash, head: ChainHeaderView)
        -> ParachainHeaderProofsView {
        ParachainHeaderProofsView {
            state_proof: (self.state_proof)(para_id, block),
            extrinsic: (self.extrinsic)(head.hash).0,
            extrinsic_proof: (self.extrinsic)(head.hash).1,
        }
    }

    /// The proofs of the parachain headers committed in `blocks` whose
    /// numbers are not zero and among `targets`, each under the hash of its
    /// relay block; of two for one hash the later one stays.
    pub open spec fn wanted_proofs(self, para_id: u32, targets: Seq<u32>, blocks: Seq<BlockHash>)
        -> Map<Seq<u8>, ParachainHeaderProofsView>
        decreases blocks.len(),
    {
        if blocks.len() == 0 {
            Map::empty()
        } else {
            let before = self.wanted_proofs(para_id, targets, blocks.drop_last());
            let block = blocks.last();
            match (self.head)(para_id, block) {
                Some(head) => if head.number != 0 && targets.contains(head.number) {
                    before.insert(block@, self.proofs(para_id, block, head))
                } else {
                    before
                },
                None => before,
            }
        }
    }
}

impl ProofQueryView {
    /// The number of the parachain header that `chain` has committed in the
    /// changed relay block at position `i`; zero where the head does not
    /// decode.
    pub open spec fn committed(self, chain: Chain, i: int) -> u32 {
        match (chain.head)(self.para_id, self.changes[i]) {
            Some(head) => head.number,
            None => 0,
        }
    }

    /// Whatever the state holds is what `chain` answered.
    pub open spec fn tracks(self, chain: Chain) -> bool {
        let headers = self.unknown_headers;
        let block = self.changes[self.index];
        &&& headers.len() > 0 ==> (chain.header)(self.latest) == Lookup::Found(headers[0])
        &&& forall|i: int|
            0 <= i < headers.len() - 1 ==> (chain.header)((#[trigger] headers[i]).parent_hash)
                == Lookup::Found(headers[i + 1])
        &&& !(self.stage is Latest || self.stage is Justification) ==> (chain.finality)(
            headers[0].number,
        ) == Lookup::Found((self.block, self.justification))
        &&& self.scanning() || self.stage is Done ==> self.changes == (chain.changes)(
            self.para_id,
            self.previous,
            self.latest,
        )
        &&& forall|i: int|
            0 <= i < self.heads.len() ==> (#[trigger] self.heads[i]).1 == self.committed(chain, i)
        &&& self.parachain_headers == chain.wanted_proofs(
            self.para_id,
            self.targets,
            self.changes.take(self.index),
        )
        &&& self.proving() ==> (chain.head)(self.para_id, block) is Some && (chain.head)(
            self.para_id,
            block,
        )->Some_0.hash == self.parachain_block
        &&& self.stage is Extrinsic ==> self.state_proof == (chain.state_proof)(self.para_id, block)
    }

    /// The state after `chain` answered up to `steps` requests, or why the
    /// query failed.
    pub open spec fn driven(self, chain: Chain, steps: nat) -> Result<ProofQueryView, Error>
        decreases steps,
    {
        if steps == 0 {
            Ok(self)
        } else {
            match self.driven(chain, (steps - 1) as nat) {
                Ok(state) => match state.request() {
                    Some(request) => state.answered(chain.answer(request)),
                    None => Ok(state),
                },
                Err(error) => Err(error),
            }
        }
    }

    /// Taking the answer of `chain` to what the query asks keeps the query
    /// on the track of `chain`.
    pub proof fn lemma_answer_keeps_track(self, chain: Chain)
        requires
            self.wf(),
            self.tracks(chain),
            self.request() is Some,
        ensures
            self.answered(chain.answer(self.request().unwrap())) matches Ok(next) ==> next.wf()
                && next.tracks(chain),
    {
        let answer = chain.answer(self.request().unwrap());
        if self.answered(answer) is Ok {
            let next = self.answered(answer)->Ok_0;
            self.lemma_fed_keeps_wf(seq![answer]);
            assert(seq![answer].drop_last() =~= Seq::<Answer>::empty());
            assert(self.fed(seq![answer].drop_last()) == Ok::<ProofQueryView, Error>(self));
            assert(next.wf());
            let taken = self.changes.take(self.index);
            let grown = self.changes.take(self.index + 1);
            if self.stage is Changes {
                assert(next.changes.take(0) =~= Seq::<BlockHash>::empty());
                assert(self.changes.take(0) =~= Seq::<BlockHash>::empty());
            } else if self.stage is Head || self.stage is Extrinsic {
                assert(grown.drop_last() =~= taken);
                assert(grown.last() == self.changes[self.index]);
                if self.stage is Extrinsic {
                    assert(self.wanted(self.heads[self.index].1));
                }
            }
            assert(next.parachain_headers =~= chain.wanted_proofs(
                next.para_id,
                next.targets,
                next.changes.take(next.index),
            ));
            assert forall|i: int| 0 <= i < next.heads.len() implies (#[trigger] next.heads[i]).1
                == next.committed(chain, i) by {
                if i < self.heads.len() {
                    assert(self.heads[i].1 == self.committed(chain, i));
                }
            }
        }
    }

    /// A query that `chain` drives stays well formed and on the track of
    /// `chain`.
    pub proof fn lemma_driven_keeps_track(self, chain: Chain, steps: nat)
        requires
            self.wf(),
            self.tracks(chain),
        ensures
            self.driven(chain, steps) matches Ok(state) ==> state.wf() && state.tracks(chain),
        decreases steps,
    {
        if steps > 0 {
            self.lemma_driven_keeps_track(chain, (steps - 1) as nat);
            if self.driven(chain, (steps - 1) as nat) is Ok {
                let state = self.driven(chain, (steps - 1) as nat)->Ok_0;
                if state.request() is Some {
                    state.lemma_answer_keeps_track(chain);
                }
            }
        }
    }
}

/// The bundle of a query that a chain drove to its end is the one that the
/// chain determines.
///
/// Its unknown headers are the header that the chain has under the latest
/// hash and then, for each header, the one that the chain has under its
/// parent hash, down to the first header that is a child of the previous
/// block. Its justification is the one that the chain has for the number of
/// the latest header. Its parachain headers are the proofs that the chain has
/// for the wanted parachain headers among those committed in the changed
/// relay blocks.
pub proof fn lemma_driven_bundle(
    chain: Chain,
    para_id: u32,
    latest: BlockHash,
    previous: BlockHash,
    targets: Seq<u32>,
    steps: nat,
)
    ensures
        ProofQueryView::start(para_id, latest, previous, targets).driven(chain, steps) matches Ok(
            state,
        ) ==> (state.stage is Done ==> {
            let bundle = state.bundle();
            let headers = bundle.finality_proof.unknown_headers;
            &&& headers.len() > 0
            &&& (chain.header)(latest) == Lookup::Found(headers[0])
            &&& forall|i: int|
                0 <= i < headers.len() - 1 ==> (#[trigger] headers[i]).parent_hash != previous && (
                chain.header)(headers[i].parent_hash) == Lookup::Found(headers[i + 1])
            &&& headers.last().parent_hash == previous
            &&& (chain.finality)(headers[0].number) matches Lookup::Found(finality)
            &&& finality.0@ == bundle.finality_proof.block
            &&& finality.1 == bundle.finality_proof.justification
            &&& bundle.parachain_headers == chain.wanted_proofs(
                para_id,
                targets,
                (chain.changes)(para_id, previous, latest),
            )
        }),
{
    let start = ProofQueryView::start(para_id, latest, previous, targets);
    assert(start.changes.take(0) =~= Seq::<BlockHash>::empty());
    start.lemma_driven_keeps_track(chain, steps);
    lemma_driven_keeps_the_question(start, chain, steps);
    if start.driven(chain, steps) is Ok {
        let state = start.driven(chain, steps)->Ok_0;
        if state.stage is Done {
            assert(state.changes.take(state.index) =~= state.changes);
        }
    }
}

/// No answer changes what a query was asked.
proof fn lemma_driven_keeps_the_question(start: ProofQueryView, chain: Chain, steps: nat)
    ensures
        start.driven(chain, steps) matches Ok(state) ==> {
            &&& state.para_id == start.para_id
            &&& state.latest == start.latest
            &&& state.previous == start.previous
            &&& state.targets == start.targets
        },
    decreases steps,
{
    if steps > 0 {
        lemma_driven_keeps_the_question(start, chain, (steps - 1) as nat);
    }
}

} // verus!
