use grandpa_prover::chain::ChainHeader;
use grandpa_prover::error::{DecodeError, Error, NotFound};
use grandpa_prover::hash::BlockHash;
use grandpa_prover::headers_query::HeadersQuery;
use grandpa_prover::primitives::{FinalityProof, ParachainHeadersWithFinalityProof};
use grandpa_prover::proof_query::ProofQuery;
use grandpa_prover::prover::{
    lookup_header, lookup_justification, GrandpaProver, JustificationNotification, Lookup, Request,
};
use parity_scale_codec::Encode;
use sp_core::H256;
use sp_runtime::generic::{Digest, DigestItem, Header as SubstrateHeader};
use sp_runtime::traits::BlakeTwo256;

type Block = SubstrateHeader<u32, BlakeTwo256>;

const PARA_ID: u32 = 2000;

fn block(number: u32, parent: H256, salt: u8) -> Block {
    Block {
        parent_hash: parent,
        number,
        state_root: H256::repeat_byte(salt),
        extrinsics_root: H256::repeat_byte(salt.wrapping_add(1)),
        digest: Digest { logs: vec![DigestItem::Other(vec![salt, number as u8])] },
    }
}

fn hash_of(header: &Block) -> BlockHash {
    BlockHash(header.hash().0)
}

/// A relay chain with consecutive blocks, the parachain heads committed in
/// some of them, and what the chain hands out for each request.
struct Chain {
    relay: Vec<Block>,
    heads: Vec<(u32, Block)>,
    justification: Vec<u8>,
    asked: Vec<Request>,
}

impl Chain {
    /// Relay blocks 1..=10; the parachain head changes in relay blocks 3, 6
    /// and 9, to the parachain blocks 1, 2 and 3.
    fn new() -> Chain {
        let mut relay: Vec<Block> = Vec::new();
        let mut parent = H256::repeat_byte(0xee);
        for number in 1..=10u32 {
            let header = block(number, parent, 0x10);
            parent = header.hash();
            relay.push(header);
        }
        let mut heads = Vec::new();
        let mut para_parent = H256::repeat_byte(0x01);
        for (relay_number, para_number) in [(3u32, 1u32), (6, 2), (9, 3)] {
            let head = block(para_number, para_parent, 0x70);
            para_parent = head.hash();
            heads.push((relay_number, head));
        }
        Chain { relay, heads, justification: vec![0xca, 0xfe, 0x01], asked: Vec::new() }
    }

    fn relay(&self, number: u32) -> &Block {
        &self.relay[(number - 1) as usize]
    }

    fn relay_hash(&self, number: u32) -> BlockHash {
        hash_of(self.relay(number))
    }

    fn find(&self, hash: BlockHash) -> Option<&Block> {
        self.relay.iter().find(|header| hash_of(header) == hash)
    }

    fn header(&self, hash: BlockHash) -> Option<Vec<u8>> {
        self.find(hash).map(|header| header.encode())
    }

    fn finality_proof(&self, number: u32) -> Option<JustificationNotification> {
        let header = self.relay.iter().find(|header| header.number == number)?;
        let unknown: Vec<Block> = vec![header.clone()];
        Some(JustificationNotification((header.hash(), self.justification.clone(), unknown).encode()))
    }

    fn changes(&self, from: BlockHash, to: BlockHash) -> Vec<BlockHash> {
        let from = self.find(from).map(|header| header.number).unwrap_or(0);
        let to = self.find(to).expect("the upper end exists").number;
        self.heads
            .iter()
            .filter(|(relay_number, _)| from < *relay_number && *relay_number <= to)
            .map(|(relay_number, _)| self.relay_hash(*relay_number))
            .collect()
    }

    fn head(&self, at: BlockHash) -> Vec<u8> {
        let number = self.find(at).expect("the block exists").number;
        let (_, head) = self
            .heads
            .iter()
            .find(|(relay_number, _)| *relay_number == number)
            .expect("the head changed in this block");
        head.encode()
    }

    fn parachain_header(&self, para_number: u32) -> &Block {
        &self.heads.iter().find(|(_, head)| head.number == para_number).expect("exists").1
    }

    fn storage_proof(&self, at: BlockHash) -> Vec<Vec<u8>> {
        vec![at.0.to_vec(), vec![0x5a]]
    }

    fn extrinsic(&self, at: BlockHash) -> (Vec<u8>, Vec<Vec<u8>>) {
        (vec![0x28, at.0[0]], vec![vec![at.0[1]], vec![at.0[2], 0x01]])
    }

    fn with_proof(
        &mut self,
        latest: BlockHash,
        previous: BlockHash,
        numbers: Vec<u32>,
    ) -> Result<ParachainHeadersWithFinalityProof, Error> {
        let prover = GrandpaProver { para_id: PARA_ID };
        let mut query: ProofQuery =
            prover.query_finalized_parachain_headers_with_proof(latest, previous, numbers);
        while let Some(request) = query.request() {
            self.asked.push(request);
            query = match request {
                Request::Header(hash) => query.on_header(self.header(hash))?,
                Request::FinalityProof(number) => {
                    query.on_justification(self.finality_proof(number))?
                }
                Request::StorageChanges { para_id, from, to } => {
                    assert_eq!(para_id, PARA_ID);
                    query.on_storage_changes(self.changes(from, to))
                }
                Request::ParachainHead { para_id, at } => {
                    assert_eq!(para_id, PARA_ID);
                    query.on_parachain_head(self.head(at))?
                }
                Request::StorageProof { para_id, at } => {
                    assert_eq!(para_id, PARA_ID);
                    query.on_storage_proof(self.storage_proof(at))
                }
                Request::TimestampExtrinsic { at } => {
                    let (extrinsic, proof) = self.extrinsic(at);
                    query.on_timestamp_extrinsic(extrinsic, proof)
                }
            };
        }
        Ok(query.finish().expect("a query with nothing left to ask is done"))
    }

    fn between(&mut self, latest: BlockHash, previous: BlockHash) -> Result<Vec<ChainHeader>, Error> {
        let prover = GrandpaProver { para_id: PARA_ID };
        let mut query: HeadersQuery =
            prover.query_finalized_parachain_headers_between(latest, previous);
        while let Some(request) = query.request() {
            self.asked.push(request);
            query = match request {
                Request::Header(hash) => query.on_header(self.header(hash))?,
                Request::StorageChanges { from, to, .. } => {
                    query.on_storage_changes(self.changes(from, to))
                }
                Request::ParachainHead { at, .. } => query.on_parachain_head(self.head(at))?,
                other => panic!("a headers query never asks for {:?}", other),
            };
        }
        Ok(query.finish().expect("a query with nothing left to ask is done"))
    }
}

fn decoded(header: &Block) -> ChainHeader {
    ChainHeader::decode(&header.encode()).expect("a valid encoding decodes")
}

#[test]
fn headers_between_returns_the_changed_heads_in_order() {
    let mut chain = Chain::new();
    let headers = chain.between(chain.relay_hash(9), chain.relay_hash(1)).expect("the query succeeds");
    assert_eq!(headers.len(), 3);
    assert_eq!(headers[0], decoded(chain.parachain_header(1)));
    assert_eq!(headers[1], decoded(chain.parachain_header(2)));
    assert_eq!(headers[2], decoded(chain.parachain_header(3)));
    assert_eq!(headers[0].number(), 1);
    assert_eq!(headers[1].number(), 2);
    assert_eq!(headers[2].number(), 3);
}

#[test]
fn headers_between_leaves_out_the_lower_end_and_takes_the_upper_one() {
    let mut chain = Chain::new();
    let headers = chain.between(chain.relay_hash(6), chain.relay_hash(3)).expect("the query succeeds");
    assert_eq!(headers.len(), 1);
    assert_eq!(headers[0].number(), 2);
}

#[test]
fn headers_between_asks_for_changes_then_header_and_head_of_each_block() {
    let mut chain = Chain::new();
    chain.between(chain.relay_hash(7), chain.relay_hash(1)).expect("the query succeeds");
    let three = chain.relay_hash(3);
    let six = chain.relay_hash(6);
    assert_eq!(
        chain.asked,
        vec![
            Request::StorageChanges {
                para_id: PARA_ID,
                from: chain.relay_hash(1),
                to: chain.relay_hash(7)
            },
            Request::Header(three),
            Request::ParachainHead { para_id: PARA_ID, at: three },
            Request::Header(six),
            Request::ParachainHead { para_id: PARA_ID, at: six },
        ]
    );
}

#[test]
fn headers_between_without_changes_is_empty() {
    let mut chain = Chain::new();
    let headers = chain.between(chain.relay_hash(5), chain.relay_hash(3)).expect("the query succeeds");
    assert!(headers.is_empty());
}

#[test]
fn headers_between_fails_when_a_changed_block_has_no_header() {
    let chain = Chain::new();
    let prover = GrandpaProver { para_id: PARA_ID };
    let missing = BlockHash([0x42; 32]);
    let query = prover
        .query_finalized_parachain_headers_between(chain.relay_hash(9), chain.relay_hash(1))
        .on_storage_changes(vec![missing]);
    assert_eq!(query.request(), Some(Request::Header(missing)));
    assert_eq!(query.on_header(None).err(), Some(Error::NotFound(NotFound::Header(missing))));
}

#[test]
fn headers_between_fails_on_a_head_that_does_not_decode() {
    let chain = Chain::new();
    let prover = GrandpaProver { para_id: PARA_ID };
    let three = chain.relay_hash(3);
    let query = prover
        .query_finalized_parachain_headers_between(chain.relay_hash(9), chain.relay_hash(1))
        .on_storage_changes(vec![three])
        .on_header(chain.header(three))
        .expect("the header is the right one");
    assert_eq!(query.request(), Some(Request::ParachainHead { para_id: PARA_ID, at: three }));
    assert_eq!(query.on_parachain_head(vec![1, 2, 3]).err(), Some(Error::Decode(DecodeError::Header)));
}

#[test]
fn headers_query_is_not_finished_before_the_scan_is_over() {
    let chain = Chain::new();
    let prover = GrandpaProver { para_id: PARA_ID };
    let query =
        prover.query_finalized_parachain_headers_between(chain.relay_hash(9), chain.relay_hash(1));
    assert!(query.finish().is_none());
}

#[test]
fn proof_for_one_target_holds_one_entry_and_the_headers_back_to_the_previous_block() {
    let mut chain = Chain::new();
    let bundle = chain
        .with_proof(chain.relay_hash(9), chain.relay_hash(1), vec![2])
        .expect("the query succeeds");
    let six = chain.relay_hash(6);
    assert_eq!(bundle.parachain_headers.len(), 1);
    assert_eq!(bundle.parachain_headers.key_at(0), six);
    let proofs = bundle.parachain_headers.get(&six).expect("the entry is there");
    assert_eq!(proofs.state_proof, chain.storage_proof(six));
    let para_hash = hash_of(chain.parachain_header(2));
    assert_eq!(proofs.extrinsic, chain.extrinsic(para_hash).0);
    assert_eq!(proofs.extrinsic_proof, chain.extrinsic(para_hash).1);
    let numbers: Vec<u32> =
        bundle.finality_proof.unknown_headers.iter().map(|header| header.number()).collect();
    assert_eq!(numbers, vec![9, 8, 7, 6, 5, 4, 3, 2]);
    for (position, header) in bundle.finality_proof.unknown_headers.iter().enumerate() {
        assert_eq!(*header, decoded(chain.relay(9 - position as u32)));
    }
    assert_eq!(bundle.finality_proof.block, chain.relay_hash(9));
    assert_eq!(bundle.finality_proof.justification, vec![0xca, 0xfe, 0x01]);
}

#[test]
fn unknown_headers_are_contiguous_and_end_at_the_previous_block() {
    let mut chain = Chain::new();
    let previous = chain.relay_hash(4);
    let bundle =
        chain.with_proof(chain.relay_hash(10), previous, vec![1, 2, 3]).expect("the query succeeds");
    let headers = &bundle.finality_proof.unknown_headers;
    assert_eq!(headers.len(), 6);
    assert_eq!(headers[0].hash(), chain.relay_hash(10));
    for i in 0..headers.len() - 1 {
        assert_eq!(headers[i].parent_hash(), headers[i + 1].hash());
    }
    assert_eq!(headers[headers.len() - 1].parent_hash(), previous);
}

#[test]
fn proof_query_asks_in_the_order_of_its_three_passes() {
    let mut chain = Chain::new();
    chain.with_proof(chain.relay_hash(6), chain.relay_hash(4), vec![2]).expect("the query succeeds");
    let six = chain.relay_hash(6);
    assert_eq!(
        chain.asked,
        vec![
            Request::Header(six),
            Request::FinalityProof(6),
            Request::Header(chain.relay_hash(5)),
            Request::StorageChanges { para_id: PARA_ID, from: chain.relay_hash(4), to: six },
            Request::Header(six),
            Request::ParachainHead { para_id: PARA_ID, at: six },
            Request::StorageProof { para_id: PARA_ID, at: six },
            Request::TimestampExtrinsic { at: hash_of(chain.parachain_header(2)) },
        ]
    );
}

#[test]
fn heads_that_were_not_asked_for_get_no_proofs() {
    let mut chain = Chain::new();
    let bundle = chain
        .with_proof(chain.relay_hash(9), chain.relay_hash(1), vec![1, 3, 77])
        .expect("the query succeeds");
    assert_eq!(bundle.parachain_headers.len(), 2);
    assert!(bundle.parachain_headers.contains_key(&chain.relay_hash(3)));
    assert!(!bundle.parachain_headers.contains_key(&chain.relay_hash(6)));
    assert!(bundle.parachain_headers.contains_key(&chain.relay_hash(9)));
    assert!(chain.asked.iter().all(|request| {
        *request != Request::StorageProof { para_id: PARA_ID, at: chain.relay_hash(6) }
    }));
}

#[test]
fn no_targets_give_no_proofs() {
    let mut chain = Chain::new();
    let bundle =
        chain.with_proof(chain.relay_hash(9), chain.relay_hash(1), vec![]).expect("the query succeeds");
    assert_eq!(bundle.parachain_headers.len(), 0);
    assert_eq!(bundle.finality_proof.unknown_headers.len(), 8);
}

#[test]
fn genesis_head_gets_no_proofs_even_when_asked_for() {
    let mut chain = Chain::new();
    let genesis = block(0, H256::zero(), 0x70);
    chain.heads.insert(0, (2, genesis));
    let bundle = chain
        .with_proof(chain.relay_hash(9), chain.relay_hash(1), vec![0, 1])
        .expect("the query succeeds");
    assert_eq!(bundle.parachain_headers.len(), 1);
    assert!(!bundle.parachain_headers.contains_key(&chain.relay_hash(2)));
    assert!(bundle.parachain_headers.contains_key(&chain.relay_hash(3)));
}

#[test]
fn latest_block_whose_parent_is_the_previous_one_needs_no_walk() {
    let mut chain = Chain::new();
    let bundle =
        chain.with_proof(chain.relay_hash(3), chain.relay_hash(2), vec![1]).expect("the query succeeds");
    assert_eq!(bundle.finality_proof.unknown_headers.len(), 1);
    assert_eq!(bundle.finality_proof.unknown_headers[0].number(), 3);
    assert_eq!(bundle.parachain_headers.len(), 1);
    assert!(chain.asked.iter().filter(|request| matches!(request, Request::Header(_))).count() == 2);
}

#[test]
fn previous_hash_that_is_no_ancestor_breaks_the_chain() {
    let mut chain = Chain::new();
    let stranger = BlockHash([0x99; 32]);
    let result = chain.with_proof(chain.relay_hash(9), stranger, vec![2]);
    assert_eq!(result.err(), Some(Error::ChainDiscontinuity(BlockHash([0xee; 32]))));
}

#[test]
fn previous_hash_above_the_latest_breaks_the_chain() {
    let mut chain = Chain::new();
    let result = chain.with_proof(chain.relay_hash(5), chain.relay_hash(8), vec![2]);
    assert_eq!(result.err(), Some(Error::ChainDiscontinuity(BlockHash([0xee; 32]))));
}

#[test]
fn walk_stops_when_the_block_number_allows_no_more_parents() {
    let first = block(2, H256::repeat_byte(0x31), 1);
    let second = block(7, H256::repeat_byte(0x32), 2);
    let third = block(8, H256::repeat_byte(0x33), 3);
    let mut second = second;
    second.parent_hash = third.hash();
    let mut first = first;
    first.parent_hash = second.hash();
    let prover = GrandpaProver { para_id: PARA_ID };
    let finality = (first.hash(), vec![1u8], Vec::<Block>::new()).encode();
    let query = prover
        .query_finalized_parachain_headers_with_proof(hash_of(&first), BlockHash([0; 32]), vec![])
        .on_header(Some(first.encode()))
        .expect("the latest header is taken")
        .on_justification(Some(JustificationNotification(finality)))
        .expect("one parent may be fetched");
    assert_eq!(query.request(), Some(Request::Header(hash_of(&second))));
    let query = query.on_header(Some(second.encode())).expect("a second parent may be fetched");
    assert_eq!(query.request(), Some(Request::Header(hash_of(&third))));
    assert_eq!(
        query.on_header(Some(third.encode())).err(),
        Some(Error::ChainDiscontinuity(BlockHash([0x33; 32])))
    );
}

#[test]
fn latest_block_of_number_zero_allows_no_walk() {
    let genesis = block(0, H256::repeat_byte(0x44), 1);
    let prover = GrandpaProver { para_id: PARA_ID };
    let finality = (genesis.hash(), vec![1u8], Vec::<Block>::new()).encode();
    let result = prover
        .query_finalized_parachain_headers_with_proof(hash_of(&genesis), BlockHash([0; 32]), vec![])
        .on_header(Some(genesis.encode()))
        .expect("the latest header is taken")
        .on_justification(Some(JustificationNotification(finality)));
    assert_eq!(result.err(), Some(Error::ChainDiscontinuity(BlockHash([0x44; 32]))));
}

#[test]
fn unknown_latest_block_is_not_found() {
    let mut chain = Chain::new();
    let stranger = BlockHash([0x99; 32]);
    let result = chain.with_proof(stranger, chain.relay_hash(1), vec![2]);
    assert_eq!(result.err(), Some(Error::NotFound(NotFound::Header(stranger))));
}

#[test]
fn header_with_another_hash_than_asked_for_is_not_taken() {
    let chain = Chain::new();
    let prover = GrandpaProver { para_id: PARA_ID };
    let nine = chain.relay_hash(9);
    let query = prover.query_finalized_parachain_headers_with_proof(nine, chain.relay_hash(1), vec![]);
    assert_eq!(
        query.on_header(chain.header(chain.relay_hash(8))).err(),
        Some(Error::NotFound(NotFound::Header(nine)))
    );
}

#[test]
fn parent_with_another_hash_than_asked_for_breaks_the_chain() {
    let chain = Chain::new();
    let prover = GrandpaProver { para_id: PARA_ID };
    let nine = chain.relay_hash(9);
    let query = prover
        .query_finalized_parachain_headers_with_proof(nine, chain.relay_hash(1), vec![])
        .on_header(chain.header(nine))
        .expect("the latest header is taken")
        .on_justification(chain.finality_proof(9))
        .expect("the walk starts");
    assert_eq!(query.request(), Some(Request::Header(chain.relay_hash(8))));
    assert_eq!(
        query.on_header(chain.header(chain.relay_hash(7))).err(),
        Some(Error::ChainDiscontinuity(chain.relay_hash(8)))
    );
}

#[test]
fn missing_justification_is_not_found() {
    let chain = Chain::new();
    let prover = GrandpaProver { para_id: PARA_ID };
    let nine = chain.relay_hash(9);
    let query = prover
        .query_finalized_parachain_headers_with_proof(nine, chain.relay_hash(1), vec![])
        .on_header(chain.header(nine))
        .expect("the latest header is taken");
    assert_eq!(query.request(), Some(Request::FinalityProof(9)));
    assert_eq!(query.on_justification(None).err(), Some(Error::NotFound(NotFound::Justification(9))));
}

#[test]
fn justification_that_does_not_decode_is_rejected() {
    let chain = Chain::new();
    let prover = GrandpaProver { para_id: PARA_ID };
    let nine = chain.relay_hash(9);
    let query = prover
        .query_finalized_parachain_headers_with_proof(nine, chain.relay_hash(1), vec![])
        .on_header(chain.header(nine))
        .expect("the latest header is taken");
    assert_eq!(
        query.on_justification(Some(JustificationNotification(vec![1, 2, 3]))).err(),
        Some(Error::Decode(DecodeError::FinalityProof))
    );
}

#[test]
fn header_bytes_that_do_not_decode_are_rejected() {
    let chain = Chain::new();
    let prover = GrandpaProver { para_id: PARA_ID };
    let query = prover.query_finalized_parachain_headers_with_proof(
        chain.relay_hash(9),
        chain.relay_hash(1),
        vec![],
    );
    assert_eq!(query.on_header(Some(vec![0xff; 7])).err(), Some(Error::Decode(DecodeError::Header)));
}

#[test]
fn answer_to_something_that_was_not_asked_changes_nothing() {
    let chain = Chain::new();
    let prover = GrandpaProver { para_id: PARA_ID };
    let nine = chain.relay_hash(9);
    let query = prover
        .query_finalized_parachain_headers_with_proof(nine, chain.relay_hash(1), vec![2])
        .on_storage_changes(vec![chain.relay_hash(3)])
        .on_storage_proof(vec![vec![1]])
        .on_timestamp_extrinsic(vec![2], vec![vec![3]])
        .on_parachain_head(vec![4])
        .expect("a stray head is ignored")
        .on_justification(None)
        .expect("a stray justification is ignored");
    assert_eq!(query.request(), Some(Request::Header(nine)));
    assert!(query.finish().is_none());
}

#[test]
fn relay_block_reported_twice_keeps_the_proofs_fetched_last() {
    let chain = Chain::new();
    let prover = GrandpaProver { para_id: PARA_ID };
    let three = chain.relay_hash(3);
    let mut query = prover
        .query_finalized_parachain_headers_with_proof(three, chain.relay_hash(2), vec![1])
        .on_header(chain.header(three))
        .expect("the latest header is taken")
        .on_justification(chain.finality_proof(3))
        .expect("the walk is over at once");
    query = query.on_storage_changes(vec![three, three]);
    for round in 1..=2u8 {
        query = query
            .on_header(chain.header(three))
            .expect("the header is the right one")
            .on_parachain_head(chain.head(three))
            .expect("the head decodes")
            .on_storage_proof(vec![vec![round]])
            .on_timestamp_extrinsic(vec![round, round], vec![]);
    }
    let bundle = query.finish().expect("the scan is over");
    assert_eq!(bundle.parachain_headers.len(), 1);
    let proofs = bundle.parachain_headers.get(&three).expect("the entry is there");
    assert_eq!(proofs.state_proof, vec![vec![2u8]]);
    assert_eq!(proofs.extrinsic, vec![2u8, 2]);
}

#[test]
fn finality_proof_decodes_to_its_block_and_justification() {
    let header = block(4, H256::repeat_byte(3), 9);
    let encoded = (H256::repeat_byte(0xab), vec![9u8, 8, 7], vec![header]).encode();
    let finality = FinalityProof::decode(&encoded).expect("a valid encoding decodes");
    assert_eq!(finality.block, BlockHash([0xab; 32]));
    assert_eq!(finality.justification, vec![9, 8, 7]);
    assert!(finality.unknown_headers.is_empty());
    assert!(FinalityProof::decode(&encoded[..20]).is_none());
}

#[test]
fn lookups_tell_missing_from_malformed_from_found() {
    let header = block(4, H256::repeat_byte(3), 9);
    assert_eq!(lookup_header(None), Lookup::NotFound);
    assert_eq!(lookup_header(Some(vec![1])), Lookup::Malformed);
    assert_eq!(lookup_header(Some(header.encode())), Lookup::Found(decoded(&header)));
    assert_eq!(lookup_justification(None), Lookup::NotFound);
    assert_eq!(lookup_justification(Some(JustificationNotification(vec![1]))), Lookup::Malformed);
    let encoded = (H256::repeat_byte(1), vec![2u8], Vec::<Block>::new()).encode();
    assert_eq!(
        lookup_justification(Some(JustificationNotification(encoded))),
        Lookup::Found(FinalityProof {
            block: BlockHash([1; 32]),
            justification: vec![2],
            unknown_headers: vec![]
        })
    );
}

#[test]
fn decoded_queries_take_what_was_looked_up() {
    let chain = Chain::new();
    let prover = GrandpaProver { para_id: PARA_ID };
    let three = chain.relay_hash(3);
    let query = prover
        .query_finalized_parachain_headers_with_proof(three, chain.relay_hash(2), vec![1])
        .with_header(Lookup::Found(decoded(chain.relay(3))))
        .expect("the latest header is taken")
        .with_justification(Lookup::Found(FinalityProof {
            block: three,
            justification: vec![5],
            unknown_headers: vec![],
        }))
        .expect("the walk is over at once")
        .on_storage_changes(vec![three])
        .with_header(Lookup::Found(decoded(chain.relay(3))))
        .expect("the header is the right one")
        .with_parachain_head(Some(decoded(chain.parachain_header(1))))
        .expect("the head is wanted");
    assert_eq!(query.request(), Some(Request::StorageProof { para_id: PARA_ID, at: three }));
    let query = prover
        .query_finalized_parachain_headers_between(three, chain.relay_hash(2))
        .on_storage_changes(vec![three])
        .with_header(Lookup::Found(decoded(chain.relay(3))))
        .expect("the header is the right one")
        .with_parachain_head(None);
    assert_eq!(query.err(), Some(Error::Decode(DecodeError::Header)));
}

#[test]
fn walk_that_reaches_the_genesis_block_asks_for_nothing_below_it() {
    let mut chain = Chain::new();
    let mut relay: Vec<Block> = Vec::new();
    let mut parent = H256::zero();
    for number in 0..=3u32 {
        let header = block(number, parent, 0x20);
        parent = header.hash();
        relay.push(header);
    }
    let latest = hash_of(&relay[3]);
    chain.relay = relay;
    chain.heads.clear();
    let result = chain.with_proof(latest, BlockHash([0x99; 32]), vec![]);
    assert_eq!(result.err(), Some(Error::ChainDiscontinuity(BlockHash([0; 32]))));
    let asked: Vec<Request> = chain.asked.clone();
    assert_eq!(asked.len(), 5);
    assert_eq!(asked[0], Request::Header(latest));
    assert_eq!(asked[1], Request::FinalityProof(3));
    assert_eq!(asked[4], Request::Header(hash_of(&chain.relay[0])));
    assert!(!asked.contains(&Request::Header(BlockHash([0; 32]))));
}
