use grandpa_prover::chain::ChainHeader;
use grandpa_prover::error::{DecodeError, Error, RequiredField};
use grandpa_prover::hash::BlockHash;
use grandpa_prover::header::Header;
use grandpa_prover::proto;
use parity_scale_codec::Encode;
use sp_core::H256;
use sp_runtime::generic::{Digest, DigestItem, Header as SubstrateHeader};
use sp_runtime::traits::BlakeTwo256;

fn relay_header(number: u32, parent: H256) -> SubstrateHeader<u32, BlakeTwo256> {
    SubstrateHeader::<u32, BlakeTwo256> {
        parent_hash: parent,
        number,
        state_root: H256::repeat_byte(0x11),
        extrinsics_root: H256::repeat_byte(0x22),
        digest: Digest { logs: vec![DigestItem::Other(vec![number as u8, 7])] },
    }
}

fn proofs(tag: u8) -> proto::ParachainHeaderProofs {
    proto::ParachainHeaderProofs {
        state_proof: vec![vec![tag, 1], vec![tag, 2, 3]],
        extrinsic: vec![tag, 9, 9],
        extrinsic_proof: vec![vec![tag]],
    }
}

fn wire_message() -> proto::Header {
    let first = relay_header(5, H256::repeat_byte(4));
    let second = relay_header(4, H256::repeat_byte(3));
    proto::Header {
        finality_proof: Some(proto::FinalityProof {
            block: vec![0xaa; 32],
            justification: vec![1, 2, 3, 4],
            unknown_headers: vec![first.encode(), second.encode()],
        }),
        parachain_headers: vec![
            proto::ParachainHeaderWithRelayHash {
                relay_hash: vec![0x07; 32],
                parachain_header: Some(proofs(7)),
            },
            proto::ParachainHeaderWithRelayHash {
                relay_hash: vec![0x03; 32],
                parachain_header: Some(proofs(3)),
            },
        ],
    }
}

#[test]
fn decoded_header_reports_the_fields_of_the_encoded_one() {
    let header = relay_header(42, H256::repeat_byte(0x5a));
    let decoded = ChainHeader::decode(&header.encode()).expect("a valid encoding decodes");
    assert_eq!(decoded.number(), 42);
    assert_eq!(decoded.parent_hash(), BlockHash([0x5a; 32]));
    assert_eq!(decoded.state_root(), BlockHash([0x11; 32]));
    assert_eq!(decoded.extrinsics_root(), BlockHash([0x22; 32]));
    assert_eq!(decoded.hash(), BlockHash(header.hash().0));
    assert_eq!(decoded.encode(), header.encode());
}

#[test]
fn decoding_ignores_trailing_bytes_and_keeps_the_canonical_encoding() {
    let header = relay_header(1, H256::zero());
    let mut bytes = header.encode();
    bytes.extend_from_slice(&[0xff, 0xff]);
    let decoded = ChainHeader::decode(&bytes).expect("the front of the bytes decodes");
    assert_eq!(decoded.encode(), header.encode());
    assert_eq!(decoded.hash(), BlockHash(header.hash().0));
}

#[test]
fn truncated_header_does_not_decode() {
    let bytes = relay_header(1, H256::zero()).encode();
    assert!(ChainHeader::decode(&bytes[..40]).is_none());
    assert!(ChainHeader::decode(&[]).is_none());
}

#[test]
fn wire_message_converts_to_header() {
    let header = Header::try_from(wire_message()).expect("a valid message converts");
    assert_eq!(header.finality_proof.block, BlockHash([0xaa; 32]));
    assert_eq!(header.finality_proof.justification, vec![1, 2, 3, 4]);
    assert_eq!(header.finality_proof.unknown_headers.len(), 2);
    assert_eq!(header.finality_proof.unknown_headers[0].number(), 5);
    assert_eq!(header.finality_proof.unknown_headers[1].number(), 4);
    assert_eq!(header.parachain_headers.len(), 2);
    let three = header.parachain_headers.get(&BlockHash([0x03; 32])).expect("entry is there");
    assert_eq!(three.state_proof, vec![vec![3, 1], vec![3, 2, 3]]);
    assert_eq!(three.extrinsic, vec![3, 9, 9]);
    assert_eq!(three.extrinsic_proof, vec![vec![3]]);
    assert!(header.parachain_headers.get(&BlockHash([0x07; 32])).is_some());
    assert!(header.parachain_headers.get(&BlockHash([0x08; 32])).is_none());
}

#[test]
fn header_survives_the_round_trip_through_the_wire() {
    let header = Header::try_from(wire_message()).expect("a valid message converts");
    let raw = proto::Header::from(header.clone());
    let again = Header::try_from(raw).expect("what was produced converts back");
    assert_eq!(again, header);
}

#[test]
fn wire_entries_come_out_in_ascending_order_of_their_relay_hashes() {
    let header = Header::try_from(wire_message()).expect("a valid message converts");
    let raw = proto::Header::from(header);
    assert_eq!(raw.parachain_headers.len(), 2);
    assert_eq!(raw.parachain_headers[0].relay_hash, vec![0x03; 32]);
    assert_eq!(raw.parachain_headers[0].parachain_header, Some(proofs(3)));
    assert_eq!(raw.parachain_headers[1].relay_hash, vec![0x07; 32]);
    assert_eq!(raw.parachain_headers[1].parachain_header, Some(proofs(7)));
    let proof = raw.finality_proof.expect("the finality proof is always there");
    assert_eq!(proof.block, vec![0xaa; 32]);
    assert_eq!(proof.justification, vec![1, 2, 3, 4]);
    assert_eq!(proof.unknown_headers[0], relay_header(5, H256::repeat_byte(4)).encode());
    assert_eq!(proof.unknown_headers[1], relay_header(4, H256::repeat_byte(3)).encode());
}

#[test]
fn later_entry_with_the_same_relay_hash_replaces_the_earlier_one() {
    let mut raw = wire_message();
    raw.parachain_headers.push(proto::ParachainHeaderWithRelayHash {
        relay_hash: vec![0x07; 32],
        parachain_header: Some(proofs(99)),
    });
    let header = Header::try_from(raw).expect("a valid message converts");
    assert_eq!(header.parachain_headers.len(), 2);
    let seven = header.parachain_headers.get(&BlockHash([0x07; 32])).expect("entry is there");
    assert_eq!(seven.extrinsic, vec![99, 9, 9]);
}

#[test]
fn missing_finality_proof_is_rejected() {
    let mut raw = wire_message();
    raw.finality_proof = None;
    assert_eq!(
        Header::try_from(raw),
        Err(Error::MissingRequiredField(RequiredField::FinalityProof))
    );
}

#[test]
fn block_hash_of_wrong_length_is_rejected() {
    let mut raw = wire_message();
    raw.finality_proof.as_mut().expect("present").block = vec![0xaa; 33];
    assert_eq!(Header::try_from(raw), Err(Error::Decode(DecodeError::HashLength(33))));
}

#[test]
fn relay_hash_of_31_bytes_in_the_first_entry_is_rejected_with_its_length() {
    let mut raw = wire_message();
    raw.parachain_headers[0].relay_hash = vec![0x07; 31];
    assert_eq!(Header::try_from(raw), Err(Error::Decode(DecodeError::HashLength(31))));
}

#[test]
fn entry_without_proofs_is_rejected() {
    let mut raw = wire_message();
    raw.parachain_headers[1].parachain_header = None;
    assert_eq!(
        Header::try_from(raw),
        Err(Error::MissingRequiredField(RequiredField::ParachainHeader))
    );
}

#[test]
fn first_defective_entry_decides_the_error() {
    let mut raw = wire_message();
    raw.parachain_headers[0].parachain_header = None;
    raw.parachain_headers[1].relay_hash = vec![0x03; 5];
    assert_eq!(
        Header::try_from(raw),
        Err(Error::MissingRequiredField(RequiredField::ParachainHeader))
    );
}

#[test]
fn entry_defect_comes_before_an_undecodable_header() {
    let mut raw = wire_message();
    raw.finality_proof.as_mut().expect("present").unknown_headers[0] = vec![1, 2, 3];
    raw.parachain_headers[1].relay_hash = vec![];
    assert_eq!(Header::try_from(raw), Err(Error::Decode(DecodeError::HashLength(0))));
}

#[test]
fn undecodable_unknown_header_is_rejected() {
    let mut raw = wire_message();
    raw.finality_proof.as_mut().expect("present").unknown_headers[1] = vec![1, 2, 3];
    assert_eq!(Header::try_from(raw), Err(Error::Decode(DecodeError::Header)));
}

#[test]
fn assemble_rejects_a_header_that_did_not_decode() {
    let good = ChainHeader::decode(&relay_header(3, H256::zero()).encode());
    assert!(good.is_some());
    let result = Header::assemble(vec![0; 32], vec![], vec![good, None], vec![]);
    assert_eq!(result, Err(Error::Decode(DecodeError::Header)));
}

#[test]
fn assemble_keeps_the_decoded_headers_in_order() {
    let a = ChainHeader::decode(&relay_header(3, H256::repeat_byte(2)).encode());
    let b = ChainHeader::decode(&relay_header(2, H256::repeat_byte(1)).encode());
    let header = Header::assemble(vec![9; 32], vec![5], vec![a.clone(), b.clone()], vec![])
        .expect("nothing is wrong");
    assert_eq!(header.finality_proof.block, BlockHash([9; 32]));
    assert_eq!(header.finality_proof.justification, vec![5]);
    assert_eq!(header.finality_proof.unknown_headers, vec![a.unwrap(), b.unwrap()]);
    assert_eq!(header.parachain_headers.len(), 0);
}
