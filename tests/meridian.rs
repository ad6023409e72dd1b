use meridian::codec::{
    create_transaction_payload, decode_transaction_payload, MeridianMessageType, PostMessageData, CONSISTENCY_LEVEL_FINALIZED,
    MAX_CALL_DATA_SIZE, PAYLOAD_HEADER_LEN, PAYLOAD_VERSION,
};
use meridian::errors::MeridianError;
use meridian::state::{initialize, same_key, CrossChainProposal, MeridianConfig, ProposalStatus};
use meridian::store::ProposalStore;

fn key(last: u8) -> [u8; 32] {
    let mut k = [0u8; 32];
    k[31] = last;
    k
}

fn config_for(multisig: [u8; 32]) -> MeridianConfig {
    initialize(key(200), multisig, key(201), key(202), key(203), key(204), 254, 255)
}

fn submit(
    store: &mut ProposalStore,
    config: &MeridianConfig,
    multisig: [u8; 32],
    index: u64,
    call_data: Vec<u8>,
) -> Result<(), MeridianError> {
    store.propose_transaction(config, multisig, index, 2, key(1), call_data, 100000, 1_700_000_000, 7)
}

fn le_u64(b: &[u8]) -> u64 {
    let mut a = [0u8; 8];
    a.copy_from_slice(b);
    u64::from_le_bytes(a)
}

#[test]
fn payload_layout_is_exact() {
    let proposal_key = [0x11u8; 32];
    let target_address = key(1);
    let payload = create_transaction_payload(
        proposal_key,
        2,
        target_address,
        vec![0xAA, 0xBB],
        100000,
        0x0102030405060708,
        -2,
    );
    assert_eq!(payload.len(), 102);
    assert_eq!(payload[0], 1);
    assert_eq!(payload[1], 1);
    assert_eq!(&payload[2..10], &[8, 7, 6, 5, 4, 3, 2, 1]);
    assert_eq!(&payload[10..18], &[0xFE, 0xFF, 0xFF, 0xFF, 0xFF, 0xFF, 0xFF, 0xFF]);
    assert_eq!(&payload[18..22], &[0, 0, 0, 0]);
    assert_eq!(&payload[22..54], &proposal_key);
    assert_eq!(&payload[54..56], &[2, 0]);
    assert_eq!(&payload[56..88], &target_address);
    assert_eq!(&payload[88..96], &[0xA0, 0x86, 0x01, 0, 0, 0, 0, 0]);
    assert_eq!(&payload[96..100], &[2, 0, 0, 0]);
    assert_eq!(&payload[100..], &[0xAA, 0xBB]);
}

#[test]
fn payload_fields_read_back() {
    let call_data: Vec<u8> = (0..=255u8).collect();
    let payload = create_transaction_payload(key(9), 0xBEEF, key(3), call_data.clone(), u64::MAX, 42, i64::MIN);
    assert_eq!(payload.len(), PAYLOAD_HEADER_LEN + call_data.len());
    assert_eq!(payload[0], PAYLOAD_VERSION);
    assert_eq!(le_u64(&payload[2..10]), 42);
    assert_eq!(le_u64(&payload[10..18]) as i64, i64::MIN);
    assert_eq!(u16::from_le_bytes([payload[54], payload[55]]), 0xBEEF);
    assert_eq!(le_u64(&payload[88..96]), u64::MAX);
    assert_eq!(u32::from_le_bytes([payload[96], payload[97], payload[98], payload[99]]), 256);
    assert_eq!(&payload[100..], &call_data[..]);
}

#[test]
fn payload_with_empty_call_data_is_header_only() {
    let payload = create_transaction_payload(key(0), 0, key(0), Vec::new(), 0, 0, 0);
    assert_eq!(payload.len(), 100);
    assert_eq!(&payload[96..100], &[0, 0, 0, 0]);
}

#[test]
fn message_type_code() {
    assert_eq!(MeridianMessageType::Transaction.code(), 1);
}

#[test]
fn instruction_data_frames_message() {
    let m = PostMessageData { nonce: 0x01020304, payload: vec![9, 8, 7], consistency_level: CONSISTENCY_LEVEL_FINALIZED };
    let data = m.to_instruction_data().unwrap();
    assert_eq!(data, vec![4, 3, 2, 1, 3, 0, 0, 0, 9, 8, 7, 1]);
}

#[test]
fn sizes() {
    assert_eq!(CrossChainProposal::space(0), 122);
    assert_eq!(CrossChainProposal::space(10000), 10122);
    assert_eq!(MeridianConfig::SIZE, 210);
}

#[test]
fn key_comparison() {
    assert!(same_key(&key(5), &key(5)));
    assert!(!same_key(&key(5), &key(6)));
}

#[test]
fn initialize_starts_sequence_at_zero() {
    let c = config_for(key(77));
    assert_eq!(c.sequence, 0);
    assert_eq!(c.authorized_multisig, key(77));
    assert_eq!(c.authority, key(200));
    assert_eq!(c.emitter, key(204));
    assert_eq!(c.emitter_bump, 254);
    assert_eq!(c.bump, 255);
}

#[test]
fn submit_stores_pending_record() {
    let m = key(77);
    let config = config_for(m);
    let mut store = ProposalStore::new();
    assert_eq!(submit(&mut store, &config, m, 7, vec![0xAA, 0xBB]), Ok(()));
    let i = store.find(&m, 7).unwrap();
    let p = &store.proposals[i];
    assert_eq!(p.status, ProposalStatus::Pending);
    assert_eq!(p.wormhole_sequence, None);
    assert_eq!(p.executed_at, None);
    assert_eq!(p.created_at, 1_700_000_000);
    assert_eq!(p.call_data, vec![0xAA, 0xBB]);
    assert_eq!(p.target_chain, 2);
    assert_eq!(p.gas_limit, 100000);
}

#[test]
fn submit_by_foreign_owner_is_refused() {
    let config = config_for(key(77));
    let mut store = ProposalStore::new();
    assert_eq!(submit(&mut store, &config, key(78), 7, vec![]), Err(MeridianError::UnauthorizedMultisig));
    assert_eq!(store.proposals.len(), 0);
}

#[test]
fn call_data_size_boundary() {
    let m = key(77);
    let config = config_for(m);
    let mut store = ProposalStore::new();
    assert_eq!(
        submit(&mut store, &config, m, 1, vec![0u8; MAX_CALL_DATA_SIZE + 1]),
        Err(MeridianError::CallDataTooLarge)
    );
    assert_eq!(store.proposals.len(), 0);
    assert_eq!(submit(&mut store, &config, m, 1, vec![0u8; MAX_CALL_DATA_SIZE]), Ok(()));
    assert_eq!(store.proposals.len(), 1);
}

#[test]
fn duplicate_submission_is_refused() {
    let m = key(77);
    let config = config_for(m);
    let mut store = ProposalStore::new();
    assert_eq!(submit(&mut store, &config, m, 7, vec![1]), Ok(()));
    assert_eq!(
        store.propose_transaction(&config, m, 7, 9, key(9), vec![2, 3], 5, 99, 1),
        Err(MeridianError::DuplicateIndex)
    );
    assert_eq!(store.proposals.len(), 1);
    let p = &store.proposals[0];
    assert_eq!(p.call_data, vec![1]);
    assert_eq!(p.target_chain, 2);
    assert_eq!(p.status, ProposalStatus::Pending);
    assert_eq!(submit(&mut store, &config, m, 8, vec![1]), Ok(()));
}

#[test]
fn approval_then_execution_scenario() {
    let m = key(77);
    let mut config = config_for(m);
    config.sequence = 4;
    let mut store = ProposalStore::new();
    assert_eq!(submit(&mut store, &config, m, 7, vec![0xAA, 0xBB]), Ok(()));

    let mut sent_calls = 0;
    let r = store.execute_proposal(&mut config, m, 7, false, key(50), 1_700_000_100, |_msg| {
        sent_calls += 1;
        true
    });
    assert_eq!(r, Err(MeridianError::ProposalNotApproved));
    assert_eq!(sent_calls, 0);
    assert_eq!(config.sequence, 4);
    assert_eq!(store.proposals[0].status, ProposalStatus::Pending);

    let mut seen: Option<PostMessageData> = None;
    let r = store.execute_proposal(&mut config, m, 7, true, key(50), 1_700_000_100, |msg| {
        seen = Some(msg);
        true
    });
    assert_eq!(r, Ok(5));
    assert_eq!(config.sequence, 5);
    let msg = seen.unwrap();
    assert_eq!(msg.payload.len(), 102);
    assert_eq!(msg.nonce, 0);
    assert_eq!(msg.consistency_level, CONSISTENCY_LEVEL_FINALIZED);
    assert_eq!(le_u64(&msg.payload[2..10]), 5);
    assert_eq!(&msg.payload[22..54], &key(50));
    let p = &store.proposals[0];
    assert_eq!(p.status, ProposalStatus::Executed);
    assert_eq!(p.wormhole_sequence, Some(5));
    assert_eq!(p.executed_at, Some(1_700_000_100));
}

#[test]
fn second_execution_is_refused() {
    let m = key(77);
    let mut config = config_for(m);
    let mut store = ProposalStore::new();
    assert_eq!(submit(&mut store, &config, m, 7, vec![1]), Ok(()));
    assert_eq!(store.execute_proposal(&mut config, m, 7, true, key(50), 10, |_msg| true), Ok(1));
    assert_eq!(
        store.execute_proposal(&mut config, m, 7, true, key(50), 11, |_msg| true),
        Err(MeridianError::ProposalNotPending)
    );
    assert_eq!(config.sequence, 1);
    assert_eq!(store.proposals[0].wormhole_sequence, Some(1));
    assert_eq!(store.proposals[0].executed_at, Some(10));
}

#[test]
fn executing_unknown_proposal_is_not_found() {
    let m = key(77);
    let mut config = config_for(m);
    let mut store = ProposalStore::new();
    assert_eq!(
        store.execute_proposal(&mut config, m, 7, true, key(50), 10, |_msg| true),
        Err(MeridianError::ProposalNotFound)
    );
    assert_eq!(submit(&mut store, &config, m, 7, vec![1]), Ok(()));
    assert_eq!(
        store.execute_proposal(&mut config, m, 8, true, key(50), 10, |_msg| true),
        Err(MeridianError::ProposalNotFound)
    );
    assert_eq!(config.sequence, 0);
}

#[test]
fn executing_for_foreign_owner_is_refused() {
    let m = key(77);
    let other = key(78);
    let mut config = config_for(other);
    let mut store = ProposalStore::new();
    let mut open_config = config_for(m);
    assert_eq!(submit(&mut store, &open_config, m, 7, vec![1]), Ok(()));
    assert_eq!(
        store.execute_proposal(&mut config, m, 7, true, key(50), 10, |_msg| true),
        Err(MeridianError::UnauthorizedMultisig)
    );
    assert_eq!(config.sequence, 0);
    assert_eq!(store.execute_proposal(&mut open_config, m, 7, true, key(50), 10, |_msg| true), Ok(1));
}

#[test]
fn failed_send_consumes_sequence_and_stays_pending() {
    let m = key(77);
    let mut config = config_for(m);
    let mut store = ProposalStore::new();
    assert_eq!(submit(&mut store, &config, m, 7, vec![1]), Ok(()));
    assert_eq!(
        store.execute_proposal(&mut config, m, 7, true, key(50), 10, |_msg| false),
        Err(MeridianError::FailedToSendMessage)
    );
    assert_eq!(config.sequence, 1);
    assert_eq!(store.proposals[0].status, ProposalStatus::Pending);
    assert_eq!(store.proposals[0].wormhole_sequence, None);
    assert_eq!(store.execute_proposal(&mut config, m, 7, true, key(50), 11, |_msg| true), Ok(2));
    assert_eq!(store.proposals[0].wormhole_sequence, Some(2));
}

#[test]
fn sequence_refs_increase_across_executions() {
    let m = key(77);
    let mut config = config_for(m);
    let mut store = ProposalStore::new();
    for idx in 0..4u64 {
        assert_eq!(submit(&mut store, &config, m, idx, vec![idx as u8]), Ok(()));
    }
    let order = [2u64, 0, 3, 1];
    let mut last = 0u64;
    for idx in order {
        let s = store.execute_proposal(&mut config, m, idx, true, key(50), 10, |_msg| true).unwrap();
        assert!(s > last);
        last = s;
        let i = store.find(&m, idx).unwrap();
        assert_eq!(store.proposals[i].wormhole_sequence, Some(s));
    }
    assert_eq!(config.sequence, 4);
    assert_eq!(store.proposals[2].wormhole_sequence, Some(1));
    assert_eq!(store.proposals[1].wormhole_sequence, Some(4));
}

#[test]
fn decode_recovers_encoded_fields() {
    let payload = create_transaction_payload(key(9), 2, key(1), vec![0xAA, 0xBB], 100000, 5, -7);
    let t = decode_transaction_payload(&payload).unwrap();
    assert_eq!(t.sequence, 5);
    assert_eq!(t.timestamp, -7);
    assert_eq!(t.nonce, 0);
    assert_eq!(t.proposal_key, key(9).to_vec());
    assert_eq!(t.target_chain, 2);
    assert_eq!(t.target_address, key(1).to_vec());
    assert_eq!(t.gas_limit, 100000);
    assert_eq!(t.call_data, vec![0xAA, 0xBB]);
}

#[test]
fn decode_round_trip_at_call_data_bound() {
    let data = vec![0x5Au8; MAX_CALL_DATA_SIZE];
    let payload = create_transaction_payload(key(4), u16::MAX, key(5), data.clone(), 1, u64::MAX, i64::MAX);
    assert_eq!(payload.len(), 100 + MAX_CALL_DATA_SIZE);
    let t = decode_transaction_payload(&payload).unwrap();
    assert_eq!(t.sequence, u64::MAX);
    assert_eq!(t.timestamp, i64::MAX);
    assert_eq!(t.target_chain, u16::MAX);
    assert_eq!(t.call_data, data);
}

#[test]
fn decode_refuses_malformed_bytes() {
    let payload = create_transaction_payload(key(9), 2, key(1), vec![1, 2, 3], 10, 5, 0);
    let mut wrong_version = payload.clone();
    wrong_version[0] = 2;
    assert!(decode_transaction_payload(&wrong_version).is_none());
    let mut wrong_kind = payload.clone();
    wrong_kind[1] = 0;
    assert!(decode_transaction_payload(&wrong_kind).is_none());
    assert!(decode_transaction_payload(&payload[..99]).is_none());
    assert!(decode_transaction_payload(&payload[..payload.len() - 1]).is_none());
    let mut longer = payload.clone();
    longer.push(0);
    assert!(decode_transaction_payload(&longer).is_none());
    assert!(decode_transaction_payload(&payload).is_some());
}
