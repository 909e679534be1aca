use av_layer::handler::{AvError, TransactionHandler};
use av_layer::primitives::{BlockchainNetwork, ConfirmationStatus, VaneCallData, VaneMultiAddress};
use sp_core::sr25519;
use sp_core::Pair;

fn key(seed: u8) -> sr25519::Pair {
    sr25519::Pair::from_seed(&[seed; 32])
}

fn address_of(pair: &sr25519::Pair) -> VaneMultiAddress {
    VaneMultiAddress::Address32(pair.public().0)
}

fn sign(pair: &sr25519::Pair, message: &[u8]) -> Vec<u8> {
    pair.sign(message).0.to_vec()
}

/// Submits a transfer from `s` to `r` and returns the handler, the commitment and the identifier.
fn submitted(s: &sr25519::Pair, r: &sr25519::Pair, amount: u128) -> (TransactionHandler, VaneMultiAddress, [u8; 32]) {
    let mut h = TransactionHandler::new(7);
    h.submit_transaction(
        VaneCallData::SubstrateCallData { amount },
        address_of(s),
        address_of(r),
        BlockchainNetwork::Polkadot,
    );
    let pending = h.receiver_subscribe_tx_confirmation(&address_of(r), "receiver".to_string()).unwrap();
    assert_eq!(pending.len(), 1);
    let multi_id = pending[0].get_multi_id();
    let tx_id = pending[0].tx_id_bytes();
    (h, multi_id, tx_id)
}

#[test]
fn full_confirmation_reaches_ready_queue() {
    let (s, r) = (key(1), key(2));
    let mut h = TransactionHandler::new(11);
    h.submit_transaction(
        VaneCallData::SubstrateCallData { amount: 10_000 },
        address_of(&s),
        address_of(&r),
        BlockchainNetwork::Polkadot,
    );
    let pending = h.receiver_subscribe_tx_confirmation(&address_of(&r), "sub-r".to_string()).unwrap();
    assert_eq!(pending.len(), 1);
    let tx = &pending[0];
    assert_eq!(tx.call, VaneCallData::SubstrateCallData { amount: 10_000 });
    assert_eq!(tx.sender_address, address_of(&s));
    assert_eq!(tx.receiver_address, address_of(&r));
    assert_eq!(tx.network, BlockchainNetwork::Polkadot);
    let multi_id = tx.get_multi_id();
    let tx_id = tx.tx_id_bytes();

    assert_eq!(h.receiver_confirmation(address_of(&r), multi_id.clone(), sign(&r, &tx_id), BlockchainNetwork::Polkadot), Ok(()));
    let c = h.get_confirmation_transaction_data(&multi_id).unwrap();
    assert_eq!(c.get_confirmation_status(), ConfirmationStatus::WaitingForSender);
    assert_eq!(c.get_confirmed_receiver(), Some(address_of(&r)));

    let for_sender = h.sender_subscribe_tx_confirmation(&address_of(&s), "sub-s".to_string()).unwrap();
    assert_eq!(for_sender.len(), 1);
    assert_eq!(for_sender[0].get_confirmation_status(), ConfirmationStatus::WaitingForSender);

    assert_eq!(h.sender_confirmation(address_of(&s), multi_id.clone(), sign(&s, &tx_id), BlockchainNetwork::Polkadot), Ok(()));
    let c = h.get_confirmation_transaction_data(&multi_id).unwrap();
    assert_eq!(c.get_confirmation_status(), ConfirmationStatus::Ready);
    assert_eq!(h.get_total_number_of_simulated_tx(), 1);

    let ready = h.receive_confirmed_tx();
    assert_eq!(ready.len(), 1);
    let sim = ready[0].clone().unwrap();
    assert_eq!(sim.get_confirmation_status(), ConfirmationStatus::Ready);
    assert_eq!(sim.get_sender(), address_of(&s));
    assert_eq!(sim.get_receiver(), address_of(&r));
    assert_eq!(sim.tx_id_bytes(), tx_id);
    assert_eq!(h.get_total_number_of_simulated_tx(), 0);
}

#[test]
fn sender_before_receiver_is_state_conflict() {
    let (s, r) = (key(3), key(4));
    let (mut h, multi_id, tx_id) = submitted(&s, &r, 5);
    assert_eq!(
        h.sender_confirmation(address_of(&s), multi_id.clone(), sign(&s, &tx_id), BlockchainNetwork::Polkadot),
        Err(AvError::StateConflictError)
    );
    assert_eq!(h.get_total_number_of_simulated_tx(), 0);
    assert_eq!(h.get_confirmation_transaction_data(&multi_id), Err(AvError::NotFoundError));
}

#[test]
fn receiver_signature_of_other_key_is_rejected() {
    let (s, r, other) = (key(5), key(6), key(7));
    let (mut h, multi_id, tx_id) = submitted(&s, &r, 5);
    assert_eq!(
        h.receiver_confirmation(address_of(&r), multi_id.clone(), sign(&other, &tx_id), BlockchainNetwork::Polkadot),
        Err(AvError::SignatureVerificationError)
    );
    assert_eq!(h.get_confirmation_transaction_data(&multi_id), Err(AvError::NotFoundError));
}

#[test]
fn mismatched_sender_is_reverted() {
    let (s, r, s2) = (key(8), key(9), key(10));
    let (mut h, multi_id, tx_id) = submitted(&s, &r, 5);
    assert_eq!(h.receiver_confirmation(address_of(&r), multi_id.clone(), sign(&r, &tx_id), BlockchainNetwork::Polkadot), Ok(()));
    let c = h.get_confirmation_transaction_data(&multi_id).unwrap();
    assert_ne!(c.calculate_confirmed_multi_id(&address_of(&s2)), multi_id);
    assert_eq!(
        h.sender_confirmation(address_of(&s2), multi_id.clone(), sign(&s2, &tx_id), BlockchainNetwork::Polkadot),
        Err(AvError::AddressMismatchError)
    );
    let reverted = h.get_reverted_txs().unwrap();
    assert_eq!(reverted.len(), 1);
    assert_eq!(reverted[0].get_confirmation_status(), ConfirmationStatus::RejectedMismatchAddress);
    assert_eq!(h.db.reverted_transactions[0].0, address_of(&s2));
    assert_eq!(h.get_total_number_of_simulated_tx(), 0);
    assert_eq!(
        h.get_confirmation_transaction_data(&multi_id).unwrap().get_confirmation_status(),
        ConfirmationStatus::RejectedMismatchAddress
    );
    // The record is terminal: the right sender can no longer confirm it.
    assert_eq!(
        h.sender_confirmation(address_of(&s), multi_id, sign(&s, &tx_id), BlockchainNetwork::Polkadot),
        Err(AvError::StateConflictError)
    );
}

#[test]
fn unsupported_network_is_refused() {
    let (s, r) = (key(11), key(12));
    let (mut h, multi_id, tx_id) = submitted(&s, &r, 5);
    assert_eq!(
        h.receiver_confirmation(address_of(&r), multi_id.clone(), sign(&r, &tx_id), BlockchainNetwork::Ethereum),
        Err(AvError::UnsupportedNetworkError)
    );
    assert_eq!(
        h.sender_confirmation(address_of(&s), multi_id, sign(&s, &tx_id), BlockchainNetwork::Solana),
        Err(AvError::UnsupportedNetworkError)
    );
}

#[test]
fn confirmation_of_unknown_commitment_is_not_found() {
    let r = key(13);
    let mut h = TransactionHandler::new(1);
    let unknown = VaneMultiAddress::Address32([9u8; 32]);
    assert_eq!(
        h.receiver_confirmation(address_of(&r), unknown.clone(), sign(&r, b"x"), BlockchainNetwork::Kusama),
        Err(AvError::NotFoundError)
    );
    assert_eq!(
        h.sender_confirmation(address_of(&r), unknown.clone(), sign(&r, b"x"), BlockchainNetwork::Kusama),
        Err(AvError::NotFoundError)
    );
    assert_eq!(h.sender_revert_transaction(address_of(&r), unknown, BlockchainNetwork::Kusama), Err(AvError::NotFoundError));
}

#[test]
fn malformed_signature_and_keyless_address_are_refused() {
    let (s, r) = (key(14), key(15));
    let (mut h, multi_id, tx_id) = submitted(&s, &r, 5);
    let mut short = sign(&r, &tx_id);
    short.pop();
    assert_eq!(
        h.receiver_confirmation(address_of(&r), multi_id.clone(), short, BlockchainNetwork::Polkadot),
        Err(AvError::BadSignatureEncodingError)
    );
    assert_eq!(
        h.receiver_confirmation(VaneMultiAddress::Index, multi_id.clone(), sign(&r, &tx_id), BlockchainNetwork::Polkadot),
        Err(AvError::AddressConversionError)
    );
    assert_eq!(
        h.receiver_confirmation(VaneMultiAddress::Id(r.public().0), multi_id, sign(&r, &tx_id), BlockchainNetwork::Polkadot),
        Ok(())
    );
}

#[test]
fn second_receiver_confirmation_is_state_conflict() {
    let (s, r) = (key(16), key(17));
    let (mut h, multi_id, tx_id) = submitted(&s, &r, 5);
    assert_eq!(h.receiver_confirmation(address_of(&r), multi_id.clone(), sign(&r, &tx_id), BlockchainNetwork::Polkadot), Ok(()));
    assert_eq!(
        h.receiver_confirmation(address_of(&r), multi_id, sign(&r, &tx_id), BlockchainNetwork::Polkadot),
        Err(AvError::StateConflictError)
    );
}

#[test]
fn revert_while_waiting_removes_pending_entries() {
    let (s, r) = (key(18), key(19));
    let (mut h, multi_id, tx_id) = submitted(&s, &r, 5);
    assert_eq!(h.sender_revert_transaction(address_of(&s), multi_id.clone(), BlockchainNetwork::Polkadot), Ok(()));
    assert_eq!(h.get_pending_multi_ids(&address_of(&s)), Some(vec![]));
    assert_eq!(h.get_pending_multi_ids(&address_of(&r)), Some(vec![]));
    assert_eq!(h.get_transaction(&multi_id), Err(AvError::NotFoundError));
    let reverted = h.subscribe_revert_tx().unwrap();
    assert_eq!(reverted.len(), 1);
    assert_eq!(reverted[0].get_confirmation_status(), ConfirmationStatus::RejectedSenderRevert);
    assert_eq!(
        h.receiver_confirmation(address_of(&r), multi_id, sign(&r, &tx_id), BlockchainNetwork::Polkadot),
        Err(AvError::NotFoundError)
    );
}

#[test]
fn revert_after_ready_is_refused() {
    let (s, r) = (key(20), key(21));
    let (mut h, multi_id, tx_id) = submitted(&s, &r, 5);
    assert_eq!(h.receiver_confirmation(address_of(&r), multi_id.clone(), sign(&r, &tx_id), BlockchainNetwork::Polkadot), Ok(()));
    assert_eq!(h.sender_confirmation(address_of(&s), multi_id.clone(), sign(&s, &tx_id), BlockchainNetwork::Polkadot), Ok(()));
    assert_eq!(h.sender_revert_transaction(address_of(&s), multi_id, BlockchainNetwork::Polkadot), Err(AvError::StateConflictError));
}

#[test]
fn revert_while_waiting_for_sender_keeps_receiver_confirmation() {
    let (s, r) = (key(22), key(23));
    let (mut h, multi_id, tx_id) = submitted(&s, &r, 5);
    assert_eq!(h.receiver_confirmation(address_of(&r), multi_id.clone(), sign(&r, &tx_id), BlockchainNetwork::Polkadot), Ok(()));
    assert_eq!(h.sender_revert_transaction(address_of(&s), multi_id, BlockchainNetwork::Polkadot), Ok(()));
    let reverted = h.get_reverted_txs().unwrap();
    assert_eq!(reverted[0].get_confirmation_status(), ConfirmationStatus::RejectedSenderRevert);
    assert_eq!(reverted[0].get_confirmed_receiver(), Some(address_of(&r)));
}

#[test]
fn ready_queue_is_first_in_first_out() {
    let (s, r1, r2) = (key(24), key(25), key(26));
    let mut h = TransactionHandler::new(3);
    h.submit_transaction(VaneCallData::SubstrateCallData { amount: 1 }, address_of(&s), address_of(&r1), BlockchainNetwork::Polkadot);
    h.submit_transaction(VaneCallData::SubstrateCallData { amount: 2 }, address_of(&s), address_of(&r2), BlockchainNetwork::Polkadot);
    let first = h.receiver_subscribe_tx_confirmation(&address_of(&r1), "a".to_string()).unwrap()[0].clone();
    let second = h.receiver_subscribe_tx_confirmation(&address_of(&r2), "b".to_string()).unwrap()[0].clone();
    for (pair, tx) in [(&r2, &second), (&r1, &first)] {
        let id = tx.tx_id_bytes();
        assert_eq!(h.receiver_confirmation(address_of(pair), tx.get_multi_id(), sign(pair, &id), BlockchainNetwork::Polkadot), Ok(()));
        assert_eq!(h.sender_confirmation(address_of(&s), tx.get_multi_id(), sign(&s, &id), BlockchainNetwork::Polkadot), Ok(()));
    }
    let first_out = h.get_simulate_tx().unwrap().unwrap();
    assert_eq!(first_out.tx_id_bytes(), second.tx_id_bytes());
    let ready = h.receive_confirmed_tx();
    assert_eq!(ready.len(), 1);
    assert_eq!(ready[0].clone().unwrap().tx_id_bytes(), first.tx_id_bytes());
    assert!(h.get_simulate_tx().is_none());
}

#[test]
fn pending_lists_append_for_both_parties() {
    let (s, r1, r2) = (key(27), key(28), key(29));
    let mut h = TransactionHandler::new(5);
    h.submit_transaction(VaneCallData::SubstrateCallData { amount: 1 }, address_of(&s), address_of(&r1), BlockchainNetwork::Polkadot);
    h.submit_transaction(VaneCallData::SubstrateCallData { amount: 2 }, address_of(&s), address_of(&r2), BlockchainNetwork::Polkadot);
    let for_sender = h.get_pending_multi_ids(&address_of(&s)).unwrap();
    assert_eq!(for_sender.len(), 2);
    assert_eq!(h.get_pending_multi_ids(&address_of(&r1)).unwrap().len(), 1);
    assert_eq!(h.get_pending_multi_ids(&address_of(&r2)).unwrap().len(), 1);
    assert_eq!(h.get_pending_multi_ids(&VaneMultiAddress::Index), None);
    let txs = h.receiver_subscribe_tx_confirmation(&address_of(&s), "s".to_string()).unwrap();
    assert_eq!(txs.len(), 2);
    assert_eq!(txs[0].call, VaneCallData::SubstrateCallData { amount: 1 });
    assert_eq!(txs[1].call, VaneCallData::SubstrateCallData { amount: 2 });
}

#[test]
fn repeated_reads_give_identical_results() {
    let (s, r) = (key(30), key(31));
    let (h, multi_id, tx_id) = submitted(&s, &r, 42);
    assert_eq!(h.get_pending_multi_ids(&address_of(&r)), h.get_pending_multi_ids(&address_of(&r)));
    assert_eq!(h.get_transaction(&multi_id), h.get_transaction(&multi_id));
    let found = h.find_transaction(&address_of(&r), Some(tx_id)).unwrap();
    assert_eq!(found, h.find_transaction(&address_of(&r), Some(tx_id)).unwrap());
    assert_eq!(found.call, VaneCallData::SubstrateCallData { amount: 42 });
    assert_eq!(h.find_transaction(&address_of(&r), None).unwrap(), found);
    assert_eq!(h.find_transaction(&address_of(&r), Some([0u8; 32])), Err(AvError::NotFoundError));
}

#[test]
fn subscribers_are_recorded_once() {
    let mut h = TransactionHandler::new(9);
    h.record_subscriber("one".to_string());
    h.record_subscriber("two".to_string());
    h.record_subscriber("one".to_string());
    assert_eq!(h.db.subscribed, vec!["one".to_string(), "two".to_string()]);
}

#[test]
fn undecodable_record_is_corrupt() {
    let (s, r) = (key(32), key(33));
    let (mut h, multi_id, tx_id) = submitted(&s, &r, 5);
    h.db.transactions.insert(multi_id.clone(), vec![1, 2, 3]);
    assert_eq!(h.get_transaction(&multi_id), Err(AvError::CorruptRecordError));
    assert_eq!(
        h.receiver_confirmation(address_of(&r), multi_id.clone(), sign(&r, &tx_id), BlockchainNetwork::Polkadot),
        Err(AvError::CorruptRecordError)
    );
    assert_eq!(
        h.receiver_subscribe_tx_confirmation(&address_of(&r), "c".to_string()),
        Err(AvError::CorruptRecordError)
    );
}

#[test]
fn submissions_of_equal_calls_get_distinct_identifiers() {
    let (s, r) = (key(34), key(35));
    let mut h = TransactionHandler::new(2);
    h.submit_transaction(VaneCallData::SubstrateCallData { amount: 1 }, address_of(&s), address_of(&r), BlockchainNetwork::Polkadot);
    let first = h.receiver_subscribe_tx_confirmation(&address_of(&r), "x".to_string()).unwrap()[0].tx_id_bytes();
    h.submit_transaction(VaneCallData::SubstrateCallData { amount: 1 }, address_of(&s), address_of(&r), BlockchainNetwork::Polkadot);
    let txs = h.receiver_subscribe_tx_confirmation(&address_of(&r), "x".to_string()).unwrap();
    assert_eq!(txs.len(), 1);
    assert_ne!(txs[0].tx_id_bytes(), first);
}

#[test]
fn corrupt_ready_record_is_reported_and_dropped() {
    let mut h = TransactionHandler::new(4);
    h.db.simulation.push_back(vec![0, 1, 2]);
    let drained = h.receive_confirmed_tx();
    assert_eq!(drained.len(), 1);
    assert_eq!(drained[0], Err(AvError::CorruptRecordError));
    assert_eq!(h.get_total_number_of_simulated_tx(), 0);
    assert!(h.get_simulate_tx().is_none());
}
