use av_layer::codec::{
    decode_confirmation, decode_simulation, decode_tx_object, encode_call, encode_confirmation,
    encode_simulation, encode_tx_object,
};
use av_layer::commitment::{derive_multi_id, derive_tx_id, vane_domain_tag};
use av_layer::primitives::{
    BlockchainNetwork, ConfirmationStatus, LifetimeStatus, TxConfirmationObject, TxObject,
    TxSimulationObject, VaneCallData, VaneMultiAddress,
};
use sp_core::Hasher;

fn solana_call() -> VaneCallData {
    VaneCallData::SolanaCallData {
        amount: 0x0102_0304_0506_0708_090a_0b0c_0d0e_0f10,
        extra_receivers: vec![
            VaneMultiAddress::Raw(vec![7, 8, 9]),
            VaneMultiAddress::Address20([4u8; 20]),
            VaneMultiAddress::Index,
        ],
    }
}

fn sample_tx() -> TxObject {
    let mut t = TxObject::new(
        solana_call(),
        VaneMultiAddress::Id([1u8; 32]),
        VaneMultiAddress::Raw(vec![]),
        BlockchainNetwork::Solana,
        99,
    );
    t.lifetime = Some(30);
    t.lifetime_status = LifetimeStatus::Invalid;
    t
}

#[test]
fn tx_object_round_trip() {
    let t = sample_tx();
    let bytes = encode_tx_object(&t);
    assert_eq!(decode_tx_object(&bytes), Some(t));
}

#[test]
fn confirmation_round_trip() {
    let mut c = TxConfirmationObject::from(sample_tx());
    c.set_confirmed_receiver(VaneMultiAddress::Address32([5u8; 32]));
    c.update_confirmation_status(ConfirmationStatus::WaitingForSender);
    let bytes = encode_confirmation(&c);
    assert_eq!(decode_confirmation(&bytes), Some(c.clone()));
    c.set_confirmed_sender(VaneMultiAddress::Raw(vec![1, 2]));
    assert_eq!(decode_confirmation(&encode_confirmation(&c)), Some(c));
}

#[test]
fn simulation_round_trip() {
    let mut c = TxConfirmationObject::from(sample_tx());
    c.set_confirmed_receiver(VaneMultiAddress::Address32([5u8; 32]));
    c.set_confirmed_sender(VaneMultiAddress::Id([6u8; 32]));
    c.update_confirmation_status(ConfirmationStatus::Ready);
    let m = TxSimulationObject::from_confirmation(c);
    assert_eq!(decode_simulation(&encode_simulation(&m)), Some(m));
}

#[test]
fn truncated_or_extended_bytes_do_not_decode() {
    let bytes = encode_tx_object(&sample_tx());
    assert_eq!(decode_tx_object(&bytes[..bytes.len() - 1].to_vec()), None);
    let mut longer = bytes.clone();
    longer.push(0);
    assert_eq!(decode_tx_object(&longer), None);
    let mut bad_network = bytes.clone();
    bad_network[32] = 8;
    assert_eq!(decode_tx_object(&bad_network), None);
    assert_eq!(decode_confirmation(&vec![]), None);
    assert_eq!(decode_simulation(&bytes), None);
}

#[test]
fn call_encoding_is_little_endian_with_discriminant() {
    let mut out = Vec::new();
    encode_call(&VaneCallData::SubstrateCallData { amount: 0x0201 }, &mut out);
    let mut expected = vec![0u8, 0x01, 0x02];
    expected.extend_from_slice(&[0u8; 14]);
    assert_eq!(out, expected);
    let mut out = Vec::new();
    encode_call(&VaneCallData::SolanaCallData { amount: 1, extra_receivers: vec![VaneMultiAddress::Raw(vec![9])] }, &mut out);
    let mut expected = vec![1u8, 1];
    expected.extend_from_slice(&[0u8; 15]);
    expected.extend_from_slice(&[1, 0, 0, 0, 0, 0, 0, 0]);
    expected.extend_from_slice(&[2, 1, 0, 0, 0, 0, 0, 0, 0, 9]);
    assert_eq!(out, expected);
}

#[test]
fn multi_id_is_blake2_of_encoded_pair_and_tag() {
    let s = VaneMultiAddress::Address32([1u8; 32]);
    let r = VaneMultiAddress::Address20([2u8; 20]);
    let tag = vane_domain_tag();
    assert_eq!(tag, b"VANE".to_vec());
    let mut preimage = vec![3u8];
    preimage.extend_from_slice(&[1u8; 32]);
    preimage.push(4);
    preimage.extend_from_slice(&[2u8; 20]);
    preimage.extend_from_slice(b"VANE");
    let expected = <sp_core::Blake2Hasher as Hasher>::hash(&preimage).0;
    assert_eq!(derive_multi_id(&s, &r, &tag), VaneMultiAddress::Address32(expected));
}

#[test]
fn multi_id_is_deterministic_and_order_sensitive() {
    let s = VaneMultiAddress::Address32([1u8; 32]);
    let r = VaneMultiAddress::Address32([2u8; 32]);
    let tag = vane_domain_tag();
    assert_eq!(derive_multi_id(&s, &r, &tag), derive_multi_id(&s, &r, &tag));
    assert_ne!(derive_multi_id(&s, &r, &tag), derive_multi_id(&r, &s, &tag));
    assert_ne!(derive_multi_id(&s, &r, &tag), derive_multi_id(&s, &VaneMultiAddress::Id([2u8; 32]), &tag));
    assert_ne!(derive_multi_id(&s, &r, &tag), derive_multi_id(&s, &r, b"OTHER"));
}

#[test]
fn tx_id_depends_on_call_and_entropy() {
    let call = VaneCallData::SubstrateCallData { amount: 10 };
    assert_eq!(derive_tx_id(&call, 1), derive_tx_id(&call, 1));
    assert_ne!(derive_tx_id(&call, 1), derive_tx_id(&call, 2));
    assert_ne!(derive_tx_id(&call, 1), derive_tx_id(&VaneCallData::EthereumCallData { amount: 10 }, 1));
    let mut preimage = vec![0u8, 10];
    preimage.extend_from_slice(&[0u8; 15]);
    preimage.push(1);
    preimage.extend_from_slice(&[0u8; 15]);
    assert_eq!(derive_tx_id(&call, 1), <sp_core::Blake2Hasher as Hasher>::hash(&preimage).0);
}

#[test]
fn tx_id_renders_as_lower_case_hex() {
    let t = TxObject::new(
        VaneCallData::SubstrateCallData { amount: 3 },
        VaneMultiAddress::Index,
        VaneMultiAddress::Index,
        BlockchainNetwork::Polkadot,
        0,
    );
    let bytes = t.tx_id_bytes();
    let expected: String = bytes.iter().map(|b| format!("{:02x}", b)).collect();
    let c = TxConfirmationObject::from(t.clone());
    assert_eq!(t.get_tx_id(), expected);
    assert_eq!(c.get_tx_id(), expected);
    assert_eq!(expected.len(), 64);
}

#[test]
fn transaction_keeps_sender_and_receiver_apart() {
    let s = VaneMultiAddress::Address32([1u8; 32]);
    let r = VaneMultiAddress::Address32([2u8; 32]);
    let t = TxObject::new(VaneCallData::SubstrateCallData { amount: 3 }, s.clone(), r.clone(), BlockchainNetwork::Kusama, 4);
    assert_eq!(t.sender_address, s);
    assert_eq!(t.receiver_address, r);
    assert_eq!(t.get_multi_id(), derive_multi_id(&s, &r, &vane_domain_tag()));
    assert_eq!(t.lifetime, None);
    assert_eq!(t.lifetime_status, LifetimeStatus::Valid);
}

#[test]
fn call_data_constructor_covers_substrate_only() {
    assert_eq!(VaneCallData::new(BlockchainNetwork::Polkadot, 5), Some(VaneCallData::SubstrateCallData { amount: 5 }));
    assert_eq!(VaneCallData::new(BlockchainNetwork::Kusama, 5), None);
}
