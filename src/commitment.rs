//! The commitment that binds a sender and a receiver to a transaction, and the
//! transaction identifier.
use vstd::prelude::*;
use crate::codec::{
    enc_address, enc_call, encode_address, encode_call, le_bytes, lemma_address_round_trip,
    write_le,
};
use crate::primitives::{
    address_wf, AddressModel, BlockchainNetwork, CallModel, LifetimeStatus,
    TxConfirmationObject, TxObject, TxObjectModel, TxSimulationObject, VaneCallData,
    VaneMultiAddress,
};

verus! {

/// The Blake2b-256 digest of `data`.
pub uninterp spec fn blake2_256_of(data: Seq<u8>) -> Seq<u8>;

/// Relies on sp_core's `Blake2Hasher` (`hash_db::Hasher::hash`), which returns
/// the Blake2b-256 digest of its input: 32 bytes that depend on the input alone.
#[verifier::external_body]
fn blake2_256(data: &[u8]) -> (r: [u8; 32])
    ensures
        r@ == blake2_256_of(data@),
{
    <sp_core::Blake2Hasher as sp_core::Hasher>::hash(data).0
}

/// The lower-case hexadecimal digit of `n`.
pub open spec fn hex_digit(n: u8) -> char
    recommends
        n < 16,
{
    seq!['0', '1', '2', '3', '4', '5', '6', '7', '8', '9', 'a', 'b', 'c', 'd', 'e', 'f'][n as int]
}

/// Two lower-case hexadecimal digits per byte, the high half first.
pub open spec fn hex_of(b: Seq<u8>) -> Seq<char>
    decreases b.len(),
{
    if b.len() == 0 {
        Seq::empty()
    } else {
        seq![hex_digit(b[0] / 16), hex_digit(b[0] % 16)] + hex_of(b.skip(1))
    }
}

/// Relies on `hex::encode`, which writes each byte as two lower-case digits
/// from the table "0123456789abcdef", the high half first.
#[verifier::external_body]
fn hex_encode(b: &[u8]) -> (r: String)
    ensures
        r@ == hex_of(b@),
{
    hex::encode(b)
}

/// The domain tag of the commitment, the bytes of "VANE".
pub open spec fn vane_tag() -> Seq<u8> {
    seq![86u8, 65u8, 78u8, 69u8]
}

pub fn vane_domain_tag() -> (r: Vec<u8>)
    ensures
        r@ == vane_tag(),
{
    let r: Vec<u8> = vec![86u8, 65u8, 78u8, 69u8];
    assert(r@ =~= vane_tag());
    r
}

/// The bytes that the commitment of a sender and a receiver hashes.
pub open spec fn commitment_preimage(sender: AddressModel, receiver: AddressModel, tag: Seq<u8>) -> Seq<u8> {
    enc_address(sender) + enc_address(receiver) + tag
}

/// The commitment of a sender and a receiver under a domain tag.
pub open spec fn multi_id_of(sender: AddressModel, receiver: AddressModel, tag: Seq<u8>) -> AddressModel {
    AddressModel::Address32(blake2_256_of(commitment_preimage(sender, receiver, tag)))
}

/// The commitment that the protocol stores a transaction under.
pub open spec fn vane_multi_id(sender: AddressModel, receiver: AddressModel) -> AddressModel {
    multi_id_of(sender, receiver, vane_tag())
}

/// The identifier of a call submitted with `entropy`.
pub open spec fn tx_id_of(call: CallModel, entropy: u128) -> Seq<u8> {
    blake2_256_of(enc_call(call) + le_bytes(entropy as nat, 16))
}

/// Derives the commitment of `sender` and `receiver` under `domain_tag`.
pub fn derive_multi_id(sender: &VaneMultiAddress, receiver: &VaneMultiAddress, domain_tag: &[u8]) -> (r: VaneMultiAddress)
    ensures
        r@ == multi_id_of(sender@, receiver@, domain_tag@),
{
    let mut data: Vec<u8> = Vec::new();
    encode_address(sender, &mut data);
    encode_address(receiver, &mut data);
    crate::codec::write_bytes(&mut data, domain_tag);
    assert(data@ =~= commitment_preimage(sender@, receiver@, domain_tag@));
    VaneMultiAddress::Address32(blake2_256(data.as_slice()))
}

/// Derives the identifier of `call` from its bytes and a fresh `entropy`.
pub fn derive_tx_id(call: &VaneCallData, entropy: u128) -> (r: [u8; 32])
    ensures
        r@ == tx_id_of(call@, entropy),
{
    let mut data: Vec<u8> = Vec::new();
    encode_call(call, &mut data);
    write_le(&mut data, entropy, 16);
    blake2_256(data.as_slice())
}

/// Two (sender, receiver) pairs hash the same bytes only when they are the same
/// pair: the commitment tells pairs apart up to a Blake2b-256 collision, and one
/// pair always gets the same commitment.
pub proof fn lemma_commitment_binds_pair(
    s1: AddressModel,
    r1: AddressModel,
    s2: AddressModel,
    r2: AddressModel,
    tag: Seq<u8>,
)
    requires
        address_wf(s1),
        address_wf(r1),
        address_wf(s2),
        address_wf(r2),
    ensures
        commitment_preimage(s1, r1, tag) == commitment_preimage(s2, r2, tag) <==> (s1 == s2 && r1 == r2),
        (s1 == s2 && r1 == r2) ==> multi_id_of(s1, r1, tag) == multi_id_of(s2, r2, tag),
{
    let pre1 = commitment_preimage(s1, r1, tag);
    let pre2 = commitment_preimage(s2, r2, tag);
    if pre1 == pre2 {
        let rest1 = enc_address(r1) + tag;
        let rest2 = enc_address(r2) + tag;
        assert(pre1 =~= enc_address(s1) + rest1);
        assert(pre2 =~= enc_address(s2) + rest2);
        lemma_address_round_trip(s1, rest1);
        lemma_address_round_trip(s2, rest2);
        let n = enc_address(s1).len() as int;
        assert(pre1.skip(n) =~= rest1);
        assert(pre2.skip(n) =~= rest2);
        lemma_address_round_trip(r1, tag);
        lemma_address_round_trip(r2, tag);
    }
}

/// The transaction that a submission of `call` from `sender` to `receiver` creates.
pub open spec fn submitted_tx(
    call: CallModel,
    sender: AddressModel,
    receiver: AddressModel,
    network: BlockchainNetwork,
    entropy: u128,
) -> TxObjectModel {
    TxObjectModel {
        tx_id: tx_id_of(call, entropy),
        call,
        sender,
        receiver,
        multi_id: vane_multi_id(sender, receiver),
        network,
        lifetime: None,
        lifetime_status: LifetimeStatus::Valid,
    }
}

impl VaneCallData {
    /// The identifier of this call submitted with `entropy`.
    pub fn get_tx_id(&self, entropy: u128) -> (r: [u8; 32])
        ensures
            r@ == tx_id_of(self@, entropy),
    {
        derive_tx_id(self, entropy)
    }
}

impl TxObject {
    /// A new transaction, its identifier derived from the call and `entropy`
    /// and its commitment from the sender and the receiver.
    pub fn new(
        call: VaneCallData,
        sender_address: VaneMultiAddress,
        receiver_address: VaneMultiAddress,
        network: BlockchainNetwork,
        entropy: u128,
    ) -> (r: TxObject)
        ensures
            r@ == submitted_tx(call@, sender_address@, receiver_address@, network, entropy),
    {
        let tx_id = call.get_tx_id(entropy);
        let tag = vane_domain_tag();
        let multi_id = derive_multi_id(&sender_address, &receiver_address, tag.as_slice());
        TxObject {
            tx_id,
            call,
            sender_address,
            receiver_address,
            multi_id,
            network,
            lifetime: None,
            lifetime_status: LifetimeStatus::Valid,
        }
    }

    /// The identifier in hexadecimal.
    pub fn get_tx_id(self) -> (r: String)
        ensures
            r@ == hex_of(self@.tx_id),
    {
        hex_encode(self.tx_id.as_slice())
    }
}

impl TxConfirmationObject {
    /// The commitment that `sender` makes together with the receiver that confirmed.
    pub fn calculate_confirmed_multi_id(&self, sender: &VaneMultiAddress) -> (r: VaneMultiAddress)
        requires
            self@.confirmed_receiver is Some,
        ensures
            r@ == vane_multi_id(sender@, self@.confirmed_receiver->0),
    {
        let tag = vane_domain_tag();
        match &self.confirmed_receiver_address {
            Some(receiver) => derive_multi_id(sender, receiver, tag.as_slice()),
            None => {
                assert(false);
                VaneMultiAddress::Index
            },
        }
    }

    /// The identifier in hexadecimal.
    pub fn get_tx_id(self) -> (r: String)
        ensures
            r@ == hex_of(self@.tx_id),
    {
        hex_encode(self.tx_id.as_slice())
    }
}

impl TxSimulationObject {
    /// The identifier in hexadecimal.
    pub fn get_tx_id(self) -> (r: String)
        ensures
            r@ == hex_of(self@.tx_id),
    {
        hex_encode(self.tx_id.as_slice())
    }
}

} // verus!
