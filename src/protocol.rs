//! The confirmation protocol: a transaction waits for its receiver, then for its
//! sender, and is ready once the sender, with the confirmed receiver, reproduces
//! the commitment it was submitted under.
use vstd::prelude::*;
use crate::codec::{
    enc_confirmation, enc_simulation, lemma_confirmation_round_trip, lemma_confirmation_sound,
    lemma_tx_object_sound,
};
use crate::commitment::{submitted_tx, vane_multi_id};
use crate::handler::{
    after_put_transaction, lookup_confirmation, lookup_tx, without_pending, AvError, TransactionHandler,
};
use crate::primitives::{
    address_wf, confirmation_of, simulation_of, AddressModel, BlockchainNetwork, ConfirmationModel,
    ConfirmationStatus, TxConfirmationObject, TxObject, TxObjectModel, TxSimulationObject,
    VaneCallData, VaneMultiAddress,
};
use crate::signature::{scheme_for, scheme_of, verify, verify_outcome, VerifyError};
use crate::store::DbModel;

verus! {

pub open spec fn verify_error(e: VerifyError) -> AvError {
    match e {
        VerifyError::AddressConversion => AvError::AddressConversionError,
        VerifyError::BadSignatureEncoding => AvError::BadSignatureEncodingError,
    }
}

fn to_av_error(e: VerifyError) -> (r: AvError)
    ensures
        r == verify_error(e),
{
    match e {
        VerifyError::AddressConversion => AvError::AddressConversionError,
        VerifyError::BadSignatureEncoding => AvError::BadSignatureEncodingError,
    }
}

/// The record of a transaction whose receiver confirmed as `receiver`.
pub open spec fn receiver_confirmed(t: TxObjectModel, receiver: AddressModel) -> ConfirmationModel {
    ConfirmationModel {
        confirmed_receiver: Some(receiver),
        status: ConfirmationStatus::WaitingForSender,
        ..confirmation_of(t)
    }
}

/// The store and the outcome after `address` confirms as receiver of the
/// transaction under `m` with `signature`.
pub open spec fn receiver_confirm_step(
    db: DbModel,
    address: AddressModel,
    m: AddressModel,
    signature: Seq<u8>,
    network: BlockchainNetwork,
) -> (DbModel, Result<(), AvError>) {
    match scheme_of(network) {
        None => (db, Err(AvError::UnsupportedNetworkError)),
        Some(scheme) => match lookup_tx(db, m) {
            Err(e) => (db, Err(e)),
            Ok(t) => if db.confirmations.contains_key(m) {
                (db, Err(AvError::StateConflictError))
            } else {
                match verify_outcome(address, t.tx_id, signature, scheme) {
                    Err(e) => (db, Err(verify_error(e))),
                    Ok(false) => (db, Err(AvError::SignatureVerificationError)),
                    Ok(true) => (
                        DbModel {
                            confirmations: db.confirmations.insert(m, enc_confirmation(receiver_confirmed(t, address))),
                            ..db
                        },
                        Ok(()),
                    ),
                }
            },
        },
    }
}

/// Whether a confirmation record waits for its sender.
pub open spec fn awaits_sender(c: ConfirmationModel) -> bool {
    c.status == ConfirmationStatus::WaitingForSender && c.confirmed_receiver is Some
}

/// The record of a confirmation whose sender confirmed as `sender`.
pub open spec fn sender_confirmed(c: ConfirmationModel, sender: AddressModel) -> ConfirmationModel {
    ConfirmationModel { confirmed_sender: Some(sender), status: ConfirmationStatus::Ready, ..c }
}

/// The record of a confirmation rejected for a sender that does not match.
pub open spec fn mismatch_rejected(c: ConfirmationModel) -> ConfirmationModel {
    ConfirmationModel { status: ConfirmationStatus::RejectedMismatchAddress, ..c }
}

/// The store and the outcome after `address` confirms as sender of the
/// transaction under `m` with `signature`.
pub open spec fn sender_confirm_step(
    db: DbModel,
    address: AddressModel,
    m: AddressModel,
    signature: Seq<u8>,
    network: BlockchainNetwork,
) -> (DbModel, Result<(), AvError>) {
    match scheme_of(network) {
        None => (db, Err(AvError::UnsupportedNetworkError)),
        Some(scheme) => match lookup_confirmation(db, m) {
            Err(AvError::NotFoundError) => if db.transactions.contains_key(m) {
                (db, Err(AvError::StateConflictError))
            } else {
                (db, Err(AvError::NotFoundError))
            },
            Err(e) => (db, Err(e)),
            Ok(c) => if !awaits_sender(c) {
                (db, Err(AvError::StateConflictError))
            } else {
                match verify_outcome(address, c.tx_id, signature, scheme) {
                    Err(e) => (db, Err(verify_error(e))),
                    Ok(false) => (db, Err(AvError::SignatureVerificationError)),
                    Ok(true) => if vane_multi_id(address, c.confirmed_receiver->0) == m {
                        let done = sender_confirmed(c, address);
                        (
                            DbModel {
                                confirmations: db.confirmations.insert(m, enc_confirmation(done)),
                                ready: db.ready.push(enc_simulation(simulation_of(done))),
                                ..db
                            },
                            Ok(()),
                        )
                    } else {
                        let rejected = mismatch_rejected(c);
                        (
                            DbModel {
                                confirmations: db.confirmations.insert(m, enc_confirmation(rejected)),
                                reverted: db.reverted.push((address, enc_confirmation(rejected))),
                                ..db
                            },
                            Err(AvError::AddressMismatchError),
                        )
                    },
                }
            },
        },
    }
}

/// The confirmation record that a revert of the transaction `t` under `m` starts from.
pub open spec fn revert_source(db: DbModel, t: TxObjectModel, m: AddressModel) -> Result<ConfirmationModel, AvError> {
    if db.confirmations.contains_key(m) {
        lookup_confirmation(db, m)
    } else {
        Ok(confirmation_of(t))
    }
}

/// The store and the outcome after the transaction under `m` is reverted on
/// behalf of `address`.
pub open spec fn revert_step(db: DbModel, address: AddressModel, m: AddressModel) -> (DbModel, Result<(), AvError>) {
    match lookup_tx(db, m) {
        Err(e) => (db, Err(e)),
        Ok(t) => match revert_source(db, t, m) {
            Err(e) => (db, Err(e)),
            Ok(c) => if c.status != ConfirmationStatus::WaitingForReceiver && c.status
                != ConfirmationStatus::WaitingForSender {
                (db, Err(AvError::StateConflictError))
            } else {
                let reverted = ConfirmationModel { status: ConfirmationStatus::RejectedSenderRevert, ..c };
                let unlisted = without_pending(without_pending(db, t.sender, m), t.receiver, m);
                (
                    DbModel {
                        transactions: db.transactions.remove(m),
                        confirmations: db.confirmations.remove(m),
                        reverted: db.reverted.push((address, enc_confirmation(reverted))),
                        ..unlisted
                    },
                    Ok(()),
                )
            },
        },
    }
}

/// A sender confirmation succeeds only on a record that waits for its sender,
/// and while a transaction has no confirmation record a sender confirmation on a
/// supported network is refused as out of order.
pub proof fn lemma_sender_needs_receiver(
    db: DbModel,
    address: AddressModel,
    m: AddressModel,
    signature: Seq<u8>,
    network: BlockchainNetwork,
)
    ensures
        sender_confirm_step(db, address, m, signature, network).1 is Ok ==> (lookup_confirmation(db, m) is Ok
            && awaits_sender(lookup_confirmation(db, m)->Ok_0)),
        (!db.confirmations.contains_key(m) && db.transactions.contains_key(m) && scheme_of(network) is Some)
            ==> sender_confirm_step(db, address, m, signature, network).1 == Err::<(), AvError>(AvError::StateConflictError),
{
}

/// A receiver confirmation that succeeds leaves under `m` a record that waits
/// for its sender, with `address` as its confirmed receiver.
pub proof fn lemma_receiver_confirm_awaits_sender(
    db: DbModel,
    address: AddressModel,
    m: AddressModel,
    signature: Seq<u8>,
    network: BlockchainNetwork,
)
    requires
        address_wf(address),
    ensures
        receiver_confirm_step(db, address, m, signature, network).1 is Ok ==> ({
            let after = receiver_confirm_step(db, address, m, signature, network).0;
            &&& lookup_confirmation(after, m) is Ok
            &&& awaits_sender(lookup_confirmation(after, m)->Ok_0)
            &&& lookup_confirmation(after, m)->Ok_0.confirmed_receiver == Some(address)
        }),
{
    if receiver_confirm_step(db, address, m, signature, network).1 is Ok {
        let t = lookup_tx(db, m)->Ok_0;
        lemma_tx_object_sound(db.transactions[m]);
        lemma_confirmation_round_trip(receiver_confirmed(t, address));
    }
}

/// A sender whose signature verifies but who, with the confirmed receiver, does
/// not reproduce the commitment `m` is refused with an address mismatch: the
/// record under `m` turns to `RejectedMismatchAddress`, it is logged as reverted
/// for that sender, and nothing joins the ready queue.
pub proof fn lemma_mismatch_rejected(
    db: DbModel,
    address: AddressModel,
    m: AddressModel,
    signature: Seq<u8>,
    network: BlockchainNetwork,
)
    requires
        address_wf(address),
        lookup_confirmation(db, m) is Ok,
        awaits_sender(lookup_confirmation(db, m)->Ok_0),
        vane_multi_id(address, lookup_confirmation(db, m)->Ok_0.confirmed_receiver->0) != m,
        scheme_of(network) is Some,
        verify_outcome(address, lookup_confirmation(db, m)->Ok_0.tx_id, signature, scheme_of(network)->0) == Ok::<bool, VerifyError>(true),
    ensures
        ({
            let (after, r) = sender_confirm_step(db, address, m, signature, network);
            &&& r == Err::<(), AvError>(AvError::AddressMismatchError)
            &&& lookup_confirmation(after, m) is Ok
            &&& lookup_confirmation(after, m)->Ok_0.status == ConfirmationStatus::RejectedMismatchAddress
            &&& after.reverted == db.reverted.push((address, after.confirmations[m]))
            &&& after.ready == db.ready
        }),
{
    let c = lookup_confirmation(db, m)->Ok_0;
    lemma_confirmation_sound(db.confirmations[m]);
    lemma_confirmation_round_trip(mismatch_rejected(c));
}

/// Whether a status admits no further transition.
pub open spec fn is_terminal(s: ConfirmationStatus) -> bool {
    ||| s == ConfirmationStatus::Ready
    ||| s == ConfirmationStatus::Accepted
    ||| s == ConfirmationStatus::RejectedMismatchAddress
    ||| s == ConfirmationStatus::RejectedSenderRevert
}

/// A record that reached a terminal status stays as it is: a receiver
/// confirmation, a sender confirmation and a revert of it are each refused as
/// out of order and leave the store unchanged.
pub proof fn lemma_terminal_records_stay(
    db: DbModel,
    address: AddressModel,
    m: AddressModel,
    signature: Seq<u8>,
    network: BlockchainNetwork,
)
    requires
        lookup_tx(db, m) is Ok,
        lookup_confirmation(db, m) is Ok,
        is_terminal(lookup_confirmation(db, m)->Ok_0.status),
        scheme_of(network) is Some,
    ensures
        receiver_confirm_step(db, address, m, signature, network) == (db, Err::<(), AvError>(AvError::StateConflictError)),
        sender_confirm_step(db, address, m, signature, network) == (db, Err::<(), AvError>(AvError::StateConflictError)),
        revert_step(db, address, m) == (db, Err::<(), AvError>(AvError::StateConflictError)),
{
}

impl TransactionHandler {
    /// Submits `call` from `sender` to `receiver` with a given `entropy`: the
    /// transaction is stored under the commitment of the two and listed for both.
    pub fn submit_with_entropy(
        &mut self,
        call: VaneCallData,
        sender: VaneMultiAddress,
        receiver: VaneMultiAddress,
        network: BlockchainNetwork,
        entropy: u128,
    )
        requires
            old(self).wf(),
        ensures
            final(self).wf(),
            final(self)@ == after_put_transaction(old(self)@, submitted_tx(call@, sender@, receiver@, network, entropy)),
    {
        let tx_object = TxObject::new(call, sender, receiver, network, entropy);
        self.set_transaction_data(&tx_object);
    }

    /// Submits `call` from `sender` to `receiver`, its identifier drawn with
    /// fresh entropy from the handler's generator.
    pub fn submit_transaction(
        &mut self,
        call: VaneCallData,
        sender: VaneMultiAddress,
        receiver: VaneMultiAddress,
        network: BlockchainNetwork,
    )
        requires
            old(self).wf(),
        ensures
            final(self).wf(),
            exists|entropy: u128|
                final(self)@ == after_put_transaction(old(self)@, #[trigger] submitted_tx(call@, sender@, receiver@, network, entropy)),
    {
        let entropy = crate::handler::draw_entropy(self);
        self.submit_with_entropy(call, sender, receiver, network, entropy);
    }

    /// Confirms, as receiver, the transaction under `multi_id` with a signature
    /// over its identifier.
    pub fn receiver_confirmation(
        &mut self,
        address: VaneMultiAddress,
        multi_id: VaneMultiAddress,
        signature: Vec<u8>,
        network: BlockchainNetwork,
    ) -> (r: Result<(), AvError>)
        requires
            old(self).wf(),
        ensures
            final(self).wf(),
            (final(self)@, r) == receiver_confirm_step(old(self)@, address@, multi_id@, signature@, network),
    {
        let scheme = match scheme_for(network) {
            Some(s) => s,
            None => return Err(AvError::UnsupportedNetworkError),
        };
        let tx = match self.get_transaction(&multi_id) {
            Ok(t) => t,
            Err(e) => return Err(e),
        };
        match self.get_confirmation_transaction_data(&multi_id) {
            Err(AvError::NotFoundError) => {},
            _ => return Err(AvError::StateConflictError),
        }
        match verify(&address, tx.tx_id.as_slice(), &signature, scheme) {
            Err(e) => Err(to_av_error(e)),
            Ok(false) => Err(AvError::SignatureVerificationError),
            Ok(true) => {
                let mut confirmation = TxConfirmationObject::from(tx);
                confirmation.set_confirmed_receiver(address);
                confirmation.update_confirmation_status(ConfirmationStatus::WaitingForSender);
                self.set_confirmation_transaction_data(&multi_id, &confirmation);
                Ok(())
            },
        }
    }

    /// Confirms, as sender, the transaction under `multi_id` with a signature
    /// over its identifier; the transaction becomes ready only when the sender
    /// and the confirmed receiver reproduce `multi_id`.
    pub fn sender_confirmation(
        &mut self,
        address: VaneMultiAddress,
        multi_id: VaneMultiAddress,
        signature: Vec<u8>,
        network: BlockchainNetwork,
    ) -> (r: Result<(), AvError>)
        requires
            old(self).wf(),
        ensures
            final(self).wf(),
            (final(self)@, r) == sender_confirm_step(old(self)@, address@, multi_id@, signature@, network),
    {
        let scheme = match scheme_for(network) {
            Some(s) => s,
            None => return Err(AvError::UnsupportedNetworkError),
        };
        let mut tx = match self.get_confirmation_transaction_data(&multi_id) {
            Ok(c) => c,
            Err(AvError::NotFoundError) => {
                return match self.db.transactions.get(&multi_id) {
                    Some(_) => Err(AvError::StateConflictError),
                    None => Err(AvError::NotFoundError),
                };
            },
            Err(e) => return Err(e),
        };
        if tx.get_confirmation_status() != ConfirmationStatus::WaitingForSender || tx.confirmed_receiver_address.is_none() {
            return Err(AvError::StateConflictError);
        }
        match verify(&address, tx.tx_id.as_slice(), &signature, scheme) {
            Err(e) => Err(to_av_error(e)),
            Ok(false) => Err(AvError::SignatureVerificationError),
            Ok(true) => {
                let candidate = tx.calculate_confirmed_multi_id(&address);
                if candidate.same_as(&multi_id) {
                    tx.set_confirmed_sender(address);
                    tx.update_confirmation_status(ConfirmationStatus::Ready);
                    self.set_confirmation_transaction_data(&multi_id, &tx);
                    let tx_simulation_object = TxSimulationObject::from_confirmation(tx);
                    self.propagate_tx(&tx_simulation_object);
                    Ok(())
                } else {
                    tx.update_confirmation_status(ConfirmationStatus::RejectedMismatchAddress);
                    self.set_confirmation_transaction_data(&multi_id, &tx);
                    self.record_reverted_tx(address, &tx);
                    Err(AvError::AddressMismatchError)
                }
            },
        }
    }

    /// Reverts the transaction under `multi_id` while it still waits for a
    /// confirmation: it leaves the tables and both pending lists and is logged
    /// as reverted for `address`.
    pub fn sender_revert_transaction(
        &mut self,
        address: VaneMultiAddress,
        multi_id: VaneMultiAddress,
        network: BlockchainNetwork,
    ) -> (r: Result<(), AvError>)
        requires
            old(self).wf(),
        ensures
            final(self).wf(),
            (final(self)@, r) == revert_step(old(self)@, address@, multi_id@),
    {
        let tx = match self.get_transaction(&multi_id) {
            Ok(t) => t,
            Err(e) => return Err(e),
        };
        let mut record = match self.get_confirmation_transaction_data(&multi_id) {
            Ok(c) => c,
            Err(AvError::NotFoundError) => TxConfirmationObject::from(tx.duplicate()),
            Err(e) => return Err(e),
        };
        let status = record.get_confirmation_status();
        if status != ConfirmationStatus::WaitingForReceiver && status != ConfirmationStatus::WaitingForSender {
            return Err(AvError::StateConflictError);
        }
        record.update_confirmation_status(ConfirmationStatus::RejectedSenderRevert);
        self.remove_pending(&tx.sender_address, &multi_id);
        self.remove_pending(&tx.receiver_address, &multi_id);
        self.db.transactions.remove(&multi_id);
        self.db.confirmation.remove(&multi_id);
        self.record_reverted_tx(address, &record);
        Ok(())
    }
}

} // verus!
