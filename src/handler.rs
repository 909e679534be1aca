//! The confirmation state machine over the store: submission, receiver and
//! sender confirmation, reversion, and the snapshots that subscribers read.
use vstd::prelude::*;
use crate::codec::{
    confirmation_decoding, decode_confirmation, decode_simulation, decode_tx_object,
    enc_confirmation, enc_simulation, enc_tx_object, encode_confirmation, encode_simulation,
    encode_tx_object, simulation_decoding, tx_object_decoding,
};
use crate::primitives::{
    addresses_view, copy_addresses, AddressModel, ConfirmationModel, TxConfirmationObject, TxObject, TxObjectModel, TxSimulationObject, VaneMultiAddress,
};
use crate::store::{DbModel, MockDB, MultiIdList};

verus! {

/// What an operation of the protocol can fail with.
#[derive(Debug, Clone, Copy, PartialEq, Eq, Structural)]
pub enum AvError {
    /// No record is stored under the key.
    NotFoundError,
    /// The network has no supported signature scheme.
    UnsupportedNetworkError,
    /// The signature bytes are not a signature of the scheme.
    BadSignatureEncodingError,
    /// The signature is well formed but does not verify.
    SignatureVerificationError,
    /// The address has no public key of the scheme.
    AddressConversionError,
    /// The operation came out of the order the protocol requires.
    StateConflictError,
    /// The confirming sender does not reproduce the commitment.
    AddressMismatchError,
    /// A stored record does not decode.
    CorruptRecordError,
}

/// The transaction stored under `m`.
pub open spec fn lookup_tx(db: DbModel, m: AddressModel) -> Result<TxObjectModel, AvError> {
    if !db.transactions.contains_key(m) {
        Err(AvError::NotFoundError)
    } else {
        match tx_object_decoding(db.transactions[m]) {
            Some(t) => Ok(t),
            None => Err(AvError::CorruptRecordError),
        }
    }
}

/// The confirmation record stored under `m`.
pub open spec fn lookup_confirmation(db: DbModel, m: AddressModel) -> Result<ConfirmationModel, AvError> {
    if !db.confirmations.contains_key(m) {
        Err(AvError::NotFoundError)
    } else {
        match confirmation_decoding(db.confirmations[m]) {
            Some(c) => Ok(c),
            None => Err(AvError::CorruptRecordError),
        }
    }
}

/// The commitments pending for `a`, oldest first.
pub open spec fn pending_ids(db: DbModel, a: AddressModel) -> Seq<AddressModel> {
    if db.pending.contains_key(a) {
        db.pending[a]
    } else {
        Seq::empty()
    }
}

/// `l` with `m` at its end, unless `m` is in it already.
pub open spec fn appended(l: Seq<AddressModel>, m: AddressModel) -> Seq<AddressModel> {
    if l.contains(m) {
        l
    } else {
        l.push(m)
    }
}

/// The pending index with `m` appended for `a`.
pub open spec fn with_pending(db: DbModel, a: AddressModel, m: AddressModel) -> DbModel {
    DbModel { pending: db.pending.insert(a, appended(pending_ids(db, a), m)), ..db }
}

/// `l` without any `m`, in order.
pub open spec fn without(l: Seq<AddressModel>, m: AddressModel) -> Seq<AddressModel>
    decreases l.len(),
{
    if l.len() == 0 {
        l
    } else if l.last() == m {
        without(l.drop_last(), m)
    } else {
        without(l.drop_last(), m).push(l.last())
    }
}

/// The pending index with `m` taken out of the list of `a`.
pub open spec fn without_pending(db: DbModel, a: AddressModel, m: AddressModel) -> DbModel {
    if db.pending.contains_key(a) {
        DbModel { pending: db.pending.insert(a, without(db.pending[a], m)), ..db }
    } else {
        db
    }
}

/// The store after `t` is put under its commitment and listed for both parties.
pub open spec fn after_put_transaction(db: DbModel, t: TxObjectModel) -> DbModel {
    let stored = DbModel { transactions: db.transactions.insert(t.multi_id, enc_tx_object(t)), ..db };
    with_pending(with_pending(stored, t.sender, t.multi_id), t.receiver, t.multi_id)
}

pub open spec fn tx_result_view(r: Result<TxObject, AvError>) -> Result<TxObjectModel, AvError> {
    match r {
        Ok(t) => Ok(t@),
        Err(e) => Err(e),
    }
}

pub open spec fn confirmation_result_view(r: Result<TxConfirmationObject, AvError>) -> Result<ConfirmationModel, AvError> {
    match r {
        Ok(c) => Ok(c@),
        Err(e) => Err(e),
    }
}

/// What popping the encoded simulation record `b` gives.
pub open spec fn simulation_result_matches(r: Result<TxSimulationObject, AvError>, b: Seq<u8>) -> bool {
    match r {
        Ok(m) => simulation_decoding(b) == Some(m@),
        Err(e) => simulation_decoding(b) is None && e == AvError::CorruptRecordError,
    }
}

/// The request handler: the store, and the generator that submissions draw
/// their entropy from.
pub struct TransactionHandler {
    pub db: MockDB,
    pub rng: tinyrand::Wyrand,
}

/// tinyrand's `Wyrand` generator, held as an opaque value.
#[verifier::external_type_specification]
#[verifier::external_body]
pub struct ExWyrand(tinyrand::Wyrand);

/// Relies on tinyrand's `Seeded::seed` for `Wyrand`, which makes a generator
/// from a seed; nothing is stated of its state.
#[verifier::external_body]
fn seeded_rng(seed: u64) -> tinyrand::Wyrand {
    <tinyrand::Wyrand as tinyrand::Seeded>::seed(seed)
}

/// Relies on tinyrand's `Rand::next_u128`, which advances the generator; any
/// value may come back.
#[verifier::external_body]
fn next_entropy(rng: &mut tinyrand::Wyrand) -> u128 {
    <tinyrand::Wyrand as tinyrand::Rand>::next_u128(rng)
}

/// Draws fresh entropy for a submission; the store is left as it was.
pub(crate) fn draw_entropy(h: &mut TransactionHandler) -> (r: u128)
    requires
        old(h).wf(),
    ensures
        final(h).wf(),
        final(h)@ == old(h)@,
{
    next_entropy(&mut h.rng)
}

impl View for TransactionHandler {
    type V = DbModel;

    open spec fn view(&self) -> DbModel {
        self.db@
    }
}

impl TransactionHandler {
    pub open spec fn wf(&self) -> bool {
        self.db.wf()
    }

    /// A handler with empty tables, its generator seeded with `seed`.
    pub fn new(seed: u64) -> (r: TransactionHandler)
        ensures
            r.wf(),
            r@ == MockDB::new_model(),
    {
        let db = MockDB::new();
        TransactionHandler { db, rng: seeded_rng(seed) }
    }

    pub(crate) fn add_pending(&mut self, address: &VaneMultiAddress, multi_id: &VaneMultiAddress)
        requires
            old(self).wf(),
        ensures
            final(self).wf(),
            final(self)@ == with_pending(old(self)@, address@, multi_id@),
    {
        let mut ids: Vec<VaneMultiAddress> = match self.db.multi_ids.get(address) {
            Some(list) => copy_addresses(&list.ids),
            None => Vec::new(),
        };
        let ghost l = addresses_view(ids@);
        assert(l == pending_ids(self@, address@)) by {
            if !self@.pending.contains_key(address@) {
                assert(l =~= Seq::<AddressModel>::empty());
            }
        }
        let mut i: usize = 0;
        let mut found = false;
        while i < ids.len()
            invariant
                i <= ids@.len(),
                l == addresses_view(ids@),
                found ==> l.contains(multi_id@),
                !found ==> forall|j: int| 0 <= j < i ==> l[j] != multi_id@,
            decreases ids@.len() - i,
        {
            if ids[i].same_as(multi_id) {
                found = true;
                assert(l[i as int] == multi_id@);
            }
            i = i + 1;
        }
        if !found {
            ids.push(multi_id.duplicate());
            assert(addresses_view(ids@) =~= l.push(multi_id@));
        }
        self.db.multi_ids.insert(address.duplicate(), MultiIdList { ids });
    }

    pub(crate) fn remove_pending(&mut self, address: &VaneMultiAddress, multi_id: &VaneMultiAddress)
        requires
            old(self).wf(),
        ensures
            final(self).wf(),
            final(self)@ == without_pending(old(self)@, address@, multi_id@),
    {
        let old_ids = match self.db.multi_ids.get(address) {
            Some(list) => copy_addresses(&list.ids),
            None => {
                return;
            },
        };
        let ghost l = addresses_view(old_ids@);
        let mut ids: Vec<VaneMultiAddress> = Vec::new();
        let mut i: usize = 0;
        while i < old_ids.len()
            invariant
                i <= old_ids@.len(),
                l == addresses_view(old_ids@),
                addresses_view(ids@) == without(l.subrange(0, i as int), multi_id@),
            decreases old_ids@.len() - i,
        {
            assert(l.subrange(0, i + 1).drop_last() =~= l.subrange(0, i as int));
            if !old_ids[i].same_as(multi_id) {
                ids.push(old_ids[i].duplicate());
                assert(addresses_view(ids@) =~= without(l.subrange(0, i as int), multi_id@).push(l[i as int]));
            }
            i = i + 1;
        }
        assert(l.subrange(0, i as int) =~= l);
        self.db.multi_ids.insert(address.duplicate(), MultiIdList { ids });
    }

    /// Stores `data` under its commitment and lists the commitment for its
    /// sender and its receiver, in one step.
    pub fn set_transaction_data(&mut self, data: &TxObject)
        requires
            old(self).wf(),
        ensures
            final(self).wf(),
            final(self)@ == after_put_transaction(old(self)@, data@),
    {
        let bytes = encode_tx_object(data);
        self.db.transactions.insert(data.multi_id.duplicate(), bytes);
        self.add_pending(&data.sender_address, &data.multi_id);
        self.add_pending(&data.receiver_address, &data.multi_id);
    }

    /// Stores a confirmation record under `multi_id`.
    pub fn set_confirmation_transaction_data(&mut self, multi_id: &VaneMultiAddress, tx_confirmation: &TxConfirmationObject)
        requires
            old(self).wf(),
        ensures
            final(self).wf(),
            final(self)@ == (DbModel {
                confirmations: old(self)@.confirmations.insert(multi_id@, enc_confirmation(tx_confirmation@)),
                ..old(self)@
            }),
    {
        let bytes = encode_confirmation(tx_confirmation);
        self.db.confirmation.insert(multi_id.duplicate(), bytes);
    }

    /// The confirmation record stored under `multi_id`.
    pub fn get_confirmation_transaction_data(&self, multi_id: &VaneMultiAddress) -> (r: Result<TxConfirmationObject, AvError>)
        requires
            self.wf(),
        ensures
            confirmation_result_view(r) == lookup_confirmation(self@, multi_id@),
    {
        match self.db.confirmation.get(multi_id) {
            Some(bytes) => match decode_confirmation(bytes) {
                Some(c) => Ok(c),
                None => Err(AvError::CorruptRecordError),
            },
            None => Err(AvError::NotFoundError),
        }
    }

    /// The commitments pending for `account`, if it has a list.
    pub fn get_pending_multi_ids(&self, account: &VaneMultiAddress) -> (r: Option<Vec<VaneMultiAddress>>)
        requires
            self.wf(),
        ensures
            match r {
                Some(ids) => self@.pending.contains_key(account@) && addresses_view(ids@) == self@.pending[account@],
                None => !self@.pending.contains_key(account@),
            },
    {
        match self.db.multi_ids.get(account) {
            Some(list) => Some(copy_addresses(&list.ids)),
            None => None,
        }
    }

    /// The transaction stored under `multi_id`.
    pub fn get_transaction(&self, multi_id: &VaneMultiAddress) -> (r: Result<TxObject, AvError>)
        requires
            self.wf(),
        ensures
            tx_result_view(r) == lookup_tx(self@, multi_id@),
    {
        match self.db.transactions.get(multi_id) {
            Some(bytes) => match decode_tx_object(bytes) {
                Some(t) => Ok(t),
                None => Err(AvError::CorruptRecordError),
            },
            None => Err(AvError::NotFoundError),
        }
    }

    /// Puts a simulation record at the back of the ready queue.
    pub fn propagate_tx(&mut self, tx_simulate: &TxSimulationObject)
        requires
            old(self).wf(),
        ensures
            final(self).wf(),
            final(self)@ == (DbModel { ready: old(self)@.ready.push(enc_simulation(tx_simulate@)), ..old(self)@ }),
    {
        let bytes = encode_simulation(tx_simulate);
        self.db.simulation.push_back(bytes);
        assert(self@.ready =~= old(self)@.ready.push(enc_simulation(tx_simulate@)));
    }

    /// The number of records in the ready queue.
    pub fn get_total_number_of_simulated_tx(&self) -> (r: usize)
        ensures
            r == self@.ready.len(),
    {
        self.db.simulation.len()
    }

    /// Takes the oldest record off the ready queue: `None` when it is empty.
    pub fn get_simulate_tx(&mut self) -> (r: Option<Result<TxSimulationObject, AvError>>)
        requires
            old(self).wf(),
        ensures
            final(self).wf(),
            old(self)@.ready.len() == 0 ==> r is None && final(self)@ == old(self)@,
            old(self)@.ready.len() > 0 ==> (r matches Some(x) && simulation_result_matches(x, old(self)@.ready[0])
                && final(self)@ == (DbModel { ready: old(self)@.ready.skip(1), ..old(self)@ })),
    {
        match self.db.simulation.pop_front() {
            Some(bytes) => {
                assert(self@.ready =~= old(self)@.ready.skip(1));
                match decode_simulation(&bytes) {
                    Some(m) => Some(Ok(m)),
                    None => Some(Err(AvError::CorruptRecordError)),
                }
            },
            None => None,
        }
    }

    /// Appends a reverted confirmation record for `sender` to the reverted log.
    pub fn record_reverted_tx(&mut self, sender: VaneMultiAddress, reverted_tx: &TxConfirmationObject)
        requires
            old(self).wf(),
        ensures
            final(self).wf(),
            final(self)@ == (DbModel {
                reverted: old(self)@.reverted.push((sender@, enc_confirmation(reverted_tx@))),
                ..old(self)@
            }),
    {
        let bytes = encode_confirmation(reverted_tx);
        self.db.reverted_transactions.push((sender, bytes));
        assert(self@.reverted =~= old(self)@.reverted.push((sender@, enc_confirmation(reverted_tx@))));
    }

    /// Records a subscriber id, once.
    pub fn record_subscriber(&mut self, id: String)
        requires
            old(self).wf(),
        ensures
            final(self).wf(),
            final(self)@ == (DbModel {
                subscribers: if old(self)@.subscribers.contains(id@) {
                    old(self)@.subscribers
                } else {
                    old(self)@.subscribers.push(id@)
                },
                ..old(self)@
            }),
    {
        let ghost subs = self@.subscribers;
        let mut i: usize = 0;
        while i < self.db.subscribed.len()
            invariant
                i <= self.db.subscribed@.len(),
                self.wf(),
                self@ == old(self)@,
                subs == self@.subscribers,
                forall|j: int| 0 <= j < i ==> subs[j] != id@,
            decreases self.db.subscribed@.len() - i,
        {
            if self.db.subscribed[i] == id {
                assert(subs[i as int] == id@);
                return;
            }
            i = i + 1;
        }
        self.db.subscribed.push(id);
        assert(self@.subscribers =~= subs.push(id@));
    }
}

impl MockDB {
    /// The contents of empty tables.
    pub open spec fn new_model() -> DbModel {
        DbModel {
            transactions: Map::empty(),
            pending: Map::empty(),
            confirmations: Map::empty(),
            ready: Seq::empty(),
            reverted: Seq::empty(),
            subscribers: Seq::empty(),
        }
    }
}

} // verus!
