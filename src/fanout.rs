//! Snapshots of the store for subscribers: pending transactions per address,
//! pending confirmations per address, the reverted log and the ready queue.
use vstd::prelude::*;
use crate::codec::{confirmation_decoding, decode_confirmation};
use crate::handler::{
    lookup_confirmation, lookup_tx, pending_ids, simulation_result_matches, AvError,
    TransactionHandler,
};
use crate::primitives::{
    addresses_view, ConfirmationModel, TxConfirmationObject, TxObject, TxObjectModel,
    TxSimulationObject, VaneMultiAddress,
};
use crate::store::DbModel;

verus! {

/// The transactions stored under `ids`, in order; commitments with no
/// transaction are passed over, and a record that does not decode fails the whole.
pub open spec fn txs_under(db: DbModel, ids: Seq<crate::primitives::AddressModel>) -> Result<Seq<TxObjectModel>, AvError>
    decreases ids.len(),
{
    if ids.len() == 0 {
        Ok(Seq::empty())
    } else {
        match lookup_tx(db, ids[0]) {
            Err(AvError::NotFoundError) => txs_under(db, ids.skip(1)),
            Err(e) => Err(e),
            Ok(t) => match txs_under(db, ids.skip(1)) {
                Ok(rest) => Ok(seq![t] + rest),
                Err(e) => Err(e),
            },
        }
    }
}

/// The confirmation records stored under `ids`, in order, as `txs_under` does
/// for transactions.
pub open spec fn confirmations_under(db: DbModel, ids: Seq<crate::primitives::AddressModel>) -> Result<Seq<ConfirmationModel>, AvError>
    decreases ids.len(),
{
    if ids.len() == 0 {
        Ok(Seq::empty())
    } else {
        match lookup_confirmation(db, ids[0]) {
            Err(AvError::NotFoundError) => confirmations_under(db, ids.skip(1)),
            Err(e) => Err(e),
            Ok(c) => match confirmations_under(db, ids.skip(1)) {
                Ok(rest) => Ok(seq![c] + rest),
                Err(e) => Err(e),
            },
        }
    }
}

/// The records of the reverted log, oldest first.
pub open spec fn reverted_records(log: Seq<(crate::primitives::AddressModel, Seq<u8>)>) -> Result<Seq<ConfirmationModel>, AvError>
    decreases log.len(),
{
    if log.len() == 0 {
        Ok(Seq::empty())
    } else {
        match confirmation_decoding(log[0].1) {
            None => Err(AvError::CorruptRecordError),
            Some(c) => match reverted_records(log.skip(1)) {
                Ok(rest) => Ok(seq![c] + rest),
                Err(e) => Err(e),
            },
        }
    }
}

/// The first transaction under `ids` whose identifier is `want`, or the first
/// of all when no identifier is asked for.
pub open spec fn first_tx(db: DbModel, ids: Seq<crate::primitives::AddressModel>, want: Option<Seq<u8>>) -> Result<TxObjectModel, AvError>
    decreases ids.len(),
{
    if ids.len() == 0 {
        Err(AvError::NotFoundError)
    } else {
        match lookup_tx(db, ids[0]) {
            Ok(t) => if want is None || want == Some(t.tx_id) {
                Ok(t)
            } else {
                first_tx(db, ids.skip(1), want)
            },
            Err(AvError::NotFoundError) => first_tx(db, ids.skip(1), want),
            Err(e) => Err(e),
        }
    }
}

pub open spec fn prefixed<T>(acc: Seq<T>, r: Result<Seq<T>, AvError>) -> Result<Seq<T>, AvError> {
    match r {
        Ok(rest) => Ok(acc + rest),
        Err(e) => Err(e),
    }
}

pub open spec fn txs_view(r: Result<Vec<TxObject>, AvError>) -> Result<Seq<TxObjectModel>, AvError> {
    match r {
        Ok(v) => Ok(v@.map_values(|t: TxObject| t@)),
        Err(e) => Err(e),
    }
}

pub open spec fn confirmations_view(r: Result<Vec<TxConfirmationObject>, AvError>) -> Result<Seq<ConfirmationModel>, AvError> {
    match r {
        Ok(v) => Ok(v@.map_values(|c: TxConfirmationObject| c@)),
        Err(e) => Err(e),
    }
}

pub proof fn lemma_prefixed_push<T>(acc: Seq<T>, x: T, r: Result<Seq<T>, AvError>)
    ensures
        prefixed(acc.push(x), r) == prefixed(acc, match r {
            Ok(rest) => Ok(seq![x] + rest),
            Err(e) => Err(e),
        }),
{
    if let Ok(rest) = r {
        assert(acc.push(x) + rest =~= acc + (seq![x] + rest));
    }
}

/// Two reads of one store state give the same results: a transaction looked up
/// by commitment, the pending list of an address, and a transaction looked up
/// by address and identifier.
pub proof fn lemma_repeated_reads_agree(
    db: DbModel,
    m: crate::primitives::AddressModel,
    account: crate::primitives::AddressModel,
    want: Option<Seq<u8>>,
    first: (Result<TxObject, AvError>, Seq<crate::primitives::AddressModel>, Result<TxObject, AvError>),
    second: (Result<TxObject, AvError>, Seq<crate::primitives::AddressModel>, Result<TxObject, AvError>),
)
    requires
        crate::handler::tx_result_view(first.0) == lookup_tx(db, m),
        crate::handler::tx_result_view(second.0) == lookup_tx(db, m),
        first.1 == pending_ids(db, account),
        second.1 == pending_ids(db, account),
        crate::handler::tx_result_view(first.2) == first_tx(db, pending_ids(db, account), want),
        crate::handler::tx_result_view(second.2) == first_tx(db, pending_ids(db, account), want),
    ensures
        crate::handler::tx_result_view(first.0) == crate::handler::tx_result_view(second.0),
        first.1 == second.1,
        crate::handler::tx_result_view(first.2) == crate::handler::tx_result_view(second.2),
{
}

pub proof fn lemma_prefixed_empty<T>(r: Result<Seq<T>, AvError>)
    ensures
        prefixed(Seq::<T>::empty(), r) == r,
{
    if let Ok(rest) = r {
        assert(Seq::<T>::empty() + rest =~= rest);
    }
}

impl TransactionHandler {
    /// The transactions pending for `ids`, in order.
    fn collect_txs(&self, ids: &Vec<VaneMultiAddress>) -> (r: Result<Vec<TxObject>, AvError>)
        requires
            self.wf(),
        ensures
            txs_view(r) == txs_under(self@, addresses_view(ids@)),
    {
        let ghost all = addresses_view(ids@);
        let mut out: Vec<TxObject> = Vec::new();
        let mut i: usize = 0;
        proof {
            assert(all.skip(0) =~= all);
            assert(out@.map_values(|t: TxObject| t@) =~= Seq::<TxObjectModel>::empty());
            lemma_prefixed_empty(txs_under(self@, all));
        }
        while i < ids.len()
            invariant
                self.wf(),
                i <= ids@.len(),
                all == addresses_view(ids@),
                txs_under(self@, all) == prefixed(out@.map_values(|t: TxObject| t@), txs_under(self@, all.skip(i as int))),
            decreases ids@.len() - i,
        {
            let ghost acc = out@.map_values(|t: TxObject| t@);
            assert(all.skip(i as int).skip(1) =~= all.skip(i + 1));
            assert(all.skip(i as int)[0] == all[i as int]);
            match self.get_transaction(&ids[i]) {
                Ok(t) => {
                    proof {
                        lemma_prefixed_push(acc, t@, txs_under(self@, all.skip(i + 1)));
                    }
                    out.push(t);
                    assert(out@.map_values(|t: TxObject| t@) =~= acc.push(out@[out@.len() - 1]@));
                },
                Err(AvError::NotFoundError) => {},
                Err(e) => {
                    return Err(e);
                },
            }
            i = i + 1;
        }
        assert(all.skip(i as int) =~= Seq::<crate::primitives::AddressModel>::empty());
        assert(out@.map_values(|t: TxObject| t@) + Seq::<TxObjectModel>::empty() =~= out@.map_values(|t: TxObject| t@));
        Ok(out)
    }

    /// The confirmation records pending for `ids`, in order.
    fn collect_confirmations(&self, ids: &Vec<VaneMultiAddress>) -> (r: Result<Vec<TxConfirmationObject>, AvError>)
        requires
            self.wf(),
        ensures
            confirmations_view(r) == confirmations_under(self@, addresses_view(ids@)),
    {
        let ghost all = addresses_view(ids@);
        let mut out: Vec<TxConfirmationObject> = Vec::new();
        let mut i: usize = 0;
        proof {
            assert(all.skip(0) =~= all);
            assert(out@.map_values(|c: TxConfirmationObject| c@) =~= Seq::<ConfirmationModel>::empty());
            lemma_prefixed_empty(confirmations_under(self@, all));
        }
        while i < ids.len()
            invariant
                self.wf(),
                i <= ids@.len(),
                all == addresses_view(ids@),
                confirmations_under(self@, all) == prefixed(
                    out@.map_values(|c: TxConfirmationObject| c@),
                    confirmations_under(self@, all.skip(i as int)),
                ),
            decreases ids@.len() - i,
        {
            let ghost acc = out@.map_values(|c: TxConfirmationObject| c@);
            assert(all.skip(i as int).skip(1) =~= all.skip(i + 1));
            assert(all.skip(i as int)[0] == all[i as int]);
            match self.get_confirmation_transaction_data(&ids[i]) {
                Ok(c) => {
                    proof {
                        lemma_prefixed_push(acc, c@, confirmations_under(self@, all.skip(i + 1)));
                    }
                    out.push(c);
                    assert(out@.map_values(|c: TxConfirmationObject| c@) =~= acc.push(out@[out@.len() - 1]@));
                },
                Err(AvError::NotFoundError) => {},
                Err(e) => {
                    return Err(e);
                },
            }
            i = i + 1;
        }
        assert(all.skip(i as int) =~= Seq::<crate::primitives::AddressModel>::empty());
        assert(out@.map_values(|c: TxConfirmationObject| c@) + Seq::<ConfirmationModel>::empty()
            =~= out@.map_values(|c: TxConfirmationObject| c@));
        Ok(out)
    }

    fn pending_list(&self, address: &VaneMultiAddress) -> (r: Vec<VaneMultiAddress>)
        requires
            self.wf(),
        ensures
            addresses_view(r@) == pending_ids(self@, address@),
    {
        match self.get_pending_multi_ids(address) {
            Some(ids) => ids,
            None => {
                let ids: Vec<VaneMultiAddress> = Vec::new();
                assert(addresses_view(ids@) =~= pending_ids(self@, address@));
                ids
            },
        }
    }

    /// Records `subscriber` and returns the transactions pending for `address`.
    pub fn receiver_subscribe_tx_confirmation(&mut self, address: &VaneMultiAddress, subscriber: String) -> (r: Result<Vec<TxObject>, AvError>)
        requires
            old(self).wf(),
        ensures
            final(self).wf(),
            final(self)@ == (DbModel { subscribers: final(self)@.subscribers, ..old(self)@ }),
            final(self)@.subscribers == (if old(self)@.subscribers.contains(subscriber@) {
                old(self)@.subscribers
            } else {
                old(self)@.subscribers.push(subscriber@)
            }),
            txs_view(r) == txs_under(old(self)@, pending_ids(old(self)@, address@)),
    {
        let ids = self.pending_list(address);
        let r = self.collect_txs(&ids);
        self.record_subscriber(subscriber);
        r
    }

    /// Records `subscriber` and returns the confirmation records pending for `address`.
    pub fn sender_subscribe_tx_confirmation(&mut self, address: &VaneMultiAddress, subscriber: String) -> (r: Result<Vec<TxConfirmationObject>, AvError>)
        requires
            old(self).wf(),
        ensures
            final(self).wf(),
            final(self)@ == (DbModel { subscribers: final(self)@.subscribers, ..old(self)@ }),
            final(self)@.subscribers == (if old(self)@.subscribers.contains(subscriber@) {
                old(self)@.subscribers
            } else {
                old(self)@.subscribers.push(subscriber@)
            }),
            confirmations_view(r) == confirmations_under(old(self)@, pending_ids(old(self)@, address@)),
    {
        let ids = self.pending_list(address);
        let r = self.collect_confirmations(&ids);
        self.record_subscriber(subscriber);
        r
    }

    /// The records of the reverted log, oldest first.
    pub fn get_reverted_txs(&self) -> (r: Result<Vec<TxConfirmationObject>, AvError>)
        requires
            self.wf(),
        ensures
            confirmations_view(r) == reverted_records(self@.reverted),
    {
        let ghost log = self@.reverted;
        let mut out: Vec<TxConfirmationObject> = Vec::new();
        let mut i: usize = 0;
        proof {
            assert(log.skip(0) =~= log);
            assert(out@.map_values(|c: TxConfirmationObject| c@) =~= Seq::<ConfirmationModel>::empty());
            lemma_prefixed_empty(reverted_records(log));
        }
        while i < self.db.reverted_transactions.len()
            invariant
                self.wf(),
                i <= log.len(),
                log == self@.reverted,
                log.len() == self.db.reverted_transactions@.len(),
                reverted_records(log) == prefixed(
                    out@.map_values(|c: TxConfirmationObject| c@),
                    reverted_records(log.skip(i as int)),
                ),
            decreases log.len() - i,
        {
            let ghost acc = out@.map_values(|c: TxConfirmationObject| c@);
            assert(log.skip(i as int).skip(1) =~= log.skip(i + 1));
            assert(log.skip(i as int)[0] == log[i as int]);
            match decode_confirmation(&self.db.reverted_transactions[i].1) {
                Some(c) => {
                    proof {
                        lemma_prefixed_push(acc, c@, reverted_records(log.skip(i + 1)));
                    }
                    out.push(c);
                    assert(out@.map_values(|c: TxConfirmationObject| c@) =~= acc.push(out@[out@.len() - 1]@));
                },
                None => {
                    return Err(AvError::CorruptRecordError);
                },
            }
            i = i + 1;
        }
        assert(log.skip(i as int) =~= Seq::<(crate::primitives::AddressModel, Seq<u8>)>::empty());
        assert(out@.map_values(|c: TxConfirmationObject| c@) + Seq::<ConfirmationModel>::empty()
            =~= out@.map_values(|c: TxConfirmationObject| c@));
        Ok(out)
    }

    /// The reverted feed: the records of the reverted log, oldest first.
    pub fn subscribe_revert_tx(&self) -> (r: Result<Vec<TxConfirmationObject>, AvError>)
        requires
            self.wf(),
        ensures
            confirmations_view(r) == reverted_records(self@.reverted),
    {
        self.get_reverted_txs()
    }

    /// Drains the ready queue, oldest first, decoding each record.
    pub fn receive_confirmed_tx(&mut self) -> (r: Vec<Result<TxSimulationObject, AvError>>)
        requires
            old(self).wf(),
        ensures
            final(self).wf(),
            final(self)@ == (DbModel { ready: Seq::empty(), ..old(self)@ }),
            r@.len() == old(self)@.ready.len(),
            forall|i: int| 0 <= i < r@.len() ==> simulation_result_matches(#[trigger] r@[i], old(self)@.ready[i]),
    {
        let ghost q = old(self)@.ready;
        let mut out: Vec<Result<TxSimulationObject, AvError>> = Vec::new();
        assert(q.skip(0) =~= q);
        loop
            invariant
                self.wf(),
                q == old(self)@.ready,
                self@ == (DbModel { ready: q.skip(out@.len() as int), ..old(self)@ }),
                out@.len() <= q.len(),
                forall|i: int| 0 <= i < out@.len() ==> simulation_result_matches(#[trigger] out@[i], q[i]),
            decreases q.len() - out@.len(),
        {
            let ghost n = out@.len() as int;
            match self.get_simulate_tx() {
                Some(x) => {
                    assert(q.skip(n)[0] == q[n]);
                    assert(q.skip(n).skip(1) =~= q.skip(n + 1));
                    out.push(x);
                },
                None => {
                    assert(self@.ready == q.skip(n));
                    assert(self@.ready.len() == 0);
                    assert(q.skip(n).len() == q.len() - n);
                    assert(out@.len() == q.len());
                    assert(q.skip(n) =~= Seq::<Seq<u8>>::empty());
                    return out;
                },
            }
        }
    }

    /// The first transaction pending for `address` with the identifier `tx_id`,
    /// or the first pending for it when no identifier is given.
    pub fn find_transaction(&self, address: &VaneMultiAddress, tx_id: Option<[u8; 32]>) -> (r: Result<TxObject, AvError>)
        requires
            self.wf(),
        ensures
            crate::handler::tx_result_view(r) == first_tx(self@, pending_ids(self@, address@), match tx_id {
                Some(b) => Some(b@),
                None => None,
            }),
    {
        let ghost want = match tx_id {
            Some(b) => Some(b@),
            None => None::<Seq<u8>>,
        };
        let ids = self.pending_list(address);
        let ghost all = addresses_view(ids@);
        let mut i: usize = 0;
        assert(all.skip(0) =~= all);
        while i < ids.len()
            invariant
                self.wf(),
                i <= ids@.len(),
                all == addresses_view(ids@),
                all == pending_ids(self@, address@),
                first_tx(self@, all, want) == first_tx(self@, all.skip(i as int), want),
                want == match tx_id {
                    Some(b) => Some(b@),
                    None => None::<Seq<u8>>,
                },
            decreases ids@.len() - i,
        {
            assert(all.skip(i as int).skip(1) =~= all.skip(i + 1));
            assert(all.skip(i as int)[0] == all[i as int]);
            match self.get_transaction(&ids[i]) {
                Ok(t) => {
                    let wanted = match tx_id {
                        None => true,
                        Some(b) => crate::primitives::bytes_equal(b.as_slice(), t.tx_id.as_slice()),
                    };
                    if wanted {
                        return Ok(t);
                    }
                },
                Err(AvError::NotFoundError) => {},
                Err(e) => {
                    return Err(e);
                },
            }
            i = i + 1;
        }
        Err(AvError::NotFoundError)
    }
}

} // verus!
