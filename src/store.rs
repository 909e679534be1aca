//! The in-memory tables that hold pending transactions, confirmations, the
//! reverted log, the ready queue and the subscribers.
use vstd::prelude::*;
use std::collections::VecDeque;
use crate::primitives::{addresses_view, AddressModel, VaneMultiAddress};

verus! {

/// A table keyed by address, at most one entry per key.
pub struct Table<V: View> {
    entries: Vec<(VaneMultiAddress, V)>,
    model: Ghost<Map<AddressModel, V::V>>,
}

impl<V: View> View for Table<V> {
    type V = Map<AddressModel, V::V>;

    closed spec fn view(&self) -> Map<AddressModel, V::V> {
        self.model@
    }
}

impl<V: View> Table<V> {
    pub closed spec fn wf(&self) -> bool {
        let e = self.entries@;
        let m = self.model@;
        &&& forall|i: int| 0 <= i < e.len() ==> m.contains_key((#[trigger] e[i]).0@) && m[e[i].0@] == e[i].1@
        &&& forall|k: AddressModel| m.contains_key(k) ==> exists|i: int| 0 <= i < e.len() && (#[trigger] e[i]).0@ == k
        &&& forall|i: int, j: int| 0 <= i < e.len() && 0 <= j < e.len() && i != j ==> (#[trigger] e[i]).0@ != (#[trigger] e[j]).0@
    }

    pub fn new() -> (r: Table<V>)
        ensures
            r.wf(),
            r@ == Map::<AddressModel, V::V>::empty(),
    {
        Table { entries: Vec::new(), model: Ghost(Map::empty()) }
    }

    fn find(&self, k: &VaneMultiAddress) -> (r: Option<usize>)
        requires
            self.wf(),
        ensures
            match r {
                Some(i) => i < self.entries@.len() && self.entries@[i as int].0@ == k@,
                None => !self@.contains_key(k@),
            },
    {
        let mut i: usize = 0;
        while i < self.entries.len()
            invariant
                self.wf(),
                i <= self.entries@.len(),
                forall|j: int| 0 <= j < i ==> (#[trigger] self.entries@[j]).0@ != k@,
            decreases self.entries@.len() - i,
        {
            if self.entries[i].0.same_as(k) {
                return Some(i);
            }
            i = i + 1;
        }
        None
    }

    /// The value under `k`, if there is one.
    pub fn get(&self, k: &VaneMultiAddress) -> (r: Option<&V>)
        requires
            self.wf(),
        ensures
            match r {
                Some(v) => self@.contains_key(k@) && v@ == self@[k@],
                None => !self@.contains_key(k@),
            },
    {
        match self.find(k) {
            Some(i) => Some(&self.entries[i].1),
            None => None,
        }
    }

    /// Puts `v` under `k`, in place of any value there.
    pub fn insert(&mut self, k: VaneMultiAddress, v: V)
        requires
            old(self).wf(),
        ensures
            final(self).wf(),
            final(self)@ == old(self)@.insert(k@, v@),
    {
        let ghost kv = k@;
        let ghost vv = v@;
        let ghost old_e = self.entries@;
        match self.find(&k) {
            Some(i) => {
                self.entries.set(i, (k, v));
                self.model = Ghost(self.model@.insert(kv, vv));
                assert forall|j: int| 0 <= j < self.entries@.len() implies
                    self.model@.contains_key((#[trigger] self.entries@[j]).0@)
                    && self.model@[self.entries@[j].0@] == self.entries@[j].1@ by {
                    if j != i {
                        assert(old_e[j] == self.entries@[j]);
                        assert(old_e[j].0@ != old_e[i as int].0@);
                    }
                }
                assert forall|key: AddressModel| self.model@.contains_key(key) implies
                    exists|j: int| 0 <= j < self.entries@.len() && (#[trigger] self.entries@[j]).0@ == key by {
                    if key == kv {
                        assert(self.entries@[i as int].0@ == key);
                    } else {
                        let j = choose|j: int| 0 <= j < old_e.len() && (#[trigger] old_e[j]).0@ == key;
                        assert(self.entries@[j].0@ == key);
                    }
                }
                assert forall|a: int, b: int| 0 <= a < self.entries@.len() && 0 <= b < self.entries@.len() && a != b implies
                    (#[trigger] self.entries@[a]).0@ != (#[trigger] self.entries@[b]).0@ by {
                    assert(old_e[a].0@ != old_e[b].0@);
                    assert(old_e[i as int].0@ == kv);
                }
            },
            None => {
                self.entries.push((k, v));
                self.model = Ghost(self.model@.insert(kv, vv));
                let ghost n = old_e.len() as int;
                assert forall|j: int| 0 <= j < self.entries@.len() implies
                    self.model@.contains_key((#[trigger] self.entries@[j]).0@)
                    && self.model@[self.entries@[j].0@] == self.entries@[j].1@ by {
                    if j < n {
                        assert(old_e[j] == self.entries@[j]);
                        assert(old_e[j].0@ != kv);
                    }
                }
                assert forall|key: AddressModel| self.model@.contains_key(key) implies
                    exists|j: int| 0 <= j < self.entries@.len() && (#[trigger] self.entries@[j]).0@ == key by {
                    if key == kv {
                        assert(self.entries@[n].0@ == key);
                    } else {
                        let j = choose|j: int| 0 <= j < old_e.len() && (#[trigger] old_e[j]).0@ == key;
                        assert(self.entries@[j].0@ == key);
                    }
                }
                assert forall|a: int, b: int| 0 <= a < self.entries@.len() && 0 <= b < self.entries@.len() && a != b implies
                    (#[trigger] self.entries@[a]).0@ != (#[trigger] self.entries@[b]).0@ by {
                    if a < n && b < n {
                        assert(old_e[a].0@ != old_e[b].0@);
                    } else if a < n {
                        assert(old_e[a].0@ != kv);
                    } else if b < n {
                        assert(old_e[b].0@ != kv);
                    }
                }
            },
        }
    }

    /// Removes the entry under `k`, if there is one.
    pub fn remove(&mut self, k: &VaneMultiAddress)
        requires
            old(self).wf(),
        ensures
            final(self).wf(),
            final(self)@ == old(self)@.remove(k@),
    {
        let ghost kv = k@;
        let ghost old_e = self.entries@;
        match self.find(k) {
            Some(i) => {
                let _ = self.entries.remove(i);
                self.model = Ghost(self.model@.remove(kv));
                let ghost e = self.entries@;
                assert forall|j: int| 0 <= j < e.len() implies
                    self.model@.contains_key((#[trigger] e[j]).0@) && self.model@[e[j].0@] == e[j].1@ by {
                    if j < i {
                        assert(e[j] == old_e[j]);
                        assert(old_e[j].0@ != old_e[i as int].0@);
                    } else {
                        assert(e[j] == old_e[j + 1]);
                        assert(old_e[j + 1].0@ != old_e[i as int].0@);
                    }
                }
                assert forall|key: AddressModel| self.model@.contains_key(key) implies
                    exists|j: int| 0 <= j < e.len() && (#[trigger] e[j]).0@ == key by {
                    let j = choose|j: int| 0 <= j < old_e.len() && (#[trigger] old_e[j]).0@ == key;
                    assert(j != i);
                    if j < i {
                        assert(e[j].0@ == key);
                    } else {
                        assert(e[j - 1].0@ == key);
                    }
                }
                assert forall|a: int, b: int| 0 <= a < e.len() && 0 <= b < e.len() && a != b implies
                    (#[trigger] e[a]).0@ != (#[trigger] e[b]).0@ by {
                    let oa = if a < i { a } else { a + 1 };
                    let ob = if b < i { b } else { b + 1 };
                    assert(e[a] == old_e[oa]);
                    assert(e[b] == old_e[ob]);
                    assert(old_e[oa].0@ != old_e[ob].0@);
                }
            },
            None => {
                assert(self.model@.remove(kv) =~= self.model@);
            },
        }
    }
}

/// The ordered list of commitments pending for one address.
pub struct MultiIdList {
    pub ids: Vec<VaneMultiAddress>,
}

impl View for MultiIdList {
    type V = Seq<AddressModel>;

    open spec fn view(&self) -> Seq<AddressModel> {
        addresses_view(self.ids@)
    }
}

/// The tables behind the confirmation protocol.
pub struct MockDB {
    /// Encoded transactions by commitment.
    pub transactions: Table<Vec<u8>>,
    /// Pending commitments by sender or receiver address.
    pub multi_ids: Table<MultiIdList>,
    /// Encoded confirmation records by commitment.
    pub confirmation: Table<Vec<u8>>,
    /// Encoded simulation records, oldest first.
    pub simulation: VecDeque<Vec<u8>>,
    /// Encoded reverted confirmation records with the address they were reverted
    /// for, oldest first.
    pub reverted_transactions: Vec<(VaneMultiAddress, Vec<u8>)>,
    /// Subscriber ids, each once.
    pub subscribed: Vec<String>,
}

/// The contents of the tables.
pub struct DbModel {
    pub transactions: Map<AddressModel, Seq<u8>>,
    pub pending: Map<AddressModel, Seq<AddressModel>>,
    pub confirmations: Map<AddressModel, Seq<u8>>,
    pub ready: Seq<Seq<u8>>,
    pub reverted: Seq<(AddressModel, Seq<u8>)>,
    pub subscribers: Seq<Seq<char>>,
}

impl View for MockDB {
    type V = DbModel;

    open spec fn view(&self) -> DbModel {
        DbModel {
            transactions: self.transactions@,
            pending: self.multi_ids@,
            confirmations: self.confirmation@,
            ready: self.simulation@.map_values(|b: Vec<u8>| b@),
            reverted: self.reverted_transactions@.map_values(|e: (VaneMultiAddress, Vec<u8>)| (e.0@, e.1@)),
            subscribers: self.subscribed@.map_values(|s: String| s@),
        }
    }
}

impl MockDB {
    pub open spec fn wf(&self) -> bool {
        &&& self.transactions.wf()
        &&& self.multi_ids.wf()
        &&& self.confirmation.wf()
    }

    /// Empty tables.
    pub fn new() -> (r: MockDB)
        ensures
            r.wf(),
            r@.transactions == Map::<AddressModel, Seq<u8>>::empty(),
            r@.pending == Map::<AddressModel, Seq<AddressModel>>::empty(),
            r@.confirmations == Map::<AddressModel, Seq<u8>>::empty(),
            r@.ready == Seq::<Seq<u8>>::empty(),
            r@.reverted == Seq::<(AddressModel, Seq<u8>)>::empty(),
            r@.subscribers == Seq::<Seq<char>>::empty(),
    {
        let r = MockDB {
            transactions: Table::new(),
            multi_ids: Table::new(),
            confirmation: Table::new(),
            simulation: VecDeque::new(),
            reverted_transactions: Vec::new(),
            subscribed: Vec::new(),
        };
        assert(r@.ready =~= Seq::<Seq<u8>>::empty());
        assert(r@.reverted =~= Seq::<(AddressModel, Seq<u8>)>::empty());
        assert(r@.subscribers =~= Seq::<Seq<char>>::empty());
        r
    }
}

} // verus!
