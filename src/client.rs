//! Accounts, transaction records and the registry that owns them.
use std::collections::HashMap;
use vstd::prelude::*;

use crate::money::{in_range, Money};
use crate::snapshot::{shows, SerializedClient};

verus! {

broadcast use vstd::std_specs::hash::group_hash_axioms;

/// One operation of the log: it creates a record or updates one.
#[derive(Clone, Copy, Debug, PartialEq, Eq, Structural)]
pub enum TransactionRecord {
    Action(TransactionAction),
    Update(TransactionUpdate),
}

/// A deposit or withdrawal, kept as the account's record of it.
#[derive(Clone, Copy, Debug, PartialEq, Eq, Structural)]
pub struct TransactionAction {
    pub id: u32,
    pub client: u16,
    pub kind: Action,
    pub amount: Money,
    pub state: TransactionState,
}

#[derive(Clone, Copy, Debug, PartialEq, Eq, Structural)]
pub enum TransactionUpdateType {
    Dispute,
    Resolve,
    Chargeback,
}

/// A dispute, resolution or chargeback that names an earlier record.
#[derive(Clone, Copy, Debug, PartialEq, Eq, Structural)]
pub struct TransactionUpdate {
    pub client: u16,
    pub tx_id: u32,
    pub kind: TransactionUpdateType,
}

#[derive(Clone, Copy, Debug, PartialEq, Eq, Structural)]
pub enum Action {
    Deposit,
    Withdrawal,
}

/// Where a record stands in its life.
#[derive(Clone, Copy, Debug, PartialEq, Eq, Structural)]
pub enum TransactionState {
    Pending,
    Completed,
    Disputed,
    Resolved,
    Reversed,
    Rejected,
}

/// What an account is, in the model the contracts speak of.
pub struct ClientModel {
    pub id: u16,
    pub available: int,
    pub held: int,
    pub locked: bool,
    pub transactions: Map<u32, TransactionAction>,
}

/// The model of an account that was just opened.
pub open spec fn fresh_model(id: u16) -> ClientModel {
    ClientModel {
        id,
        available: 0,
        held: 0,
        locked: false,
        transactions: Map::empty(),
    }
}

impl ClientModel {
    /// Balances in range, and each record filed under its own id.
    pub open spec fn wf(self) -> bool {
        &&& in_range(self.available)
        &&& in_range(self.held)
        &&& forall|k: u32| #[trigger]
            self.transactions.contains_key(k) ==> self.transactions[k].id == k
    }

    pub open spec fn total(self) -> int {
        self.available + self.held
    }
}

/// One client's account.
#[derive(Clone, Debug)]
pub struct Client {
    pub id: u16,
    pub available: Money,
    pub held: Money,
    pub locked: bool,
    pub transactions: HashMap<u32, TransactionAction>,
}

impl View for Client {
    type V = ClientModel;

    open spec fn view(&self) -> ClientModel {
        ClientModel {
            id: self.id,
            available: self.available@,
            held: self.held@,
            locked: self.locked,
            transactions: self.transactions@,
        }
    }
}

impl Client {
    pub fn new(id: u16) -> (r: Client)
        ensures
            r@ == fresh_model(id),
    {
        Client {
            id,
            available: Money::zero(),
            held: Money::zero(),
            locked: false,
            transactions: HashMap::new(),
        }
    }

    /// `available + held`.
    pub fn total(&self) -> (r: Money)
        requires
            self@.wf(),
        ensures
            r@ == self@.total(),
    {
        Money { units: self.available.units + self.held.units }
    }

    pub fn id(&self) -> (r: u16)
        ensures
            r == self@.id,
    {
        self.id
    }
}

/// The accounts, keyed by client id; an account is opened on first use.
#[derive(Clone, Debug)]
pub struct Clients {
    clients: HashMap<u16, Client>,
    ids: Vec<u16>,
}

impl View for Clients {
    type V = Map<u16, ClientModel>;

    closed spec fn view(&self) -> Map<u16, ClientModel> {
        Map::new(|k: u16| self.clients@.contains_key(k), |k: u16| self.clients@[k]@)
    }
}

/// Every account in range and filed under its own id.
pub open spec fn clients_wf(m: Map<u16, ClientModel>) -> bool {
    forall|k: u16| #[trigger] m.contains_key(k) ==> m[k].wf() && m[k].id == k
}

/// The account of `id`, or a fresh one where there is none yet.
pub open spec fn account_of(m: Map<u16, ClientModel>, id: u16) -> ClientModel {
    if m.contains_key(id) {
        m[id]
    } else {
        fresh_model(id)
    }
}

/// Whether `id` occurs in `v`.
fn contains_id(v: &Vec<u16>, id: u16) -> (r: bool)
    ensures
        r == v@.contains(id),
{
    let mut i: usize = 0;
    while i < v.len()
        invariant
            0 <= i <= v@.len(),
            forall|j: int| 0 <= j < i ==> v@[j] != id,
        decreases v@.len() - i,
    {
        if v[i] == id {
            return true;
        }
        i = i + 1;
    }
    false
}

impl Clients {
    pub closed spec fn wf(&self) -> bool {
        &&& clients_wf(self@)
        &&& self.ids@.no_duplicates()
        &&& forall|i: int| 0 <= i < self.ids@.len() ==> self.clients@.contains_key(#[trigger] self.ids@[i])
        &&& forall|k: u16| #[trigger] self.clients@.contains_key(k) ==> self.ids@.contains(k)
    }

    /// Well formed but for the account of `id`, which is out.
    pub closed spec fn wf_without(&self, id: u16) -> bool {
        &&& clients_wf(self@)
        &&& !self@.contains_key(id)
        &&& self.ids@.no_duplicates()
        &&& forall|k: u16| #[trigger] self.clients@.contains_key(k) ==> self.ids@.contains(k)
        &&& forall|i: int| 0 <= i < self.ids@.len() && self.ids@[i] != id
            ==> self.clients@.contains_key(#[trigger] self.ids@[i])
    }

    pub fn new() -> (r: Clients)
        ensures
            r.wf(),
            r@ == Map::<u16, ClientModel>::empty(),
    {
        let r = Clients { clients: HashMap::new(), ids: Vec::new() };
        assert(r@ =~= Map::<u16, ClientModel>::empty());
        r
    }

    /// The account of `id`, where it has been opened.
    pub fn get(&self, id: u16) -> (r: Option<&Client>)
        requires
            self.wf(),
        ensures
            r is Some <==> self@.contains_key(id),
            r matches Some(c) ==> c@ == self@[id],
    {
        self.clients.get(&id)
    }

    /// Takes out the account of `id`, opened with zero balances where there
    /// was none; `put_back` returns it.
    pub(crate) fn take(&mut self, id: u16) -> (r: Client)
        requires
            old(self).wf(),
        ensures
            r@ == account_of(old(self)@, id),
            r@.id == id,
            r@.wf(),
            final(self)@ == old(self)@.remove(id),
            final(self).wf_without(id),
    {
        let r = match self.clients.remove(&id) {
            Some(c) => c,
            None => Client::new(id),
        };
        assert(self@ =~= old(self)@.remove(id));
        r
    }

    /// Files `c` back under its own id.
    pub(crate) fn put_back(&mut self, c: Client)
        requires
            old(self).wf_without(c@.id),
            c@.wf(),
        ensures
            final(self).wf(),
            final(self)@ == old(self)@.insert(c@.id, c@),
    {
        let id = c.id;
        let ghost cm = c@;
        if !contains_id(&self.ids, id) {
            self.ids.push(id);
            assert(self.ids@[self.ids@.len() - 1] == id);
        }
        self.clients.insert(id, c);
        assert(self@ =~= old(self)@.insert(id, cm));
        assert(self.ids@.contains(id));
        assert forall|k: u16| #[trigger] self.clients@.contains_key(k) implies self.ids@.contains(k) by {
            if k != id {
                let j = choose|j: int| 0 <= j < old(self).ids@.len() && old(self).ids@[j] == k;
                assert(self.ids@[j] == k);
            }
        }
        assert(clients_wf(self@));
        assert forall|i: int| 0 <= i < self.ids@.len() implies self.clients@.contains_key(#[trigger] self.ids@[i]) by {
            if self.ids@[i] != id {
                assert(old(self).ids@.contains(self.ids@[i]) || i == old(self).ids@.len());
            }
        }
    }

    /// One row for each account, in the order in which they were opened.
    pub fn snapshot(&self) -> (r: Vec<SerializedClient>)
        requires
            self.wf(),
        ensures
            r@.len() == self@.dom().len(),
            forall|i: int|
                0 <= i < r@.len() ==> self@.contains_key(#[trigger] r@[i].client) && shows(
                    r@[i],
                    self@[r@[i].client],
                ),
            forall|k: u16| #[trigger]
                self@.contains_key(k) ==> exists|i: int| 0 <= i < r@.len() && r@[i].client == k,
            forall|i: int, j: int|
                0 <= i < j < r@.len() ==> #[trigger] r@[i].client != #[trigger] r@[j].client,
    {
        let mut rows: Vec<SerializedClient> = Vec::new();
        let mut i: usize = 0;
        while i < self.ids.len()
            invariant
                self.wf(),
                0 <= i <= self.ids@.len(),
                rows@.len() == i,
                forall|j: int|
                    0 <= j < i ==> #[trigger] rows@[j].client == self.ids@[j] && shows(
                        rows@[j],
                        self@[self.ids@[j]],
                    ),
            decreases self.ids@.len() - i,
        {
            let id = self.ids[i];
            let c = self.clients.get(&id).unwrap();
            proof {
                assert(self@.contains_key(id));
                assert(self@[id] == c@);
            }
            rows.push(SerializedClient::from_client(c));
            i = i + 1;
        }
        proof {
            assert forall|k: u16| #[trigger] self@.contains_key(k) implies exists|i: int|
                0 <= i < rows@.len() && rows@[i].client == k by {
                let j = choose|j: int| 0 <= j < self.ids@.len() && self.ids@[j] == k;
                assert(rows@[j].client == k);
            }
            assert forall|i: int, j: int| 0 <= i < j < rows@.len() implies #[trigger] rows@[i].client
                != #[trigger] rows@[j].client by {
                assert(self.ids@[i] != self.ids@[j]);
            }
            self.ids@.unique_seq_to_set();
            assert(self.ids@.to_set() =~= self@.dom());
        }
        rows
    }
}

impl Default for Clients {
    fn default() -> (r: Clients)
        ensures
            r.wf(),
            r@ == Map::<u16, ClientModel>::empty(),
    {
        Clients::new()
    }
}

} // verus!
