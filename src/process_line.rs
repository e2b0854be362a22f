//! The rules: how each operation changes an account, stated over the model
//! and carried out on the accounts.
use vstd::prelude::*;

use crate::client::{
    account_of, clients_wf, Action, Client, ClientModel, Clients, TransactionAction,
    TransactionRecord, TransactionState, TransactionUpdate, TransactionUpdateType,
};
use crate::money::{in_range, Money};

verus! {

broadcast use vstd::std_specs::hash::group_hash_axioms;

/// Why an operation was turned down.
#[derive(Clone, Copy, Debug, PartialEq, Eq, Structural)]
pub enum ProcessError {
    /// The account already holds a record with this id.
    DuplicateId(u32),
    /// The account was charged back and takes nothing more.
    AccountLocked,
    /// The amount is negative, or the result would leave the range.
    InvalidAmount,
    /// A withdrawal asks for more than is available.
    InsufficientFunds,
    /// The account holds no record with the id named.
    NoMatchingTransaction,
    /// The record named is not in a state the operation applies to.
    NoEligibleTransaction,
}

/// `c` with `t` filed in its ledger.
pub open spec fn with_record(c: ClientModel, t: TransactionAction) -> ClientModel {
    ClientModel { transactions: c.transactions.insert(t.id, t), ..c }
}

/// `t` in state `s`.
pub open spec fn in_state(t: TransactionAction, s: TransactionState) -> TransactionAction {
    TransactionAction { state: s, ..t }
}

/// What a deposit or withdrawal does to the account of its client.
pub open spec fn action_step(c: ClientModel, t: TransactionAction) -> (ClientModel, Result<
    (),
    ProcessError,
>) {
    let amount = t.amount@;
    let rejected = with_record(c, in_state(t, TransactionState::Rejected));
    if c.transactions.contains_key(t.id) {
        (c, Err(ProcessError::DuplicateId(t.id)))
    } else if c.locked {
        (rejected, Err(ProcessError::AccountLocked))
    } else if amount < 0 {
        (c, Err(ProcessError::InvalidAmount))
    } else {
        match t.kind {
            Action::Deposit => if in_range(c.available + amount) {
                (
                    ClientModel {
                        available: c.available + amount,
                        ..with_record(c, in_state(t, TransactionState::Completed))
                    },
                    Ok(()),
                )
            } else {
                (rejected, Err(ProcessError::InvalidAmount))
            },
            Action::Withdrawal => if c.available < amount {
                (rejected, Err(ProcessError::InsufficientFunds))
            } else if in_range(c.available - amount) {
                (
                    ClientModel {
                        available: c.available - amount,
                        ..with_record(c, in_state(t, TransactionState::Completed))
                    },
                    Ok(()),
                )
            } else {
                (rejected, Err(ProcessError::InvalidAmount))
            },
        }
    }
}

/// What a dispute, resolution or chargeback does to the account of its client.
pub open spec fn update_step(c: ClientModel, u: TransactionUpdate) -> (ClientModel, Result<
    (),
    ProcessError,
>) {
    if c.locked {
        (c, Err(ProcessError::AccountLocked))
    } else if !c.transactions.contains_key(u.tx_id) {
        (c, Err(ProcessError::NoMatchingTransaction))
    } else {
        let tx = c.transactions[u.tx_id];
        let amount = tx.amount@;
        let rejected = with_record(c, in_state(tx, TransactionState::Rejected));
        match u.kind {
            TransactionUpdateType::Dispute => if tx.state == TransactionState::Completed {
                if in_range(c.held + amount) && in_range(c.available - amount) {
                    (
                        ClientModel {
                            available: c.available - amount,
                            held: c.held + amount,
                            ..with_record(c, in_state(tx, TransactionState::Disputed))
                        },
                        Ok(()),
                    )
                } else {
                    (rejected, Err(ProcessError::InvalidAmount))
                }
            } else {
                (c, Err(ProcessError::NoEligibleTransaction))
            },
            TransactionUpdateType::Resolve => if tx.id == u.tx_id && tx.state
                == TransactionState::Disputed && c.held >= amount {
                if in_range(c.held - amount) && in_range(c.available + amount) {
                    (
                        ClientModel {
                            available: c.available + amount,
                            held: c.held - amount,
                            ..with_record(c, in_state(tx, TransactionState::Resolved))
                        },
                        Ok(()),
                    )
                } else {
                    (rejected, Err(ProcessError::InvalidAmount))
                }
            } else {
                (c, Err(ProcessError::NoEligibleTransaction))
            },
            TransactionUpdateType::Chargeback => if tx.id == u.tx_id && tx.client == u.client
                && tx.state == TransactionState::Disputed {
                if in_range(c.held - amount) {
                    (
                        ClientModel {
                            held: c.held - amount,
                            locked: true,
                            ..with_record(c, in_state(tx, TransactionState::Reversed))
                        },
                        Ok(()),
                    )
                } else {
                    (ClientModel { locked: true, ..rejected }, Err(ProcessError::InvalidAmount))
                }
            } else {
                (c, Err(ProcessError::NoEligibleTransaction))
            },
        }
    }
}

/// The client whose account an operation is applied to.
pub open spec fn client_of(rec: TransactionRecord) -> u16 {
    match rec {
        TransactionRecord::Action(t) => t.client,
        TransactionRecord::Update(u) => u.client,
    }
}

/// What an operation does to the account of its client.
pub open spec fn step(c: ClientModel, rec: TransactionRecord) -> (ClientModel, Result<
    (),
    ProcessError,
>) {
    match rec {
        TransactionRecord::Action(t) => action_step(c, t),
        TransactionRecord::Update(u) => update_step(c, u),
    }
}

/// What an operation does to the accounts: its client's account, opened
/// where it was not, takes the step; the others stay as they are.
pub open spec fn process_spec(m: Map<u16, ClientModel>, rec: TransactionRecord) -> (Map<
    u16,
    ClientModel,
>, Result<(), ProcessError>) {
    let id = client_of(rec);
    let (c, r) = step(account_of(m, id), rec);
    (m.insert(id, c), r)
}

/// Applies a deposit or withdrawal to one account.
fn apply_action(client: &mut Client, t: TransactionAction) -> (r: Result<(), ProcessError>)
    requires
        old(client)@.wf(),
        old(client)@.id == t.client,
    ensures
        (final(client)@, r) == action_step(old(client)@, t),
{
    let id = t.id;
    if client.transactions.contains_key(&id) {
        return Err(ProcessError::DuplicateId(id));
    }
    if client.locked {
        client.transactions.insert(id, TransactionAction { state: TransactionState::Rejected, ..t });
        return Err(ProcessError::AccountLocked);
    }
    if t.amount.lt(&Money::zero()) {
        return Err(ProcessError::InvalidAmount);
    }
    let next = match t.kind {
        Action::Deposit => match client.available.checked_add(&t.amount) {
            Some(a) => Ok(a),
            None => Err(ProcessError::InvalidAmount),
        },
        Action::Withdrawal => if client.available.lt(&t.amount) {
            Err(ProcessError::InsufficientFunds)
        } else {
            match client.available.checked_sub(&t.amount) {
                Some(a) => Ok(a),
                None => Err(ProcessError::InvalidAmount),
            }
        },
    };
    match next {
        Ok(a) => {
            client.available = a;
            client.transactions.insert(id, TransactionAction { state: TransactionState::Completed, ..t });
            Ok(())
        },
        Err(e) => {
            client.transactions.insert(id, TransactionAction { state: TransactionState::Rejected, ..t });
            Err(e)
        },
    }
}

/// Applies a dispute, resolution or chargeback to one account.
fn apply_update(client: &mut Client, u: TransactionUpdate) -> (r: Result<(), ProcessError>)
    requires
        old(client)@.wf(),
        old(client)@.id == u.client,
    ensures
        (final(client)@, r) == update_step(old(client)@, u),
{
    if client.locked {
        return Err(ProcessError::AccountLocked);
    }
    let tx = match client.transactions.get(&u.tx_id) {
        Some(tx) => *tx,
        None => {
            return Err(ProcessError::NoMatchingTransaction);
        },
    };
    let rejected = TransactionAction { state: TransactionState::Rejected, ..tx };
    match u.kind {
        TransactionUpdateType::Dispute => {
            if tx.state != TransactionState::Completed {
                return Err(ProcessError::NoEligibleTransaction);
            }
            // Both sums are worked out before either balance changes.
            let held = client.held.checked_add(&tx.amount);
            let available = client.available.checked_sub(&tx.amount);
            match (held, available) {
                (Some(h), Some(a)) => {
                    client.held = h;
                    client.available = a;
                    client.transactions.insert(
                        u.tx_id,
                        TransactionAction { state: TransactionState::Disputed, ..tx },
                    );
                    Ok(())
                },
                _ => {
                    client.transactions.insert(u.tx_id, rejected);
                    Err(ProcessError::InvalidAmount)
                },
            }
        },
        TransactionUpdateType::Resolve => {
            if !(tx.id == u.tx_id && tx.state == TransactionState::Disputed && !client.held.lt(
                &tx.amount,
            )) {
                return Err(ProcessError::NoEligibleTransaction);
            }
            let held = client.held.checked_sub(&tx.amount);
            let available = client.available.checked_add(&tx.amount);
            match (held, available) {
                (Some(h), Some(a)) => {
                    client.held = h;
                    client.available = a;
                    client.transactions.insert(
                        u.tx_id,
                        TransactionAction { state: TransactionState::Resolved, ..tx },
                    );
                    Ok(())
                },
                _ => {
                    client.transactions.insert(u.tx_id, rejected);
                    Err(ProcessError::InvalidAmount)
                },
            }
        },
        TransactionUpdateType::Chargeback => {
            if !(tx.id == u.tx_id && tx.client == u.client && tx.state
                == TransactionState::Disputed) {
                return Err(ProcessError::NoEligibleTransaction);
            }
            // The lock stands even where taking the funds out of `held` fails.
            client.locked = true;
            match client.held.checked_sub(&tx.amount) {
                Some(h) => {
                    client.held = h;
                    client.transactions.insert(
                        u.tx_id,
                        TransactionAction { state: TransactionState::Reversed, ..tx },
                    );
                    Ok(())
                },
                None => {
                    client.transactions.insert(u.tx_id, rejected);
                    Err(ProcessError::InvalidAmount)
                },
            }
        },
    }
}

/// Every step keeps an account well formed and under its own id.
pub proof fn lemma_step_keeps_wf(c: ClientModel, rec: TransactionRecord)
    requires
        c.wf(),
    ensures
        step(c, rec).0.wf(),
        step(c, rec).0.id == c.id,
{
    let post = step(c, rec).0;
    assert forall|k: u32| #[trigger] post.transactions.contains_key(k) implies post.transactions[k].id
        == k by {
        if c.transactions.contains_key(k) {
        }
    }
}

/// Every operation keeps the accounts well formed.
pub proof fn lemma_process_keeps_wf(m: Map<u16, ClientModel>, rec: TransactionRecord)
    requires
        clients_wf(m),
    ensures
        clients_wf(process_spec(m, rec).0),
{
    let id = client_of(rec);
    lemma_step_keeps_wf(account_of(m, id), rec);
}

/// Applies one operation to the accounts.
pub trait ProcessLine: Sized {
    /// The accounts after `self` is applied to `before`, and what is reported.
    spec fn outcome(self, before: Map<u16, ClientModel>) -> (Map<u16, ClientModel>, Result<
        (),
        ProcessError,
    >);

    fn process_line(self, clients: &mut Clients) -> (r: Result<(), ProcessError>)
        requires
            old(clients).wf(),
        ensures
            final(clients).wf(),
            (final(clients)@, r) == self.outcome(old(clients)@),
    ;
}

impl ProcessLine for TransactionAction {
    open spec fn outcome(self, before: Map<u16, ClientModel>) -> (Map<u16, ClientModel>, Result<
        (),
        ProcessError,
    >) {
        process_spec(before, TransactionRecord::Action(self))
    }

    fn process_line(self, clients: &mut Clients) -> (r: Result<(), ProcessError>) {
        let mut client = clients.take(self.client);
        proof {
            lemma_step_keeps_wf(client@, TransactionRecord::Action(self));
        }
        let r = apply_action(&mut client, self);
        clients.put_back(client);
        proof {
            assert(old(clients)@.remove(self.client).insert(self.client, client@) =~= old(clients)@.insert(self.client, client@));
        }
        r
    }
}

impl ProcessLine for TransactionUpdate {
    open spec fn outcome(self, before: Map<u16, ClientModel>) -> (Map<u16, ClientModel>, Result<
        (),
        ProcessError,
    >) {
        process_spec(before, TransactionRecord::Update(self))
    }

    fn process_line(self, clients: &mut Clients) -> (r: Result<(), ProcessError>) {
        let mut client = clients.take(self.client);
        proof {
            lemma_step_keeps_wf(client@, TransactionRecord::Update(self));
        }
        let r = apply_update(&mut client, self);
        clients.put_back(client);
        proof {
            assert(old(clients)@.remove(self.client).insert(self.client, client@) =~= old(clients)@.insert(self.client, client@));
        }
        r
    }
}

impl ProcessLine for TransactionRecord {
    open spec fn outcome(self, before: Map<u16, ClientModel>) -> (Map<u16, ClientModel>, Result<
        (),
        ProcessError,
    >) {
        process_spec(before, self)
    }

    fn process_line(self, clients: &mut Clients) -> (r: Result<(), ProcessError>) {
        match self {
            TransactionRecord::Action(t) => t.process_line(clients),
            TransactionRecord::Update(u) => u.process_line(clients),
        }
    }
}

/// The accounts after `ops` are applied to `m` in order.
pub open spec fn process_all_spec(m: Map<u16, ClientModel>, ops: Seq<TransactionRecord>) -> Map<
    u16,
    ClientModel,
>
    decreases ops.len(),
{
    if ops.len() == 0 {
        m
    } else {
        process_spec(process_all_spec(m, ops.drop_last()), ops.last()).0
    }
}

/// Applies `ops` in order; each one that is turned down leaves its error at
/// its place in the result, and the rest go on.
pub fn process_all(clients: &mut Clients, ops: &Vec<TransactionRecord>) -> (r: Vec<
    Result<(), ProcessError>,
>)
    requires
        old(clients).wf(),
    ensures
        final(clients).wf(),
        final(clients)@ == process_all_spec(old(clients)@, ops@),
        r@.len() == ops@.len(),
        forall|i: int|
            0 <= i < ops@.len() ==> #[trigger] r@[i] == process_spec(
                process_all_spec(old(clients)@, ops@.take(i)),
                ops@[i],
            ).1,
{
    let mut results: Vec<Result<(), ProcessError>> = Vec::new();
    let mut i: usize = 0;
    proof {
        assert(ops@.take(0) =~= Seq::<TransactionRecord>::empty());
    }
    while i < ops.len()
        invariant
            0 <= i <= ops@.len(),
            clients.wf(),
            clients@ == process_all_spec(old(clients)@, ops@.take(i as int)),
            results@.len() == i,
            forall|j: int|
                0 <= j < i ==> #[trigger] results@[j] == process_spec(
                    process_all_spec(old(clients)@, ops@.take(j)),
                    ops@[j],
                ).1,
        decreases ops@.len() - i,
    {
        let op = ops[i];
        let ghost before = clients@;
        let res = op.process_line(clients);
        results.push(res);
        proof {
            assert(ops@.take(i + 1).drop_last() =~= ops@.take(i as int));
            assert(ops@.take(i + 1).last() == ops@[i as int]);
        }
        i = i + 1;
    }
    proof {
        assert(ops@.take(ops@.len() as int) =~= ops@);
    }
    results
}

/// Whatever operations are applied, every account keeps `available` and
/// `held` in range, so that its total is exactly `available + held`.
pub proof fn law_balances_stay_consistent(m: Map<u16, ClientModel>, ops: Seq<TransactionRecord>)
    requires
        clients_wf(m),
    ensures
        clients_wf(process_all_spec(m, ops)),
        forall|k: u16| #[trigger]
            process_all_spec(m, ops).contains_key(k) ==> in_range(process_all_spec(m, ops)[k].available)
                && in_range(process_all_spec(m, ops)[k].held),
    decreases ops.len(),
{
    if ops.len() > 0 {
        law_balances_stay_consistent(m, ops.drop_last());
        lemma_process_keeps_wf(process_all_spec(m, ops.drop_last()), ops.last());
    }
}

/// A deposit followed by a withdrawal of the same amount for the same client
/// leaves `available` and `held` as they were. (Where `available` was below
/// zero, the withdrawal asks for more than the deposit brought it to.)
pub proof fn law_deposit_then_withdrawal(
    m: Map<u16, ClientModel>,
    dep: TransactionAction,
    wd: TransactionAction,
)
    requires
        clients_wf(m),
        dep.kind == Action::Deposit,
        wd.kind == Action::Withdrawal,
        dep.client == wd.client,
        dep.amount == wd.amount,
        dep.amount@ >= 0,
        dep.id != wd.id,
        !account_of(m, dep.client).transactions.contains_key(dep.id),
        !account_of(m, dep.client).transactions.contains_key(wd.id),
        account_of(m, dep.client).available >= 0,
        in_range(account_of(m, dep.client).available + dep.amount@),
    ensures
        ({
            let after = process_spec(
                process_spec(m, TransactionRecord::Action(dep)).0,
                TransactionRecord::Action(wd),
            ).0;
            &&& after[dep.client].available == account_of(m, dep.client).available
            &&& after[dep.client].held == account_of(m, dep.client).held
        }),
{
    let c = account_of(m, dep.client);
    assert(c.wf());
    let m1 = process_spec(m, TransactionRecord::Action(dep)).0;
    let c1 = action_step(c, dep).0;
    assert(account_of(m1, dep.client) == c1);
    assert(!c1.transactions.contains_key(wd.id));
    if !c.locked {
        assert(c1.available == c.available + dep.amount@);
        assert(!c1.locked);
    }
}

/// Disputing a completed transaction moves exactly its amount from
/// `available` to `held` and leaves the total as it was.
pub proof fn law_dispute_moves_amount(m: Map<u16, ClientModel>, u: TransactionUpdate)
    requires
        clients_wf(m),
        u.kind == TransactionUpdateType::Dispute,
        !account_of(m, u.client).locked,
        account_of(m, u.client).transactions.contains_key(u.tx_id),
        account_of(m, u.client).transactions[u.tx_id].state == TransactionState::Completed,
        in_range(
            account_of(m, u.client).held + account_of(m, u.client).transactions[u.tx_id].amount@,
        ),
        in_range(
            account_of(m, u.client).available - account_of(
                m,
                u.client,
            ).transactions[u.tx_id].amount@,
        ),
    ensures
        ({
            let c = account_of(m, u.client);
            let amount = c.transactions[u.tx_id].amount@;
            let (after, r) = process_spec(m, TransactionRecord::Update(u));
            &&& r is Ok
            &&& after[u.client].available == c.available - amount
            &&& after[u.client].held == c.held + amount
            &&& after[u.client].total() == c.total()
            &&& after[u.client].transactions[u.tx_id].state == TransactionState::Disputed
        }),
{
}

/// Resolving a dispute right after it was opened restores `available` and
/// `held` exactly.
pub proof fn law_resolve_restores_split(
    m: Map<u16, ClientModel>,
    d: TransactionUpdate,
    res: TransactionUpdate,
)
    requires
        clients_wf(m),
        d.kind == TransactionUpdateType::Dispute,
        res.kind == TransactionUpdateType::Resolve,
        res.client == d.client,
        res.tx_id == d.tx_id,
        !account_of(m, d.client).locked,
        account_of(m, d.client).held >= 0,
        account_of(m, d.client).transactions.contains_key(d.tx_id),
        account_of(m, d.client).transactions[d.tx_id].state == TransactionState::Completed,
        in_range(
            account_of(m, d.client).held + account_of(m, d.client).transactions[d.tx_id].amount@,
        ),
        in_range(
            account_of(m, d.client).available - account_of(
                m,
                d.client,
            ).transactions[d.tx_id].amount@,
        ),
    ensures
        ({
            let c = account_of(m, d.client);
            let (mid, r1) = process_spec(m, TransactionRecord::Update(d));
            let (after, r2) = process_spec(mid, TransactionRecord::Update(res));
            &&& r1 is Ok
            &&& r2 is Ok
            &&& after[d.client].available == c.available
            &&& after[d.client].held == c.held
            &&& after[d.client].transactions[d.tx_id].state == TransactionState::Resolved
        }),
{
}

/// A chargeback of a disputed transaction forfeits its amount from `held`,
/// leaves `available` alone and locks the account.
pub proof fn law_chargeback_forfeits_and_locks(m: Map<u16, ClientModel>, u: TransactionUpdate)
    requires
        clients_wf(m),
        u.kind == TransactionUpdateType::Chargeback,
        !account_of(m, u.client).locked,
        account_of(m, u.client).transactions.contains_key(u.tx_id),
        account_of(m, u.client).transactions[u.tx_id].state == TransactionState::Disputed,
        account_of(m, u.client).transactions[u.tx_id].client == u.client,
        in_range(
            account_of(m, u.client).held - account_of(m, u.client).transactions[u.tx_id].amount@,
        ),
    ensures
        ({
            let c = account_of(m, u.client);
            let amount = c.transactions[u.tx_id].amount@;
            let (after, r) = process_spec(m, TransactionRecord::Update(u));
            &&& r is Ok
            &&& after[u.client].available == c.available
            &&& after[u.client].held == c.held - amount
            &&& after[u.client].locked
        }),
{
}

/// Once an account is locked, every operation for its client fails and
/// leaves its balances and the lock as they were.
pub proof fn law_locked_account_rejects_all(m: Map<u16, ClientModel>, rec: TransactionRecord)
    requires
        clients_wf(m),
        account_of(m, client_of(rec)).locked,
    ensures
        ({
            let c = account_of(m, client_of(rec));
            let (after, r) = process_spec(m, rec);
            &&& r is Err
            &&& after[client_of(rec)].available == c.available
            &&& after[client_of(rec)].held == c.held
            &&& after[client_of(rec)].locked
        }),
{
}

/// A deposit or withdrawal that reuses an id the account already holds is
/// turned down and changes nothing.
pub proof fn law_duplicate_id_rejected(m: Map<u16, ClientModel>, t: TransactionAction)
    requires
        clients_wf(m),
        account_of(m, t.client).transactions.contains_key(t.id),
    ensures
        process_spec(m, TransactionRecord::Action(t)).1 == Err::<(), ProcessError>(
            ProcessError::DuplicateId(t.id),
        ),
        process_spec(m, TransactionRecord::Action(t)).0 == m,
{
    assert(m.contains_key(t.client));
    assert(process_spec(m, TransactionRecord::Action(t)).0 =~= m);
}

} // verus!
