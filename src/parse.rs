//! Turning decoded input rows into operations.
use vstd::prelude::*;

use crate::client::{
    Action, TransactionAction, TransactionRecord, TransactionState, TransactionUpdate,
    TransactionUpdateType,
};
use crate::money::Money;

verus! {

/// The kind of operation a row names.
#[derive(Clone, Copy, Debug, PartialEq, Eq, Structural)]
pub enum InputTransactionType {
    Deposit,
    Withdrawal,
    Dispute,
    Resolve,
    Chargeback,
}

/// One decoded row of the operation log.
#[derive(Clone, Copy, Debug, PartialEq, Eq, Structural)]
pub struct InputTransaction {
    pub kind: InputTransactionType,
    pub client: u16,
    pub tx: u32,
    pub amount: Option<Money>,
}

/// The amount a deposit or withdrawal carries: zero where the row gave none,
/// and a negative one raised to zero.
pub open spec fn clamped_amount(amount: Option<Money>) -> int {
    match amount {
        Some(a) => if a@ < 0 {
            0
        } else {
            a@
        },
        None => 0,
    }
}

/// The operation a row stands for.
pub open spec fn record_of(input: InputTransaction) -> TransactionRecord {
    match input.kind {
        InputTransactionType::Deposit => TransactionRecord::Action(
            TransactionAction {
                id: input.tx,
                client: input.client,
                kind: Action::Deposit,
                amount: Money { units: clamped_amount(input.amount) as i128 },
                state: TransactionState::Pending,
            },
        ),
        InputTransactionType::Withdrawal => TransactionRecord::Action(
            TransactionAction {
                id: input.tx,
                client: input.client,
                kind: Action::Withdrawal,
                amount: Money { units: clamped_amount(input.amount) as i128 },
                state: TransactionState::Pending,
            },
        ),
        InputTransactionType::Dispute => TransactionRecord::Update(
            TransactionUpdate {
                client: input.client,
                tx_id: input.tx,
                kind: TransactionUpdateType::Dispute,
            },
        ),
        InputTransactionType::Resolve => TransactionRecord::Update(
            TransactionUpdate {
                client: input.client,
                tx_id: input.tx,
                kind: TransactionUpdateType::Resolve,
            },
        ),
        InputTransactionType::Chargeback => TransactionRecord::Update(
            TransactionUpdate {
                client: input.client,
                tx_id: input.tx,
                kind: TransactionUpdateType::Chargeback,
            },
        ),
    }
}

impl InputTransaction {
    /// The operation this row stands for; a deposit or withdrawal never
    /// carries a negative amount.
    pub fn into_record(self) -> (r: TransactionRecord)
        ensures
            r == record_of(self),
    {
        let amount = match self.amount {
            Some(a) => a.max_zero(),
            None => Money::zero(),
        };
        match self.kind {
            InputTransactionType::Deposit => TransactionRecord::Action(
                TransactionAction {
                    id: self.tx,
                    client: self.client,
                    kind: Action::Deposit,
                    amount,
                    state: TransactionState::Pending,
                },
            ),
            InputTransactionType::Withdrawal => TransactionRecord::Action(
                TransactionAction {
                    id: self.tx,
                    client: self.client,
                    kind: Action::Withdrawal,
                    amount,
                    state: TransactionState::Pending,
                },
            ),
            InputTransactionType::Dispute => TransactionRecord::Update(
                TransactionUpdate {
                    client: self.client,
                    tx_id: self.tx,
                    kind: TransactionUpdateType::Dispute,
                },
            ),
            InputTransactionType::Resolve => TransactionRecord::Update(
                TransactionUpdate {
                    client: self.client,
                    tx_id: self.tx,
                    kind: TransactionUpdateType::Resolve,
                },
            ),
            InputTransactionType::Chargeback => TransactionRecord::Update(
                TransactionUpdate {
                    client: self.client,
                    tx_id: self.tx,
                    kind: TransactionUpdateType::Chargeback,
                },
            ),
        }
    }
}

} // verus!
