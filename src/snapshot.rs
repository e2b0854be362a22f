//! The final view of the accounts, as handed to whatever writes it out.
use vstd::prelude::*;

use crate::client::{Client, ClientModel};
use crate::money::Money;

verus! {

/// One account's balances, each to four fractional digits.
#[derive(Clone, Copy, Debug, PartialEq, Eq, Structural)]
pub struct SerializedClient {
    pub client: u16,
    pub available: Money,
    pub held: Money,
    pub total: Money,
    pub locked: bool,
}

/// Whether `row` shows the account `c`.
pub open spec fn shows(row: SerializedClient, c: ClientModel) -> bool {
    &&& row.client == c.id
    &&& row.available@ == c.available
    &&& row.held@ == c.held
    &&& row.total@ == c.total()
    &&& row.locked == c.locked
}

impl SerializedClient {
    pub fn from_client(c: &Client) -> (r: SerializedClient)
        requires
            c@.wf(),
        ensures
            shows(r, c@),
    {
        SerializedClient {
            client: c.id(),
            available: c.available,
            held: c.held,
            total: c.total(),
            locked: c.locked,
        }
    }
}

} // verus!
