//! A ledger of client accounts that replays deposits, withdrawals, disputes,
//! resolutions and chargebacks, with every rule proved against a model.
pub mod client;
pub mod money;
pub mod parse;
pub mod process_line;
pub mod snapshot;
