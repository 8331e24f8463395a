//! Protocol engine of an oracle bridge: it registers price requests, hands
//! them to an oracle network over an IBC channel and applies the answers to
//! a local price table.

pub mod contract;
pub mod error;
pub mod ibc;
pub mod msg;
pub mod obi;
pub mod results;
pub mod state;
pub mod table;
pub mod text;

pub use crate::error::ContractError;
