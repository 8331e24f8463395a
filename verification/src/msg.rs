//! The messages that operators, queriers and the oracle network exchange
//! with the engine.

use vstd::prelude::*;

verus! {

/// The settings of a new engine.
#[derive(Debug, PartialEq, Eq)]
pub struct InstantiateMsg {
    /// The owner's address.
    pub owner: String,
}

/// The commands of the engine.
#[derive(Debug, PartialEq, Eq)]
pub enum ExecuteMsg {
    /// Binds the channel that carries the oracle requests.
    SetChannel {
        /// The channel to use for the oracle requests.
        channel: String,
    },
    /// Registers a new oracle request job.
    RegisterJob {
        /// The oracle script to run.
        oracle_script_id: u64,
        /// The symbols to quote.
        symbols: Vec<String>,
        /// The factor that the rates are scaled by.
        multiplier: u64,
        /// The number of validators asked to answer.
        ask_count: u64,
        /// The number of answers that suffices.
        min_count: u64,
    },
    /// Sends the oracle request of a registered job.
    UpdateJobData {
        /// The job to send.
        job_id: String,
    },
}

/// An amount of one denomination of tokens.
#[derive(Debug, PartialEq, Eq)]
pub struct Coin {
    pub denom: String,
    pub amount: u128,
}

/// The mathematical value of a [`Coin`].
pub struct CoinView {
    pub denom: Seq<char>,
    pub amount: u128,
}

impl View for Coin {
    type V = CoinView;

    open spec fn view(&self) -> CoinView {
        CoinView { denom: self.denom@, amount: self.amount }
    }
}

/// The value of each coin of `v`.
pub open spec fn coins_view(v: Seq<Coin>) -> Seq<CoinView> {
    Seq::new(v.len(), |i: int| v[i]@)
}

/// The request that goes out to the oracle network.
#[derive(Debug, PartialEq, Eq)]
pub struct OracleRequestPacket {
    /// The id that the answer will carry back.
    pub client_id: String,
    /// The oracle script to run.
    pub oracle_script_id: u64,
    /// The encoded input of the oracle script.
    pub calldata: Vec<u8>,
    /// The number of validators asked to answer.
    pub ask_count: u64,
    /// The number of answers that suffices.
    pub min_count: u64,
    /// The most that the data sources may be paid.
    pub fee_limit: Vec<Coin>,
    /// The gas limit of the prepare phase.
    pub prepare_gas: u64,
    /// The gas limit of the execute phase.
    pub execute_gas: u64,
}

/// The mathematical value of an [`OracleRequestPacket`].
pub struct OracleRequestPacketView {
    pub client_id: Seq<char>,
    pub oracle_script_id: u64,
    pub calldata: Seq<u8>,
    pub ask_count: u64,
    pub min_count: u64,
    pub fee_limit: Seq<CoinView>,
    pub prepare_gas: u64,
    pub execute_gas: u64,
}

impl View for OracleRequestPacket {
    type V = OracleRequestPacketView;

    open spec fn view(&self) -> OracleRequestPacketView {
        OracleRequestPacketView {
            client_id: self.client_id@,
            oracle_script_id: self.oracle_script_id,
            calldata: self.calldata@,
            ask_count: self.ask_count,
            min_count: self.min_count,
            fee_limit: coins_view(self.fee_limit@),
            prepare_gas: self.prepare_gas,
            execute_gas: self.execute_gas,
        }
    }
}

/// The answer that comes back from the oracle network.
#[derive(Debug, PartialEq, Eq)]
pub struct OracleResponsePacket {
    /// The id that the request carried.
    pub client_id: String,
    /// The oracle network's id of the request, in decimal notation.
    pub request_id: String,
    /// The number of validators that answered.
    pub ans_count: String,
    /// When the request reached the oracle network.
    pub request_time: String,
    /// When the request was resolved, in seconds, in decimal notation.
    pub resolve_time: String,
    /// How the request was resolved.
    pub resolve_status: String,
    /// The encoded output of the oracle script, in base64 notation.
    pub result: String,
}

/// The queries of the engine.
#[derive(Debug, PartialEq, Eq)]
pub enum QueryMsg {
    /// Asks for the channel configuration.
    Config {},
    /// Asks for a registered job.
    Job { job_id: String },
    /// Asks for the latest price of a symbol.
    Price { symbol: String },
}

/// The message of a migration. It carries nothing.
#[derive(Debug, PartialEq, Eq)]
pub struct MigrateMsg {}

} // verus!
