//! The entities that the engine keeps: the channel configuration, the job
//! counter, the registered jobs and the latest price of each symbol.

use crate::obi::{encodable, encode_input, strings_view};
use crate::table::Table;
use vstd::prelude::*;

verus! {

/// The number of atomic units in one: prices carry 18 decimal places.
pub const DECIMAL_FRACTIONAL: u128 = 1_000_000_000_000_000_000u128;

/// A fixed-point number with 18 decimal places, held as its atomic units.
#[derive(Debug, Clone, Copy, PartialEq, Eq)]
pub struct Decimal {
    pub atomics: u128,
}

impl Decimal {
    /// The quotient of two 64-bit numbers, rounded down to 18 places.
    pub open spec fn ratio(numerator: u64, denominator: u64) -> Decimal {
        Decimal { atomics: (numerator as nat * DECIMAL_FRACTIONAL as nat / denominator as nat) as u128 }
    }

    /// Computes `numerator / denominator` with `cosmwasm_std`'s
    /// `Decimal::from_ratio` and hands out the atomic units of the result.
    /// That function multiplies the numerator by 10^18 in 256 bits, divides
    /// by the denominator rounding down and panics where the denominator is
    /// zero or the quotient exceeds 128 bits; with 64-bit arguments the
    /// quotient is below 2^64 * 10^18, which fits.
    #[verifier::external_body]
    pub(crate) fn from_ratio(numerator: u64, denominator: u64) -> (quotient: Decimal)
        requires
            denominator != 0,
        ensures
            quotient == Decimal::ratio(numerator, denominator),
    {
        Decimal { atomics: cosmwasm_std::Decimal::from_ratio(numerator, denominator).atomics().u128() }
    }
}

/// The channel configuration: who owns the engine and which channel carries
/// the oracle requests. The channel is empty until the owner sets it.
#[derive(Debug, PartialEq, Eq)]
pub struct Config {
    /// The owner's address.
    pub owner: String,
    /// The channel to use for the oracle requests.
    pub channel: String,
}

/// The channel configuration as a query returns it.
#[derive(Debug, PartialEq, Eq)]
pub struct ConfigResponse {
    /// The owner's address.
    pub owner: String,
    /// The channel to use for the oracle requests.
    pub channel: String,
}

/// The mathematical value of a [`Config`] or a [`ConfigResponse`].
pub struct ConfigView {
    pub owner: Seq<char>,
    pub channel: Seq<char>,
}

impl View for Config {
    type V = ConfigView;

    open spec fn view(&self) -> ConfigView {
        ConfigView { owner: self.owner@, channel: self.channel@ }
    }
}

impl View for ConfigResponse {
    type V = ConfigView;

    open spec fn view(&self) -> ConfigView {
        ConfigView { owner: self.owner@, channel: self.channel@ }
    }
}

impl Clone for Config {
    fn clone(&self) -> (copy: Self)
        ensures
            copy@ == self@,
    {
        Config { owner: self.owner.clone(), channel: self.channel.clone() }
    }
}

/// One registered oracle request.
#[derive(Debug, PartialEq, Eq)]
pub struct Job {
    /// The oracle script to run.
    pub oracle_script_id: u64,
    /// The symbols to quote.
    pub symbols: Vec<String>,
    /// The factor that the rates are scaled by.
    pub multiplier: u64,
    /// The encoded input of the oracle script.
    pub calldata: Vec<u8>,
    /// The number of validators asked to answer.
    pub ask_count: u64,
    /// The number of answers that suffices.
    pub min_count: u64,
}

/// The mathematical value of a [`Job`].
pub struct JobView {
    pub oracle_script_id: u64,
    pub symbols: Seq<Seq<char>>,
    pub multiplier: u64,
    pub calldata: Seq<u8>,
    pub ask_count: u64,
    pub min_count: u64,
}

impl JobView {
    /// Whether the calldata is the encoding of the symbols and the
    /// multiplier.
    pub open spec fn canonical(self) -> bool {
        encodable(self.symbols) && self.calldata == encode_input(self.symbols, self.multiplier)
    }
}

impl View for Job {
    type V = JobView;

    open spec fn view(&self) -> JobView {
        JobView {
            oracle_script_id: self.oracle_script_id,
            symbols: strings_view(self.symbols@),
            multiplier: self.multiplier,
            calldata: self.calldata@,
            ask_count: self.ask_count,
            min_count: self.min_count,
        }
    }
}

impl Clone for Job {
    fn clone(&self) -> (copy: Self)
        ensures
            copy@ == self@,
    {
        let copy = Job {
            oracle_script_id: self.oracle_script_id,
            symbols: self.symbols.clone(),
            multiplier: self.multiplier,
            calldata: self.calldata.clone(),
            ask_count: self.ask_count,
            min_count: self.min_count,
        };
        assert(strings_view(copy.symbols@) =~= strings_view(self.symbols@));
        assert(copy.calldata@ =~= self.calldata@);
        copy
    }
}

/// The latest price of one symbol.
#[derive(Debug, Clone, Copy, PartialEq, Eq)]
pub struct PriceData {
    /// The rate, scaled back by the multiplier of the request.
    pub rate: Decimal,
    /// The oracle network's id of the request that brought this price.
    pub bandchain_request_id: u64,
    /// When the oracle network resolved that request, in seconds.
    pub bandchain_resolve_time: u64,
}

impl View for PriceData {
    type V = PriceData;

    open spec fn view(&self) -> PriceData {
        *self
    }
}

/// Everything the engine keeps from one invocation to the next.
#[derive(Debug)]
pub struct State {
    /// The channel configuration.
    pub config: Config,
    /// The number of jobs registered so far.
    pub job_count: u64,
    /// The registered jobs, by job id.
    pub jobs: Table<Job>,
    /// The latest prices, by symbol.
    pub prices: Table<PriceData>,
}

/// The mathematical value of a [`State`].
pub struct StateView {
    pub config: ConfigView,
    pub job_count: u64,
    pub jobs: Map<Seq<char>, JobView>,
    pub prices: Map<Seq<char>, PriceData>,
}

impl View for State {
    type V = StateView;

    open spec fn view(&self) -> StateView {
        StateView {
            config: self.config@,
            job_count: self.job_count,
            jobs: self.jobs@,
            prices: self.prices@,
        }
    }
}

} // verus!
