//! The operator side of the engine: setting it up, binding the channel,
//! registering jobs, sending their requests and answering queries.

use crate::error::{ContractError, ContractErrorView, StdError, StdErrorView};
use crate::msg::{
    Coin, CoinView, ExecuteMsg, InstantiateMsg, MigrateMsg, OracleRequestPacket,
    OracleRequestPacketView, QueryMsg, coins_view,
};
use crate::obi::{encodable, encode_input, strings_view, PriceDataInput};
use crate::results::{attr, attr_pair, IbcMsg, IbcMsgView, Response, ResponseView};
use crate::state::{Config, ConfigResponse, ConfigView, Job, JobView, PriceData, State, StateView};
use crate::table::Table;
use crate::text::{decimal, lemma_decimal_injective, push_decimal, str_eq};
use vstd::prelude::*;
use vstd::string::*;

verus! {

/// What job ids begin with.
pub const JOB_ID_PREFIX: &'static str = "tvl";

/// The seconds after which a packet that was sent counts as not delivered.
pub const PACKET_LIFETIME: u64 = 300;

/// The most that the data sources may be paid for one request, in `uband`.
pub const FEE_LIMIT: u128 = 1000000;

/// The gas limit of the prepare phase of a request.
pub const PREPARE_GAS: u64 = 100000;

/// The gas limit of the execute phase of a request.
pub const EXECUTE_GAS: u64 = 4000000;

/// What a command reads of its sender.
#[derive(Debug, PartialEq, Eq)]
pub struct MessageInfo {
    /// The address that sent the command.
    pub sender: String,
}

/// What a command reads of the block it runs in.
#[derive(Debug, Clone, Copy, PartialEq, Eq)]
pub struct Env {
    /// The time of the block, in nanoseconds.
    pub time_nanos: u64,
}

/// The id of the `n`-th job.
pub open spec fn job_id(n: nat) -> Seq<char> {
    JOB_ID_PREFIX@ + "-"@ + decimal(n)
}

/// Different jobs have different ids.
pub proof fn lemma_job_ids_differ(a: nat, b: nat)
    ensures
        job_id(a) == job_id(b) <==> a == b,
{
    let head = JOB_ID_PREFIX@ + "-"@;
    assert(job_id(a).subrange(head.len() as int, job_id(a).len() as int) =~= decimal(a));
    assert(job_id(b).subrange(head.len() as int, job_id(b).len() as int) =~= decimal(b));
    lemma_decimal_injective(a, b);
}

/// The mathematical value of the outcome of a command.
pub open spec fn response_view(res: Result<Response, ContractError>) -> Result<
    ResponseView,
    ContractErrorView,
> {
    match res {
        Ok(response) => Ok(response@),
        Err(e) => Err(e@),
    }
}

/// The state of a new engine: the given owner, no channel, no job and no
/// price.
pub open spec fn initial_state(owner: Seq<char>) -> StateView {
    StateView {
        config: ConfigView { owner, channel: Seq::empty() },
        job_count: 0,
        jobs: Map::empty(),
        prices: Map::empty(),
    }
}

/// Sets up the engine for the owner that the message names.
pub fn instantiate(_env: Env, _info: MessageInfo, msg: InstantiateMsg) -> (res: Result<
    (State, Response),
    ContractError,
>)
    ensures
        res is Ok,
        res->Ok_0.0@ == initial_state(msg.owner@),
        res->Ok_0.1@ == (ResponseView {
            attributes: seq![("method"@, "instantiate"@)],
            messages: Seq::empty(),
        }),
{
    let state = State {
        config: Config { owner: msg.owner, channel: String::new() },
        job_count: 0,
        jobs: Table::new(),
        prices: Table::new(),
    };
    let mut response = Response::new();
    response.attributes.push(attr("method", "instantiate"));
    assert(response@.attributes =~= seq![("method"@, "instantiate"@)]);
    assert(response@.messages =~= Seq::empty());
    Ok((state, response))
}

/// What binding a channel does to the state and yields: only the owner may
/// bind, and a refusal changes nothing.
pub open spec fn set_channel_outcome(state: StateView, sender: Seq<char>, channel: Seq<char>) -> (
    StateView,
    Result<ResponseView, ContractErrorView>,
) {
    if state.config.owner != sender {
        (state, Err(ContractErrorView::Unauthorized))
    } else {
        (
            StateView { config: ConfigView { owner: state.config.owner, channel }, ..state },
            Ok(
                ResponseView {
                    attributes: seq![("action"@, "set_channel"@), ("channel"@, channel)],
                    messages: Seq::empty(),
                },
            ),
        )
    }
}

/// Binds the channel that carries the oracle requests.
pub fn try_set_channel(deps: &mut State, info: MessageInfo, channel: String) -> (res: Result<
    Response,
    ContractError,
>)
    ensures
        (final(deps)@, response_view(res)) == set_channel_outcome(
            old(deps)@,
            info.sender@,
            channel@,
        ),
{
    if !str_eq(deps.config.owner.as_str(), info.sender.as_str()) {
        return Err(ContractError::Unauthorized {  });
    }
    deps.config.channel = channel.clone();
    let response = Response {
        attributes: attr_pair(attr("action", "set_channel"), attr("channel", channel.as_str())),
        messages: Vec::new(),
    };
    assert(response@.messages =~= Seq::empty());
    Ok(response)
}

/// One registration, as an operator asks for it.
pub struct Registration {
    pub sender: Seq<char>,
    pub oracle_script_id: u64,
    pub symbols: Seq<Seq<char>>,
    pub multiplier: u64,
    pub ask_count: u64,
    pub min_count: u64,
}

impl Registration {
    /// Whether the registration is granted in `state`: the sender owns the
    /// engine and the request can be encoded.
    pub open spec fn granted(self, state: StateView) -> bool {
        self.sender == state.config.owner && encodable(self.symbols)
    }

    /// The job that the registration makes.
    pub open spec fn job(self) -> JobView {
        JobView {
            oracle_script_id: self.oracle_script_id,
            symbols: self.symbols,
            multiplier: self.multiplier,
            calldata: encode_input(self.symbols, self.multiplier),
            ask_count: self.ask_count,
            min_count: self.min_count,
        }
    }
}

/// What a registration does to the state and yields. A registration that is
/// granted takes the next number of the counter, and its job is stored under
/// the id of that number with its encoded calldata. One that is refused
/// changes nothing and takes no number.
pub open spec fn register_outcome(state: StateView, registration: Registration) -> (
    StateView,
    Result<ResponseView, ContractErrorView>,
) {
    if state.config.owner != registration.sender {
        (state, Err(ContractErrorView::Unauthorized))
    } else if !encodable(registration.symbols) {
        (state, Err(ContractErrorView::IOError("Length does not fit in 32 bits"@)))
    } else {
        let number = (state.job_count + 1) as u64;
        (
            StateView {
                job_count: number,
                jobs: state.jobs.insert(job_id(number as nat), registration.job()),
                ..state
            },
            Ok(
                ResponseView {
                    attributes: seq![
                        ("action"@, "register_new_job"@),
                        ("job_id"@, job_id(number as nat)),
                    ],
                    messages: Seq::empty(),
                },
            ),
        )
    }
}

/// Registers a new oracle request job and returns its id in the attribute
/// `job_id`. The counter must have a number left to give.
pub fn try_register_job(
    deps: &mut State,
    info: MessageInfo,
    oracle_script_id: u64,
    symbols: Vec<String>,
    multiplier: u64,
    ask_count: u64,
    min_count: u64,
) -> (res: Result<Response, ContractError>)
    requires
        old(deps).job_count < u64::MAX,
    ensures
        (final(deps)@, response_view(res)) == register_outcome(
            old(deps)@,
            Registration {
                sender: info.sender@,
                oracle_script_id,
                symbols: strings_view(symbols@),
                multiplier,
                ask_count,
                min_count,
            },
        ),
{
    if !str_eq(deps.config.owner.as_str(), info.sender.as_str()) {
        return Err(ContractError::Unauthorized {  });
    }
    let input = PriceDataInput { symbol: symbols.clone(), multiplier };
    assert(strings_view(input.symbol@) =~= strings_view(symbols@));
    let calldata = match input.encode_obi() {
        Ok(bytes) => bytes,
        Err(e) => {
            return Err(e);
        },
    };
    let new_job_count = deps.job_count + 1;
    let mut job_id = String::from_str(JOB_ID_PREFIX).concat("-");
    push_decimal(&mut job_id, new_job_count);
    deps.job_count = new_job_count;
    let job = Job { oracle_script_id, symbols, multiplier, calldata, ask_count, min_count };
    deps.jobs.insert(job_id.clone(), job);
    let response = Response {
        attributes: attr_pair(attr("action", "register_new_job"), attr("job_id", job_id.as_str())),
        messages: Vec::new(),
    };
    assert(response@.messages =~= Seq::empty());
    Ok(response)
}

/// The state after each registration of `calls` was tried in turn.
pub open spec fn after_registrations(state: StateView, calls: Seq<Registration>) -> StateView
    decreases calls.len(),
{
    if calls.len() == 0 {
        state
    } else {
        register_outcome(after_registrations(state, calls.drop_last()), calls.last()).0
    }
}

/// How many registrations of `calls` are granted in `state`.
pub open spec fn granted_among(state: StateView, calls: Seq<Registration>) -> nat
    decreases calls.len(),
{
    if calls.len() == 0 {
        0
    } else {
        granted_among(state, calls.drop_last()) + if calls.last().granted(state) {
            1nat
        } else {
            0nat
        }
    }
}

/// Job ids are handed out in sequence, whatever refusals come in between.
///
/// Of a run of registrations that does not exhaust the counter, the counter
/// ends up advanced by the number of those that were granted; the last
/// registration, where it is granted, gets the id of that number and, where
/// it is refused, gets an error and leaves the state of before; and neither
/// owner nor channel nor prices change on the way.
pub proof fn lemma_job_ids_are_sequential(state: StateView, calls: Seq<Registration>)
    requires
        state.job_count + calls.len() <= u64::MAX,
    ensures
        after_registrations(state, calls).job_count == state.job_count + granted_among(
            state,
            calls,
        ),
        granted_among(state, calls) <= calls.len(),
        after_registrations(state, calls).config == state.config,
        after_registrations(state, calls).prices == state.prices,
        calls.len() > 0 ==> ({
            let before = after_registrations(state, calls.drop_last());
            let outcome = register_outcome(before, calls.last());
            if calls.last().granted(state) {
                outcome.1 == Ok::<ResponseView, ContractErrorView>(
                    ResponseView {
                        attributes: seq![
                            ("action"@, "register_new_job"@),
                            (
                                "job_id"@,
                                job_id((state.job_count + granted_among(state, calls)) as nat),
                            ),
                        ],
                        messages: Seq::empty(),
                    },
                )
            } else {
                outcome.1 is Err && outcome.0 == before
            }
        }),
    decreases calls.len(),
{
    if calls.len() > 0 {
        lemma_job_ids_are_sequential(state, calls.drop_last());
    }
}

/// The number of the job that the call at place `k` of a run registers,
/// where that call is granted.
pub open spec fn number_of_call(state: StateView, calls: Seq<Registration>, k: int) -> nat {
    (state.job_count + granted_among(state, calls.subrange(0, k + 1))) as nat
}

/// A longer run grants at least as many registrations.
proof fn lemma_granted_among_grows(state: StateView, calls: Seq<Registration>, i: int, j: int)
    requires
        0 <= i <= j <= calls.len(),
    ensures
        granted_among(state, calls.subrange(0, i)) <= granted_among(state, calls.subrange(0, j)),
    decreases j - i,
{
    if i < j {
        lemma_granted_among_grows(state, calls, i, j - 1);
        assert(calls.subrange(0, j).drop_last() =~= calls.subrange(0, j - 1));
    }
}

/// Each call of a run of registrations that does not exhaust the counter,
/// where it is granted, registers the job of its number under the id of that
/// number; where it is refused, it gets an error and changes nothing.
pub proof fn lemma_job_id_of_call(state: StateView, calls: Seq<Registration>, k: int)
    requires
        0 <= k < calls.len(),
        state.job_count + calls.len() <= u64::MAX,
    ensures
        ({
            let before = after_registrations(state, calls.subrange(0, k));
            let outcome = register_outcome(before, calls[k]);
            if calls[k].granted(state) {
                &&& outcome.0.job_count == number_of_call(state, calls, k)
                &&& outcome.0.jobs == before.jobs.insert(
                    job_id(number_of_call(state, calls, k)),
                    calls[k].job(),
                )
                &&& outcome.1 == Ok::<ResponseView, ContractErrorView>(
                    ResponseView {
                        attributes: seq![
                            ("action"@, "register_new_job"@),
                            ("job_id"@, job_id(number_of_call(state, calls, k))),
                        ],
                        messages: Seq::empty(),
                    },
                )
            } else {
                outcome.1 is Err && outcome.0 == before
            }
        }),
{
    let run = calls.subrange(0, k + 1);
    assert(run.drop_last() =~= calls.subrange(0, k));
    assert(run.last() == calls[k]);
    lemma_job_ids_are_sequential(state, run);
    lemma_job_ids_are_sequential(state, calls.subrange(0, k));
}

/// Two granted calls of one run register their jobs under different ids.
pub proof fn lemma_job_ids_never_repeat(
    state: StateView,
    calls: Seq<Registration>,
    i: int,
    j: int,
)
    requires
        0 <= i < j < calls.len(),
        calls[i].granted(state),
        calls[j].granted(state),
    ensures
        number_of_call(state, calls, i) < number_of_call(state, calls, j),
        job_id(number_of_call(state, calls, i)) != job_id(number_of_call(state, calls, j)),
{
    lemma_granted_among_grows(state, calls, i + 1, j);
    let run = calls.subrange(0, j + 1);
    assert(run.drop_last() =~= calls.subrange(0, j));
    assert(run.last() == calls[j]);
    lemma_job_ids_differ(number_of_call(state, calls, i), number_of_call(state, calls, j));
}

/// No job id is handed out twice: in a run of registrations that does not
/// exhaust the counter, a registration that is granted gets an id under
/// which no job was stored before it.
pub proof fn lemma_job_ids_are_fresh(state: StateView, calls: Seq<Registration>)
    requires
        state.job_count + calls.len() <= u64::MAX,
        forall|n: nat| n > state.job_count ==> !state.jobs.contains_key(#[trigger] job_id(n)),
    ensures
        forall|n: nat|
            n > state.job_count + granted_among(state, calls) ==> !after_registrations(
                state,
                calls,
            ).jobs.contains_key(#[trigger] job_id(n)),
    decreases calls.len(),
{
    if calls.len() > 0 {
        let prefix = calls.drop_last();
        lemma_job_ids_are_fresh(state, prefix);
        lemma_job_ids_are_sequential(state, prefix);
        lemma_job_ids_are_sequential(state, calls);
        let before = after_registrations(state, prefix);
        assert forall|n: nat|
            n > state.job_count + granted_among(state, calls) implies !after_registrations(
            state,
            calls,
        ).jobs.contains_key(#[trigger] job_id(n)) by {
            lemma_job_ids_differ(n, (before.job_count + 1) as nat);
        }
    }
}

/// Whether the calldata of every registered job is the encoding of its
/// symbols and multiplier.
pub open spec fn jobs_are_canonical(state: StateView) -> bool {
    forall|id: Seq<char>| #[trigger] state.jobs.contains_key(id) ==> state.jobs[id].canonical()
}

/// Registration stores the calldata that belongs to the job and leaves the
/// jobs that are there as they are.
pub proof fn lemma_registration_keeps_jobs_canonical(state: StateView, registration: Registration)
    requires
        jobs_are_canonical(state),
    ensures
        jobs_are_canonical(register_outcome(state, registration).0),
{
}

/// Computes the time `seconds` after `nanos` with `cosmwasm_std`'s
/// `Timestamp::plus_seconds`, which adds the seconds as nanoseconds and
/// panics where the sum exceeds 64 bits.
#[verifier::external_body]
fn plus_seconds(nanos: u64, seconds: u64) -> (later: u64)
    requires
        nanos + seconds * 1_000_000_000 <= u64::MAX,
    ensures
        later == nanos + seconds * 1_000_000_000,
{
    cosmwasm_std::Timestamp::from_nanos(nanos).plus_seconds(seconds).nanos()
}

/// Makes the list of one coin with `cosmwasm_std`'s `coins`: the given
/// amount of the given denomination.
#[verifier::external_body]
fn coins(amount: u128, denom: &str) -> (list: Vec<Coin>)
    ensures
        coins_view(list@) == seq![CoinView { denom: denom@, amount }],
{
    cosmwasm_std::coins(amount, denom).into_iter().map(
        |c| Coin { denom: c.denom, amount: c.amount.u128() },
    ).collect()
}

/// The packet that asks the oracle network to run `job` for `job_id`.
pub open spec fn request_packet(job_id: Seq<char>, job: JobView) -> OracleRequestPacketView {
    OracleRequestPacketView {
        client_id: job_id,
        oracle_script_id: job.oracle_script_id,
        calldata: job.calldata,
        ask_count: job.ask_count,
        min_count: job.min_count,
        fee_limit: seq![CoinView { denom: "uband"@, amount: FEE_LIMIT }],
        prepare_gas: PREPARE_GAS,
        execute_gas: EXECUTE_GAS,
    }
}

/// What sending the request of a job yields: an error where no channel is
/// bound or no such job is registered, and else the packet for the bound
/// channel, which times out [`PACKET_LIFETIME`] seconds after `now`.
pub open spec fn send_outcome(state: StateView, now: u64, job_id: Seq<char>) -> Result<
    ResponseView,
    ContractErrorView,
> {
    if state.config.channel.len() == 0 {
        Err(ContractErrorView::ChannelNotSet)
    } else if !state.jobs.contains_key(job_id) {
        Err(ContractErrorView::JobNotFound)
    } else {
        Ok(
            ResponseView {
                attributes: seq![
                    ("action"@, "update_data"@),
                    ("channel"@, state.config.channel),
                    ("job_id"@, job_id),
                ],
                messages: seq![
                    IbcMsgView::SendPacket {
                        channel_id: state.config.channel,
                        data: request_packet(job_id, state.jobs[job_id]),
                        timeout: (now + PACKET_LIFETIME * 1_000_000_000) as u64,
                    },
                ],
            },
        )
    }
}

/// Sends the oracle request of a registered job over the bound channel. The
/// calldata goes out as it was stored at registration. The time at which the
/// packet times out must fit in 64 bits of nanoseconds.
pub fn try_update_job_data(deps: &State, env: Env, job_id: String) -> (res: Result<
    Response,
    ContractError,
>)
    requires
        env.time_nanos + PACKET_LIFETIME * 1_000_000_000 <= u64::MAX,
    ensures
        response_view(res) == send_outcome(deps@, env.time_nanos, job_id@),
{
    if deps.config.channel.as_str().is_empty() {
        return Err(ContractError::ChannelNotSet {  });
    }
    let job = match deps.jobs.get(job_id.as_str()) {
        Some(data) => data,
        None => {
            return Err(ContractError::JobNotFound {  });
        },
    };
    let mut attributes = Vec::new();
    attributes.push(attr("action", "update_data"));
    attributes.push(attr("channel", deps.config.channel.as_str()));
    attributes.push(attr("job_id", job_id.as_str()));
    let packet = OracleRequestPacket {
        client_id: job_id,
        oracle_script_id: job.oracle_script_id,
        calldata: job.calldata.clone(),
        ask_count: job.ask_count,
        min_count: job.min_count,
        fee_limit: coins(FEE_LIMIT, "uband"),
        prepare_gas: PREPARE_GAS,
        execute_gas: EXECUTE_GAS,
    };
    assert(packet.calldata@ =~= job.calldata@);
    let mut messages = Vec::new();
    messages.push(
        IbcMsg::SendPacket {
            channel_id: deps.config.channel.clone(),
            data: packet,
            timeout: plus_seconds(env.time_nanos, PACKET_LIFETIME),
        },
    );
    let response = Response { attributes, messages };
    assert(response@.attributes =~= send_outcome(
        deps@,
        env.time_nanos,
        job_id@,
    )->Ok_0.attributes);
    assert(response@.messages =~= send_outcome(deps@, env.time_nanos, job_id@)->Ok_0.messages);
    Ok(response)
}

/// Whether a command can run: registering needs a number left in the
/// counter, and sending needs a time of delivery that fits in 64 bits.
pub open spec fn can_execute(state: StateView, env: Env, msg: ExecuteMsg) -> bool {
    match msg {
        ExecuteMsg::SetChannel { .. } => true,
        ExecuteMsg::RegisterJob { .. } => state.job_count < u64::MAX,
        ExecuteMsg::UpdateJobData { .. } => env.time_nanos + PACKET_LIFETIME * 1_000_000_000
            <= u64::MAX,
    }
}

/// What a command does to the state and yields.
pub open spec fn execute_outcome(state: StateView, env: Env, sender: Seq<char>, msg: ExecuteMsg) -> (
    StateView,
    Result<ResponseView, ContractErrorView>,
) {
    match msg {
        ExecuteMsg::SetChannel { channel } => set_channel_outcome(state, sender, channel@),
        ExecuteMsg::RegisterJob { oracle_script_id, symbols, multiplier, ask_count, min_count } => {
            register_outcome(
                state,
                Registration {
                    sender,
                    oracle_script_id,
                    symbols: strings_view(symbols@),
                    multiplier,
                    ask_count,
                    min_count,
                },
            )
        },
        ExecuteMsg::UpdateJobData { job_id } => (
            state,
            send_outcome(state, env.time_nanos, job_id@),
        ),
    }
}

/// Runs a command of an operator, where [`can_execute`] holds of it.
pub fn execute(deps: &mut State, env: Env, info: MessageInfo, msg: ExecuteMsg) -> (res: Result<
    Response,
    ContractError,
>)
    requires
        can_execute(old(deps)@, env, msg),
    ensures
        (final(deps)@, response_view(res)) == execute_outcome(
            old(deps)@,
            env,
            info.sender@,
            msg,
        ),
{
    match msg {
        ExecuteMsg::SetChannel { channel } => try_set_channel(deps, info, channel),
        ExecuteMsg::RegisterJob { oracle_script_id, symbols, multiplier, ask_count, min_count } => {
            try_register_job(
                deps,
                info,
                oracle_script_id,
                symbols,
                multiplier,
                ask_count,
                min_count,
            )
        },
        ExecuteMsg::UpdateJobData { job_id } => try_update_job_data(deps, env, job_id),
    }
}

/// The answer to a query.
#[derive(Debug, PartialEq, Eq)]
pub enum QueryResponse {
    Config(ConfigResponse),
    Job(Job),
    Price(PriceData),
}

/// The mathematical value of a [`QueryResponse`].
pub enum QueryResponseView {
    Config(ConfigView),
    Job(JobView),
    Price(PriceData),
}

impl View for QueryResponse {
    type V = QueryResponseView;

    open spec fn view(&self) -> QueryResponseView {
        match self {
            QueryResponse::Config(config) => QueryResponseView::Config(config@),
            QueryResponse::Job(job) => QueryResponseView::Job(job@),
            QueryResponse::Price(price) => QueryResponseView::Price(*price),
        }
    }
}

/// The error of a query for a key under which nothing of kind `kind` is
/// stored.
pub open spec fn not_found(kind: Seq<char>) -> StdErrorView {
    StdErrorView::NotFound { kind }
}

/// What a query yields in `state`.
pub open spec fn query_outcome(state: StateView, msg: QueryMsg) -> Result<
    QueryResponseView,
    StdErrorView,
> {
    match msg {
        QueryMsg::Config {  } => Ok(QueryResponseView::Config(state.config)),
        QueryMsg::Job { job_id } => if state.jobs.contains_key(job_id@) {
            Ok(QueryResponseView::Job(state.jobs[job_id@]))
        } else {
            Err(not_found("band_ibc::state::Job"@))
        },
        QueryMsg::Price { symbol } => if state.prices.contains_key(symbol@) {
            Ok(QueryResponseView::Price(state.prices[symbol@]))
        } else {
            Err(not_found("band_ibc::state::PriceData"@))
        },
    }
}

/// The channel configuration.
pub fn query_config(deps: &State) -> (res: Result<ConfigResponse, StdError>)
    ensures
        res is Ok,
        res->Ok_0@ == deps@.config,
{
    Ok(ConfigResponse { owner: deps.config.owner.clone(), channel: deps.config.channel.clone() })
}

/// The job registered under `job_id`.
pub fn query_job(deps: &State, job_id: String) -> (res: Result<Job, StdError>)
    ensures
        match res {
            Ok(job) => deps@.jobs.contains_key(job_id@) && job@ == deps@.jobs[job_id@],
            Err(e) => !deps@.jobs.contains_key(job_id@) && e@ == not_found(
                "band_ibc::state::Job"@,
            ),
        },
{
    match deps.jobs.get(job_id.as_str()) {
        Some(job) => Ok(job.clone()),
        None => Err(StdError::NotFound { kind: String::from_str("band_ibc::state::Job") }),
    }
}

/// The latest price of `symbol`.
pub fn query_price(deps: &State, symbol: String) -> (res: Result<PriceData, StdError>)
    ensures
        match res {
            Ok(price) => deps@.prices.contains_key(symbol@) && price == deps@.prices[symbol@],
            Err(e) => !deps@.prices.contains_key(symbol@) && e@ == not_found(
                "band_ibc::state::PriceData"@,
            ),
        },
{
    match deps.prices.get(symbol.as_str()) {
        Some(price) => Ok(*price),
        None => Err(StdError::NotFound { kind: String::from_str("band_ibc::state::PriceData") }),
    }
}

/// The mathematical value of the outcome of a query.
pub open spec fn query_view(res: Result<QueryResponse, StdError>) -> Result<
    QueryResponseView,
    StdErrorView,
> {
    match res {
        Ok(response) => Ok(response@),
        Err(e) => Err(e@),
    }
}

/// Answers a query. Queries read the state and change nothing.
pub fn query(deps: &State, msg: QueryMsg) -> (res: Result<QueryResponse, StdError>)
    ensures
        query_view(res) == query_outcome(deps@, msg),
{
    match msg {
        QueryMsg::Config {  } => match query_config(deps) {
            Ok(config) => Ok(QueryResponse::Config(config)),
            Err(e) => Err(e),
        },
        QueryMsg::Job { job_id } => match query_job(deps, job_id) {
            Ok(job) => Ok(QueryResponse::Job(job)),
            Err(e) => Err(e),
        },
        QueryMsg::Price { symbol } => match query_price(deps, symbol) {
            Ok(price) => Ok(QueryResponse::Price(price)),
            Err(e) => Err(e),
        },
    }
}

/// Migrates the engine: there is nothing to do, and the state is not even
/// looked at.
pub fn migrate(_env: Env, _msg: MigrateMsg) -> (res: Result<Response, ContractError>)
    ensures
        response_view(res) == Ok::<ResponseView, ContractErrorView>(
            ResponseView { attributes: Seq::empty(), messages: Seq::empty() },
        ),
{
    Ok(Response::new())
}

} // verus!
