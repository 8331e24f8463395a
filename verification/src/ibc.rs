//! The channel side of the engine: the handshake, the life of the channel
//! and the resolution of the answers that arrive on it.

use crate::error::{ContractError, ContractErrorView, StdError, StdErrorView};
use crate::msg::OracleResponsePacket;
use crate::obi::{base64_decoded, decode_obi_spec, decoded_view, PriceDataOutput};
use crate::results::{
    attr, attr_pair, IbcBasicResponse, IbcReceiveResponse, IbcReceiveResponseView,
};
use crate::state::{Decimal, JobView, PriceData, State, StateView};
use crate::text::{parse_u64, parse_u64_spec, str_eq};
use vstd::prelude::*;
use vstd::string::*;

verus! {

/// The protocol version that both ends of the channel must propose.
pub const IBC_VERSION: &'static str = "bandchain-1";

/// How a channel orders its packets.
#[derive(Debug, Clone, Copy, PartialEq, Eq)]
pub enum IbcOrder {
    Unordered,
    Ordered,
}

/// What the handshake and the life of a channel read of it.
#[derive(Debug, PartialEq, Eq)]
pub struct IbcChannel {
    /// The id of the channel at this end.
    pub channel_id: String,
    /// How the channel orders its packets.
    pub order: IbcOrder,
    /// The protocol version proposed at this end.
    pub version: String,
}

/// The characters of an optional string.
pub open spec fn optional_text(text: Option<&str>) -> Option<Seq<char>> {
    match text {
        Some(t) => Some(t@),
        None => None,
    }
}

/// The verdict on a handshake: the channel must be unordered, and this end
/// and, where it is known, the other end must propose [`IBC_VERSION`]. The
/// first requirement that is not met decides the error.
pub open spec fn handshake_verdict(
    order: IbcOrder,
    version: Seq<char>,
    counterparty_version: Option<Seq<char>>,
) -> Result<(), ContractErrorView> {
    if order != IbcOrder::Unordered {
        Err(ContractErrorView::OrderedChannel)
    } else if version != IBC_VERSION@ {
        Err(ContractErrorView::InvalidVersion { actual: version, expected: IBC_VERSION@ })
    } else if counterparty_version is Some && counterparty_version->0 != IBC_VERSION@ {
        Err(
            ContractErrorView::InvalidVersion {
                actual: counterparty_version->0,
                expected: IBC_VERSION@,
            },
        )
    } else {
        Ok(())
    }
}

/// The mathematical value of the outcome of a validation.
pub open spec fn verdict_view(res: Result<(), ContractError>) -> Result<(), ContractErrorView> {
    match res {
        Ok(_) => Ok(()),
        Err(e) => Err(e@),
    }
}

/// Validates the ordering and the versions of a handshake. The same
/// validation serves at the opening and at the connection of a channel.
pub fn validate_order_and_version(channel: &IbcChannel, counterparty_version: Option<&str>) -> (res:
    Result<(), ContractError>)
    ensures
        verdict_view(res) == handshake_verdict(
            channel.order,
            channel.version@,
            optional_text(counterparty_version),
        ),
{
    match channel.order {
        IbcOrder::Unordered => {},
        IbcOrder::Ordered => {
            return Err(ContractError::OrderedChannel {  });
        },
    }
    if !str_eq(channel.version.as_str(), IBC_VERSION) {
        return Err(
            ContractError::InvalidVersion {
                actual: channel.version.clone(),
                expected: String::from_str(IBC_VERSION),
            },
        );
    }
    if let Some(counterparty_version) = counterparty_version {
        if !str_eq(counterparty_version, IBC_VERSION) {
            return Err(
                ContractError::InvalidVersion {
                    actual: String::from_str(counterparty_version),
                    expected: String::from_str(IBC_VERSION),
                },
            );
        }
    }
    Ok(())
}

/// Validation has no memory: two verdicts on the same ordering and the same
/// versions are the same verdict.
pub proof fn lemma_validation_is_repeatable(
    channel: IbcChannel,
    counterparty_version: Option<&str>,
    first: Result<(), ContractError>,
    second: Result<(), ContractError>,
)
    requires
        verdict_view(first) == handshake_verdict(
            channel.order,
            channel.version@,
            optional_text(counterparty_version),
        ),
        verdict_view(second) == handshake_verdict(
            channel.order,
            channel.version@,
            optional_text(counterparty_version),
        ),
    ensures
        verdict_view(first) == verdict_view(second),
{
}

/// Validates the handshake at the opening of a channel.
pub fn ibc_channel_open(channel: &IbcChannel, counterparty_version: Option<&str>) -> (res: Result<
    (),
    ContractError,
>)
    ensures
        verdict_view(res) == handshake_verdict(
            channel.order,
            channel.version@,
            optional_text(counterparty_version),
        ),
{
    validate_order_and_version(channel, counterparty_version)
}

/// The mathematical value of the outcome of a step in the life of the
/// channel.
pub open spec fn basic_view(res: Result<IbcBasicResponse, ContractError>) -> Result<
    Seq<(Seq<char>, Seq<char>)>,
    ContractErrorView,
> {
    match res {
        Ok(response) => Ok(response@),
        Err(e) => Err(e@),
    }
}

/// What the connection of a channel yields: the error of the handshake, or
/// the attributes that record the channel.
pub open spec fn connect_outcome(
    channel_id: Seq<char>,
    order: IbcOrder,
    version: Seq<char>,
    counterparty_version: Option<Seq<char>>,
) -> Result<Seq<(Seq<char>, Seq<char>)>, ContractErrorView> {
    match handshake_verdict(order, version, counterparty_version) {
        Ok(_) => Ok(seq![("method"@, "ibc_channel_connect"@), ("channel_id"@, channel_id)]),
        Err(e) => Err(e),
    }
}

/// Validates the handshake again at the connection of a channel and records
/// the channel for observers. It binds no channel: that is the owner's
/// command.
pub fn ibc_channel_connect(channel: &IbcChannel, counterparty_version: Option<&str>) -> (res:
    Result<IbcBasicResponse, ContractError>)
    ensures
        basic_view(res) == connect_outcome(
            channel.channel_id@,
            channel.order,
            channel.version@,
            optional_text(counterparty_version),
        ),
{
    match validate_order_and_version(channel, counterparty_version) {
        Ok(_) => {},
        Err(e) => {
            return Err(e);
        },
    }
    Ok(
        IbcBasicResponse {
            attributes: attr_pair(
                attr("method", "ibc_channel_connect"),
                attr("channel_id", channel.channel_id.as_str()),
            ),
        },
    )
}

/// Records the closing of a channel for observers. The bound channel stays
/// as it is.
pub fn ibc_channel_close(channel: &IbcChannel) -> (res: Result<IbcBasicResponse, ContractError>)
    ensures
        basic_view(res) == Ok::<Seq<(Seq<char>, Seq<char>)>, ContractErrorView>(
            seq![("method"@, "ibc_channel_close"@), ("channel"@, channel.channel_id@)],
        ),
{
    Ok(
        IbcBasicResponse {
            attributes: attr_pair(
                attr("method", "ibc_channel_close"),
                attr("channel", channel.channel_id.as_str()),
            ),
        },
    )
}

/// The list of the one attribute that names a method.
fn method_attribute(method: &str) -> (response: IbcBasicResponse)
    ensures
        response@ == seq![("method"@, method@)],
{
    let mut attributes = Vec::new();
    attributes.push(attr("method", method));
    let response = IbcBasicResponse { attributes };
    assert(response@ =~= seq![("method"@, method@)]);
    response
}

/// Records for observers that the counterparty acknowledged a packet.
pub fn ibc_packet_ack() -> (res: Result<IbcBasicResponse, ContractError>)
    ensures
        basic_view(res) == Ok::<Seq<(Seq<char>, Seq<char>)>, ContractErrorView>(
            seq![("method"@, "ibc_packet_ack"@)],
        ),
{
    Ok(method_attribute("ibc_packet_ack"))
}

/// Records for observers that a packet timed out.
pub fn ibc_packet_timeout() -> (res: Result<IbcBasicResponse, ContractError>)
    ensures
        basic_view(res) == Ok::<Seq<(Seq<char>, Seq<char>)>, ContractErrorView>(
            seq![("method"@, "ibc_packet_timeout"@)],
        ),
{
    Ok(method_attribute("ibc_packet_timeout"))
}

/// The answer returned to the counterparty for a packet: the marker of
/// success or the reason of the failure.
#[derive(Debug, PartialEq, Eq)]
pub enum Ack {
    Result(Vec<u8>),
    Error(String),
}

/// The mathematical value of an [`Ack`].
pub enum AckView {
    Result(Seq<u8>),
    Error(Seq<char>),
}

impl View for Ack {
    type V = AckView;

    open spec fn view(&self) -> AckView {
        match self {
            Ack::Result(marker) => AckView::Result(marker@),
            Ack::Error(reason) => AckView::Error(reason@),
        }
    }
}

/// The marker that a positive acknowledgement carries: the character `1`.
pub open spec fn success_marker() -> Seq<u8> {
    seq![49u8]
}

/// The positive acknowledgement.
pub fn make_ack_success() -> (ack: Ack)
    ensures
        ack@ == AckView::Result(success_marker()),
{
    let mut marker: Vec<u8> = Vec::new();
    marker.push(49u8);
    assert(marker@ =~= success_marker());
    Ack::Result(marker)
}

/// The negative acknowledgement with the given reason.
pub fn make_ack_fail(err: String) -> (ack: Ack)
    ensures
        ack@ == AckView::Error(err@),
{
    Ack::Error(err)
}

/// The response that refuses a packet for the given reason.
pub open spec fn failure_response(reason: Seq<char>) -> IbcReceiveResponseView {
    IbcReceiveResponseView {
        attributes: seq![("method"@, "ibc_packet_receive"@), ("error"@, reason)],
        acknowledgement: AckView::Error(reason),
    }
}

/// The response that accepts the answer to the request `client_id`.
pub open spec fn success_response(client_id: Seq<char>) -> IbcReceiveResponseView {
    IbcReceiveResponseView {
        attributes: seq![("method"@, "execute_update"@), ("request_id"@, client_id)],
        acknowledgement: AckView::Result(success_marker()),
    }
}

/// The mathematical value of the outcome of an inbound packet.
pub open spec fn receive_view(res: Result<IbcReceiveResponse, ContractError>) -> Result<
    IbcReceiveResponseView,
    ContractErrorView,
> {
    match res {
        Ok(response) => Ok(response@),
        Err(e) => Err(e@),
    }
}

/// Refuses a packet: the reason goes into a negative acknowledgement, and
/// the invocation itself succeeds.
pub fn fail_packet_receive(err: &str) -> (res: Result<IbcReceiveResponse, ContractError>)
    ensures
        receive_view(res) == Ok::<IbcReceiveResponseView, ContractErrorView>(
            failure_response(err@),
        ),
{
    Ok(
        IbcReceiveResponse {
            attributes: attr_pair(attr("method", "ibc_packet_receive"), attr("error", err)),
            acknowledgement: make_ack_fail(String::from_str(err)),
        },
    )
}

/// The price that one rate of an answer gives.
pub open spec fn resolved_price(
    rate: u64,
    multiplier: u64,
    request_id: u64,
    resolve_time: u64,
) -> PriceData {
    PriceData {
        rate: Decimal::ratio(rate, multiplier),
        bandchain_request_id: request_id,
        bandchain_resolve_time: resolve_time,
    }
}

/// The price table after the first `n` rates of an answer were written, each
/// under the symbol at its place in the request.
pub open spec fn apply_rates(
    prices: Map<Seq<char>, PriceData>,
    job: JobView,
    rates: Seq<u64>,
    request_id: u64,
    resolve_time: u64,
    n: nat,
) -> Map<Seq<char>, PriceData>
    decreases n,
{
    if n == 0 {
        prices
    } else {
        apply_rates(prices, job, rates, request_id, resolve_time, (n - 1) as nat).insert(
            job.symbols[n - 1],
            resolved_price(rates[n - 1], job.multiplier, request_id, resolve_time),
        )
    }
}

/// The state with another price table.
pub open spec fn with_prices(state: StateView, prices: Map<Seq<char>, PriceData>) -> StateView {
    StateView { prices, ..state }
}

/// Writing the rates of an answer touches the symbols of its request and
/// nothing else: after the first `n` rates were written, each of the first
/// `n` symbols has a price; a symbol that does not come again among them has
/// the price that its rate gives; and every other key is as it was.
pub proof fn lemma_apply_rates(
    prices: Map<Seq<char>, PriceData>,
    job: JobView,
    rates: Seq<u64>,
    request_id: u64,
    resolve_time: u64,
    n: nat,
)
    requires
        n <= job.symbols.len(),
        n <= rates.len(),
    ensures
        forall|i: int|
            0 <= i < n ==> apply_rates(
                prices,
                job,
                rates,
                request_id,
                resolve_time,
                n,
            ).contains_key(#[trigger] job.symbols[i]),
        forall|i: int|
            0 <= i < n && (forall|j: int| i < j < n ==> job.symbols[j] != job.symbols[i])
                ==> apply_rates(prices, job, rates, request_id, resolve_time, n)[#[trigger] job.symbols[i]]
                == resolved_price(rates[i], job.multiplier, request_id, resolve_time),
        forall|key: Seq<char>|
            (forall|i: int| 0 <= i < n ==> job.symbols[i] != key) ==> (#[trigger] apply_rates(
                prices,
                job,
                rates,
                request_id,
                resolve_time,
                n,
            ).contains_key(key) <==> prices.contains_key(key)) && apply_rates(
                prices,
                job,
                rates,
                request_id,
                resolve_time,
                n,
            )[key] == prices[key],
    decreases n,
{
    if n > 0 {
        let m = (n - 1) as nat;
        lemma_apply_rates(prices, job, rates, request_id, resolve_time, m);
        let before = apply_rates(prices, job, rates, request_id, resolve_time, m);
        let after = apply_rates(prices, job, rates, request_id, resolve_time, n);
        assert forall|i: int| 0 <= i < n implies after.contains_key(#[trigger] job.symbols[i]) by {
            if i < m {
                assert(before.contains_key(job.symbols[i]));
            }
        }
        assert forall|i: int|
            0 <= i < n && (forall|j: int|
                i < j < n ==> job.symbols[j] != job.symbols[i]) implies after[#[trigger] job.symbols[i]]
            == resolved_price(rates[i], job.multiplier, request_id, resolve_time) by {
            if i < m {
                assert(job.symbols[m as int] != job.symbols[i]);
                assert(forall|j: int| i < j < m ==> job.symbols[j] != job.symbols[i]);
            }
        }
        assert forall|key: Seq<char>|
            (forall|i: int| 0 <= i < n ==> job.symbols[i] != key) implies (
        #[trigger] after.contains_key(key) <==> prices.contains_key(key)) && after[key]
            == prices[key] by {
            assert(job.symbols[m as int] != key);
            assert(forall|i: int| 0 <= i < m ==> job.symbols[i] != key);
            assert(before.contains_key(key) <==> prices.contains_key(key));
        }
    }
}

/// What a decoded answer does to the state and which response it gets.
///
/// The answer is refused, and the state stays as it is, where decoding
/// failed, where no job is registered under `client_id`, or where the number
/// of rates differs from the number of symbols of the job. An answer with
/// rates is also refused where its rates cannot be turned into prices: the
/// multiplier of the job is zero, or the request id or the resolve time is
/// no 64-bit number in decimal notation. Otherwise every rate is written
/// under its symbol and the answer is accepted.
pub open spec fn resolve_outcome(
    state: StateView,
    client_id: Seq<char>,
    request_id: Seq<char>,
    resolve_time: Seq<char>,
    decoded: Result<Seq<u64>, StdErrorView>,
) -> (StateView, IbcReceiveResponseView) {
    match decoded {
        Err(e) => (state, failure_response(e.message())),
        Ok(rates) => {
            if !state.jobs.contains_key(client_id) {
                (state, failure_response("Invalid client id"@))
            } else {
                let job = state.jobs[client_id];
                if job.symbols.len() != rates.len() {
                    (state, failure_response("Result and Calldata length mismatched"@))
                } else if rates.len() == 0 {
                    (state, success_response(client_id))
                } else if job.multiplier == 0 {
                    (state, failure_response("Denominator must not be zero"@))
                } else if parse_u64_spec(request_id) is None {
                    (state, failure_response("Invalid request id"@))
                } else if parse_u64_spec(resolve_time) is None {
                    (state, failure_response("Invalid resolve time"@))
                } else {
                    (
                        with_prices(
                            state,
                            apply_rates(
                                state.prices,
                                job,
                                rates,
                                parse_u64_spec(request_id)->0,
                                parse_u64_spec(resolve_time)->0,
                                rates.len(),
                            ),
                        ),
                        success_response(client_id),
                    )
                }
            }
        },
    }
}

/// What an answer does to the state and which response it gets, given what
/// its payload decodes to. An answer that was not resolved successfully or
/// that arrives on another channel than the bound one is refused before its
/// payload is looked at.
pub open spec fn update_outcome(
    state: StateView,
    channel: Seq<char>,
    client_id: Seq<char>,
    request_id: Seq<char>,
    resolve_time: Seq<char>,
    resolve_status: Seq<char>,
    decoded: Result<Seq<u64>, StdErrorView>,
) -> (StateView, IbcReceiveResponseView) {
    if resolve_status != "RESOLVE_STATUS_SUCCESS"@ {
        (state, failure_response("Band request did not resolve successfully"@))
    } else if channel != state.config.channel {
        (state, failure_response("Received packet coming from the wrong channel"@))
    } else {
        resolve_outcome(state, client_id, request_id, resolve_time, decoded)
    }
}

/// The resolution of an answer is all or nothing: an answer that is refused
/// leaves the whole state as it was, and an answer that is accepted changes
/// prices only.
pub proof fn lemma_resolution_is_all_or_nothing(
    state: StateView,
    channel: Seq<char>,
    client_id: Seq<char>,
    request_id: Seq<char>,
    resolve_time: Seq<char>,
    resolve_status: Seq<char>,
    decoded: Result<Seq<u64>, StdErrorView>,
)
    ensures
        ({
            let outcome = update_outcome(
                state,
                channel,
                client_id,
                request_id,
                resolve_time,
                resolve_status,
                decoded,
            );
            &&& outcome.1.acknowledgement is Error ==> outcome.0 == state
            &&& outcome.0.config == state.config
            &&& outcome.0.job_count == state.job_count
            &&& outcome.0.jobs == state.jobs
        }),
{
}

/// An answer that decodes to another number of rates than its request has
/// symbols is refused, and the price table stays as it was.
pub proof fn lemma_mismatched_answer_changes_nothing(
    state: StateView,
    channel: Seq<char>,
    client_id: Seq<char>,
    request_id: Seq<char>,
    resolve_time: Seq<char>,
    resolve_status: Seq<char>,
    rates: Seq<u64>,
)
    requires
        state.jobs.contains_key(client_id),
        state.jobs[client_id].symbols.len() != rates.len(),
    ensures
        ({
            let outcome = update_outcome(
                state,
                channel,
                client_id,
                request_id,
                resolve_time,
                resolve_status,
                Ok(rates),
            );
            &&& outcome.0.prices == state.prices
            &&& outcome.0 == state
            &&& outcome.1.acknowledgement is Error
        }),
{
}

/// Applies a decoded answer to the state: the steps of the resolution that
/// follow the decoding of the payload.
pub fn resolve_update(
    deps: &mut State,
    client_id: String,
    request_id: String,
    resolve_time: String,
    decoded: Result<PriceDataOutput, StdError>,
) -> (res: Result<IbcReceiveResponse, ContractError>)
    ensures
        res is Ok,
        (final(deps)@, res->Ok_0@) == resolve_outcome(
            old(deps)@,
            client_id@,
            request_id@,
            resolve_time@,
            decoded_view(decoded),
        ),
{
    let rates = match decoded {
        Ok(output) => output.rates,
        Err(e) => {
            return fail_packet_receive(e.to_string().as_str());
        },
    };
    let request = match deps.jobs.get(client_id.as_str()) {
        Some(job) => job,
        None => {
            return fail_packet_receive("Invalid client id");
        },
    };
    let count = rates.len();
    if request.symbols.len() != count {
        return fail_packet_receive("Result and Calldata length mismatched");
    }
    if count > 0 {
        if request.multiplier == 0 {
            return fail_packet_receive("Denominator must not be zero");
        }
        let bandchain_request_id = match parse_u64(request_id.as_str()) {
            Some(id) => id,
            None => {
                return fail_packet_receive("Invalid request id");
            },
        };
        let bandchain_resolve_time = match parse_u64(resolve_time.as_str()) {
            Some(time) => time,
            None => {
                return fail_packet_receive("Invalid resolve time");
            },
        };
        let mut i: usize = 0;
        while i < count
            invariant
                i <= count == rates@.len() == request.symbols@.len(),
                request.multiplier != 0,
                request@ == old(deps)@.jobs[client_id@],
                deps.config == old(deps).config,
                deps.job_count == old(deps).job_count,
                deps.jobs == old(deps).jobs,
                deps.prices@ == apply_rates(
                    old(deps)@.prices,
                    request@,
                    rates@,
                    bandchain_request_id,
                    bandchain_resolve_time,
                    i as nat,
                ),
            decreases count - i,
        {
            let price = PriceData {
                rate: Decimal::from_ratio(rates[i], request.multiplier),
                bandchain_request_id,
                bandchain_resolve_time,
            };
            deps.prices.insert(request.symbols[i].clone(), price);
            i += 1;
        }
    }
    Ok(
        IbcReceiveResponse {
            attributes: attr_pair(
                attr("method", "execute_update"),
                attr("request_id", client_id.as_str()),
            ),
            acknowledgement: make_ack_success(),
        },
    )
}

/// Resolves one answer of the oracle network. Nothing here fails the
/// invocation: an answer that cannot be applied is refused with a negative
/// acknowledgement, and prices are written only once every check has passed.
pub fn execute_update(
    deps: &mut State,
    channel: String,
    client_id: String,
    request_id: String,
    resolve_time: String,
    resolve_status: String,
    result: String,
) -> (res: Result<IbcReceiveResponse, ContractError>)
    ensures
        res is Ok,
        (final(deps)@, res->Ok_0@) == update_outcome(
            old(deps)@,
            channel@,
            client_id@,
            request_id@,
            resolve_time@,
            resolve_status@,
            decode_obi_spec(base64_decoded(result@)),
        ),
{
    if !str_eq(resolve_status.as_str(), "RESOLVE_STATUS_SUCCESS") {
        return fail_packet_receive("Band request did not resolve successfully");
    }
    if !str_eq(channel.as_str(), deps.config.channel.as_str()) {
        return fail_packet_receive("Received packet coming from the wrong channel");
    }
    let decoded = PriceDataOutput::decode_obi(result.as_str());
    resolve_update(deps, client_id, request_id, resolve_time, decoded)
}

/// Resolves the answer that a packet on `channel` carries.
pub fn try_ibc_packet_receive(deps: &mut State, channel: String, packet: OracleResponsePacket) -> (res:
    Result<IbcReceiveResponse, ContractError>)
    ensures
        res is Ok,
        (final(deps)@, res->Ok_0@) == update_outcome(
            old(deps)@,
            channel@,
            packet.client_id@,
            packet.request_id@,
            packet.resolve_time@,
            packet.resolve_status@,
            decode_obi_spec(base64_decoded(packet.result@)),
        ),
{
    let OracleResponsePacket { client_id, request_id, resolve_time, resolve_status, result, .. } =
        packet;
    execute_update(deps, channel, client_id, request_id, resolve_time, resolve_status, result)
}

/// Receives a packet: whatever happens to the answer it carries, the
/// counterparty gets an acknowledgement.
pub fn ibc_packet_receive(deps: &mut State, channel: String, packet: OracleResponsePacket) -> (res:
    Result<IbcReceiveResponse, ContractError>)
    ensures
        res is Ok,
        (final(deps)@, res->Ok_0@) == update_outcome(
            old(deps)@,
            channel@,
            packet.client_id@,
            packet.request_id@,
            packet.resolve_time@,
            packet.resolve_status@,
            decode_obi_spec(base64_decoded(packet.result@)),
        ),
{
    match try_ibc_packet_receive(deps, channel, packet) {
        Ok(response) => Ok(response),
        Err(error) => fail_packet_receive(error.to_string().as_str()),
    }
}

} // verus!
