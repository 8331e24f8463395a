use band_ibc::contract::{
    execute, instantiate, migrate, query, query_config, query_job, query_price, try_register_job,
    try_set_channel, try_update_job_data, Env, MessageInfo, QueryResponse, JOB_ID_PREFIX,
};
use band_ibc::error::{ContractError, StdError};
use band_ibc::msg::{
    Coin, ExecuteMsg, InstantiateMsg, MigrateMsg, OracleRequestPacket, QueryMsg,
};
use band_ibc::obi::PriceDataInput;
use band_ibc::results::{Attribute, IbcMsg, Response};
use band_ibc::state::{Config, ConfigResponse, Decimal, Job, PriceData, State};

fn sender(name: &str) -> MessageInfo {
    MessageInfo { sender: name.to_string() }
}

fn at(time_nanos: u64) -> Env {
    Env { time_nanos }
}

fn pair(key: &str, value: &str) -> Attribute {
    Attribute { key: key.to_string(), value: value.to_string() }
}

fn fresh(owner: &str) -> State {
    let (state, _) =
        instantiate(at(0), sender("anyone"), InstantiateMsg { owner: owner.to_string() }).unwrap();
    state
}

fn words(list: &[&str]) -> Vec<String> {
    list.iter().map(|s| s.to_string()).collect()
}

fn jobs_of(state: &State) -> Vec<(String, Job)> {
    (0..state.jobs.len())
        .map(|i| (state.jobs.entry(i).key.clone(), state.jobs.entry(i).value.clone()))
        .collect()
}

fn registered(response: &Response) -> String {
    assert_eq!(response.attributes.len(), 2);
    assert_eq!(response.attributes[0], pair("action", "register_new_job"));
    assert_eq!(response.attributes[1].key, "job_id");
    assert!(response.messages.is_empty());
    response.attributes[1].value.clone()
}

#[test]
fn instantiate_makes_an_empty_engine() {
    let (state, response) =
        instantiate(at(5), sender("creator"), InstantiateMsg { owner: "owner".to_string() })
            .unwrap();
    assert_eq!(state.config, Config { owner: "owner".to_string(), channel: String::new() });
    assert_eq!(state.job_count, 0);
    assert_eq!(state.jobs.len(), 0);
    assert_eq!(state.prices.len(), 0);
    assert_eq!(
        response,
        Response { attributes: vec![pair("method", "instantiate")], messages: vec![] }
    );
}

#[test]
fn owner_sets_the_channel() {
    let mut state = fresh("owner");
    let response = try_set_channel(&mut state, sender("owner"), "channel-7".to_string());
    assert_eq!(
        response,
        Ok(Response {
            attributes: vec![pair("action", "set_channel"), pair("channel", "channel-7")],
            messages: vec![],
        })
    );
    assert_eq!(state.config, Config { owner: "owner".to_string(), channel: "channel-7".to_string() });
    assert_eq!(state.job_count, 0);
    try_set_channel(&mut state, sender("owner"), "channel-8".to_string()).unwrap();
    assert_eq!(state.config.channel, "channel-8");
}

#[test]
fn stranger_cannot_set_the_channel() {
    let mut state = fresh("owner");
    try_set_channel(&mut state, sender("owner"), "channel-7".to_string()).unwrap();
    assert_eq!(
        try_set_channel(&mut state, sender("stranger"), "channel-9".to_string()),
        Err(ContractError::Unauthorized {})
    );
    assert_eq!(state.config, Config { owner: "owner".to_string(), channel: "channel-7".to_string() });
}

#[test]
fn register_luna_gets_the_first_id_and_canonical_calldata() {
    let mut state = fresh("owner");
    let response =
        try_register_job(&mut state, sender("owner"), 37, words(&["LUNA"]), 1000000, 16, 10)
            .unwrap();
    assert_eq!(registered(&response), "tvl-1");
    assert_eq!(state.job_count, 1);
    let canonical =
        PriceDataInput { symbol: words(&["LUNA"]), multiplier: 1000000 }.encode_obi().unwrap();
    assert_eq!(
        canonical,
        vec![0, 0, 0, 1, 0, 0, 0, 4, 76, 85, 78, 65, 0, 0, 0, 0, 0, 15, 66, 64]
    );
    assert_eq!(
        jobs_of(&state),
        vec![(
            "tvl-1".to_string(),
            Job {
                oracle_script_id: 37,
                symbols: words(&["LUNA"]),
                multiplier: 1000000,
                calldata: canonical,
                ask_count: 16,
                min_count: 10,
            }
        )]
    );
    assert_eq!(state.prices.len(), 0);
    assert_eq!(state.config, Config { owner: "owner".to_string(), channel: String::new() });
}

#[test]
fn job_ids_count_up_without_gaps_or_repeats() {
    assert_eq!(JOB_ID_PREFIX, "tvl");
    let mut state = fresh("owner");
    let mut ids = Vec::new();
    for n in 1..=25u64 {
        if n % 3 == 0 {
            let before = jobs_of(&state);
            assert_eq!(
                try_register_job(&mut state, sender("stranger"), n, words(&["BTC"]), 10, 4, 3),
                Err(ContractError::Unauthorized {})
            );
            assert_eq!(jobs_of(&state), before);
            assert_eq!(state.job_count, ids.len() as u64);
        }
        let response =
            try_register_job(&mut state, sender("owner"), n, words(&["BTC", "ETH"]), n, 4, 3)
                .unwrap();
        ids.push(registered(&response));
        assert_eq!(state.job_count, n);
    }
    let expected: Vec<String> = (1..=25).map(|n| format!("tvl-{}", n)).collect();
    assert_eq!(ids, expected);
    assert_eq!(state.jobs.len(), 25);
    for (n, id) in expected.iter().enumerate() {
        assert_eq!(state.jobs.get(id).unwrap().oracle_script_id, n as u64 + 1);
        assert_eq!(state.jobs.get(id).unwrap().multiplier, n as u64 + 1);
    }
}

#[test]
fn register_continues_from_the_counter() {
    let mut state = fresh("owner");
    state.job_count = 998;
    let first =
        try_register_job(&mut state, sender("owner"), 1, words(&["A"]), 1, 1, 1).unwrap();
    let second =
        try_register_job(&mut state, sender("owner"), 1, words(&["B"]), 1, 1, 1).unwrap();
    assert_eq!(registered(&first), "tvl-999");
    assert_eq!(registered(&second), "tvl-1000");
    state.job_count = u64::MAX - 1;
    let last = try_register_job(&mut state, sender("owner"), 1, words(&[]), 0, 0, 0).unwrap();
    assert_eq!(registered(&last), "tvl-18446744073709551615");
    assert_eq!(state.job_count, u64::MAX);
    assert_eq!(
        state.jobs.get("tvl-18446744073709551615").unwrap().calldata,
        vec![0, 0, 0, 0, 0, 0, 0, 0, 0, 0, 0, 0]
    );
}

#[test]
fn send_needs_a_channel_and_a_job() {
    let mut state = fresh("owner");
    try_register_job(&mut state, sender("owner"), 37, words(&["LUNA"]), 1000000, 16, 10).unwrap();
    assert_eq!(
        try_update_job_data(&state, at(1), "tvl-1".to_string()),
        Err(ContractError::ChannelNotSet {})
    );
    assert_eq!(
        try_update_job_data(&state, at(1), "tvl-2".to_string()),
        Err(ContractError::ChannelNotSet {})
    );
    try_set_channel(&mut state, sender("owner"), "channel-7".to_string()).unwrap();
    assert_eq!(
        try_update_job_data(&state, at(1), "tvl-2".to_string()),
        Err(ContractError::JobNotFound {})
    );
    assert_eq!(
        try_update_job_data(&state, at(1), "tvl-".to_string()),
        Err(ContractError::JobNotFound {})
    );
}

#[test]
fn send_builds_the_request_packet() {
    let mut state = fresh("owner");
    try_register_job(&mut state, sender("owner"), 37, words(&["LUNA"]), 1000000, 16, 10).unwrap();
    try_set_channel(&mut state, sender("owner"), "channel-7".to_string()).unwrap();
    let now = 1_649_338_200_123_456_789u64;
    let response = try_update_job_data(&state, at(now), "tvl-1".to_string()).unwrap();
    let fee_limit: Vec<Coin> = cosmwasm_std::coins(1000000u128, "uband")
        .into_iter()
        .map(|c| Coin { denom: c.denom, amount: c.amount.u128() })
        .collect();
    assert_eq!(fee_limit, vec![Coin { denom: "uband".to_string(), amount: 1000000 }]);
    assert_eq!(
        response,
        Response {
            attributes: vec![
                pair("action", "update_data"),
                pair("channel", "channel-7"),
                pair("job_id", "tvl-1"),
            ],
            messages: vec![IbcMsg::SendPacket {
                channel_id: "channel-7".to_string(),
                data: OracleRequestPacket {
                    client_id: "tvl-1".to_string(),
                    oracle_script_id: 37,
                    calldata: vec![
                        0, 0, 0, 1, 0, 0, 0, 4, 76, 85, 78, 65, 0, 0, 0, 0, 0, 15, 66, 64
                    ],
                    ask_count: 16,
                    min_count: 10,
                    fee_limit,
                    prepare_gas: 100000,
                    execute_gas: 4000000,
                },
                timeout: 1_649_338_500_123_456_789,
            }],
        }
    );
    assert_eq!(
        cosmwasm_std::Timestamp::from_nanos(now).plus_seconds(300).nanos(),
        1_649_338_500_123_456_789
    );
    // sending again replays the same calldata
    let again = try_update_job_data(&state, at(now), "tvl-1".to_string()).unwrap();
    assert_eq!(again, response);
}

#[test]
fn send_times_out_after_three_hundred_seconds() {
    let mut state = fresh("owner");
    try_register_job(&mut state, sender("owner"), 1, words(&["A"]), 1, 1, 1).unwrap();
    try_set_channel(&mut state, sender("owner"), "c".to_string()).unwrap();
    for now in [0u64, 1, 999_999_999, u64::MAX - 300_000_000_000] {
        let response = try_update_job_data(&state, at(now), "tvl-1".to_string()).unwrap();
        match &response.messages[0] {
            IbcMsg::SendPacket { timeout, .. } => assert_eq!(*timeout, now + 300_000_000_000),
        }
    }
}

#[test]
fn execute_dispatches_commands() {
    let mut state = fresh("owner");
    let response = execute(
        &mut state,
        at(0),
        sender("owner"),
        ExecuteMsg::SetChannel { channel: "channel-7".to_string() },
    );
    assert_eq!(
        response,
        Ok(Response {
            attributes: vec![pair("action", "set_channel"), pair("channel", "channel-7")],
            messages: vec![],
        })
    );
    let response = execute(
        &mut state,
        at(0),
        sender("owner"),
        ExecuteMsg::RegisterJob {
            oracle_script_id: 37,
            symbols: words(&["LUNA"]),
            multiplier: 1000000,
            ask_count: 16,
            min_count: 10,
        },
    )
    .unwrap();
    assert_eq!(registered(&response), "tvl-1");
    let response = execute(
        &mut state,
        at(7),
        sender("anyone"),
        ExecuteMsg::UpdateJobData { job_id: "tvl-1".to_string() },
    )
    .unwrap();
    assert_eq!(response, try_update_job_data(&state, at(7), "tvl-1".to_string()).unwrap());
    assert_eq!(
        execute(
            &mut state,
            at(0),
            sender("anyone"),
            ExecuteMsg::SetChannel { channel: "channel-9".to_string() },
        ),
        Err(ContractError::Unauthorized {})
    );
    assert_eq!(
        execute(
            &mut state,
            at(0),
            sender("anyone"),
            ExecuteMsg::RegisterJob {
                oracle_script_id: 37,
                symbols: words(&["LUNA"]),
                multiplier: 1000000,
                ask_count: 16,
                min_count: 10,
            },
        ),
        Err(ContractError::Unauthorized {})
    );
    assert_eq!(
        execute(
            &mut state,
            at(0),
            sender("owner"),
            ExecuteMsg::UpdateJobData { job_id: "tvl-2".to_string() },
        ),
        Err(ContractError::JobNotFound {})
    );
    assert_eq!(state.job_count, 1);
    assert_eq!(state.config.channel, "channel-7");
}

#[test]
fn queries_project_the_state() {
    let mut state = fresh("owner");
    try_set_channel(&mut state, sender("owner"), "channel-7".to_string()).unwrap();
    try_register_job(&mut state, sender("owner"), 37, words(&["LUNA"]), 1000000, 16, 10).unwrap();
    let price = PriceData {
        rate: Decimal { atomics: 31_000_000_000_000_000_000 },
        bandchain_request_id: 5,
        bandchain_resolve_time: 6,
    };
    state.prices.insert("LUNA".to_string(), price);
    let config = ConfigResponse { owner: "owner".to_string(), channel: "channel-7".to_string() };
    let job = state.jobs.get("tvl-1").unwrap().clone();
    assert_eq!(job.symbols, words(&["LUNA"]));
    assert_eq!(query_config(&state), Ok(ConfigResponse { owner: "owner".to_string(), channel: "channel-7".to_string() }));
    assert_eq!(query_job(&state, "tvl-1".to_string()), Ok(job.clone()));
    assert_eq!(query_price(&state, "LUNA".to_string()), Ok(price));
    assert_eq!(query(&state, QueryMsg::Config {}), Ok(QueryResponse::Config(config)));
    assert_eq!(
        query(&state, QueryMsg::Job { job_id: "tvl-1".to_string() }),
        Ok(QueryResponse::Job(job))
    );
    assert_eq!(
        query(&state, QueryMsg::Price { symbol: "LUNA".to_string() }),
        Ok(QueryResponse::Price(price))
    );
}

#[test]
fn queries_for_what_is_not_there() {
    let state = fresh("owner");
    let no_job = StdError::NotFound { kind: "band_ibc::state::Job".to_string() };
    let no_price = StdError::NotFound { kind: "band_ibc::state::PriceData".to_string() };
    assert_eq!(query_job(&state, "tvl-1".to_string()), Err(no_job));
    assert_eq!(query_price(&state, "LUNA".to_string()), Err(no_price));
    assert_eq!(
        query(&state, QueryMsg::Job { job_id: "tvl-1".to_string() }),
        Err(StdError::NotFound { kind: "band_ibc::state::Job".to_string() })
    );
    assert_eq!(
        query(&state, QueryMsg::Price { symbol: "".to_string() }),
        Err(StdError::NotFound { kind: "band_ibc::state::PriceData".to_string() })
    );
    assert_eq!(
        query_job(&state, "x".to_string()).unwrap_err().to_string(),
        "band_ibc::state::Job not found"
    );
}

#[test]
fn migrate_does_nothing() {
    assert_eq!(
        migrate(at(0), MigrateMsg {}),
        Ok(Response { attributes: vec![], messages: vec![] })
    );
}
