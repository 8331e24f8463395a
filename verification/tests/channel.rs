use band_ibc::error::ContractError;
use band_ibc::ibc::{
    ibc_channel_close, ibc_channel_connect, ibc_channel_open, ibc_packet_ack, ibc_packet_timeout,
    fail_packet_receive, make_ack_fail, make_ack_success, validate_order_and_version, Ack,
    IbcChannel, IbcOrder, IBC_VERSION,
};
use band_ibc::results::{Attribute, IbcBasicResponse, IbcReceiveResponse};

fn channel_with(order: IbcOrder, version: &str) -> IbcChannel {
    IbcChannel { channel_id: "channel-7".to_string(), order, version: version.to_string() }
}

fn attribute(key: &str, value: &str) -> Attribute {
    Attribute { key: key.to_string(), value: value.to_string() }
}

fn wrong_version(actual: &str) -> ContractError {
    ContractError::InvalidVersion {
        actual: actual.to_string(),
        expected: "bandchain-1".to_string(),
    }
}

#[test]
fn protocol_version() {
    assert_eq!(IBC_VERSION, "bandchain-1");
}

#[test]
fn handshake_accepts_unordered_channel_of_the_protocol_version() {
    let channel = channel_with(IbcOrder::Unordered, "bandchain-1");
    assert_eq!(validate_order_and_version(&channel, None), Ok(()));
    assert_eq!(validate_order_and_version(&channel, Some("bandchain-1")), Ok(()));
    assert_eq!(ibc_channel_open(&channel, None), Ok(()));
    assert_eq!(ibc_channel_open(&channel, Some("bandchain-1")), Ok(()));
}

#[test]
fn handshake_rejects_ordered_channel() {
    let channel = channel_with(IbcOrder::Ordered, "bandchain-1");
    assert_eq!(
        validate_order_and_version(&channel, Some("bandchain-1")),
        Err(ContractError::OrderedChannel {})
    );
    let channel = channel_with(IbcOrder::Ordered, "other");
    assert_eq!(
        validate_order_and_version(&channel, Some("another")),
        Err(ContractError::OrderedChannel {})
    );
    assert_eq!(ibc_channel_open(&channel, None), Err(ContractError::OrderedChannel {}));
    assert_eq!(ibc_channel_connect(&channel, None), Err(ContractError::OrderedChannel {}));
}

#[test]
fn handshake_rejects_another_local_version() {
    let channel = channel_with(IbcOrder::Unordered, "bandchain-2");
    assert_eq!(validate_order_and_version(&channel, None), Err(wrong_version("bandchain-2")));
    assert_eq!(
        validate_order_and_version(&channel, Some("bandchain-3")),
        Err(wrong_version("bandchain-2"))
    );
    let channel = channel_with(IbcOrder::Unordered, "");
    assert_eq!(ibc_channel_open(&channel, Some("bandchain-1")), Err(wrong_version("")));
}

#[test]
fn handshake_rejects_another_counterparty_version() {
    let channel = channel_with(IbcOrder::Unordered, "bandchain-1");
    assert_eq!(
        validate_order_and_version(&channel, Some("ics20-1")),
        Err(wrong_version("ics20-1"))
    );
    assert_eq!(ibc_channel_connect(&channel, Some("bandchain-10")), Err(wrong_version("bandchain-10")));
}

#[test]
fn handshake_validation_gives_the_same_verdict_twice() {
    let cases = [
        (channel_with(IbcOrder::Unordered, "bandchain-1"), Some("bandchain-1")),
        (channel_with(IbcOrder::Unordered, "bandchain-1"), None),
        (channel_with(IbcOrder::Ordered, "bandchain-1"), Some("bandchain-1")),
        (channel_with(IbcOrder::Unordered, "x"), Some("bandchain-1")),
        (channel_with(IbcOrder::Unordered, "bandchain-1"), Some("y")),
    ];
    for (channel, counterparty) in cases.iter() {
        let first = validate_order_and_version(channel, *counterparty);
        let second = validate_order_and_version(channel, *counterparty);
        assert_eq!(first, second);
        assert_eq!(ibc_channel_open(channel, *counterparty), first);
    }
}

#[test]
fn connect_records_the_channel() {
    let channel = channel_with(IbcOrder::Unordered, "bandchain-1");
    assert_eq!(
        ibc_channel_connect(&channel, Some("bandchain-1")),
        Ok(IbcBasicResponse {
            attributes: vec![
                attribute("method", "ibc_channel_connect"),
                attribute("channel_id", "channel-7"),
            ],
        })
    );
}

#[test]
fn close_records_the_channel() {
    let channel = channel_with(IbcOrder::Ordered, "whatever");
    assert_eq!(
        ibc_channel_close(&channel),
        Ok(IbcBasicResponse {
            attributes: vec![
                attribute("method", "ibc_channel_close"),
                attribute("channel", "channel-7"),
            ],
        })
    );
}

#[test]
fn ack_and_timeout_record_their_method() {
    assert_eq!(
        ibc_packet_ack(),
        Ok(IbcBasicResponse { attributes: vec![attribute("method", "ibc_packet_ack")] })
    );
    assert_eq!(
        ibc_packet_timeout(),
        Ok(IbcBasicResponse { attributes: vec![attribute("method", "ibc_packet_timeout")] })
    );
}

#[test]
fn acknowledgements() {
    assert_eq!(make_ack_success(), Ack::Result(b"1".to_vec()));
    assert_eq!(make_ack_fail("no".to_string()), Ack::Error("no".to_string()));
    assert_eq!(make_ack_fail(String::new()), Ack::Error(String::new()));
}

#[test]
fn fail_packet_receive_is_a_successful_invocation() {
    assert_eq!(
        fail_packet_receive("Invalid client id"),
        Ok(IbcReceiveResponse {
            attributes: vec![
                attribute("method", "ibc_packet_receive"),
                attribute("error", "Invalid client id"),
            ],
            acknowledgement: Ack::Error("Invalid client id".to_string()),
        })
    );
}
