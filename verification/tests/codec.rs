use band_ibc::error::{ContractError, StdError};
use band_ibc::obi::{Base64Error, PriceDataInput, PriceDataOutput};

fn rates_bytes(rates: &[u64]) -> Vec<u8> {
    let mut bytes = (rates.len() as u32).to_be_bytes().to_vec();
    for rate in rates {
        bytes.extend_from_slice(&rate.to_be_bytes());
    }
    bytes
}

#[test]
fn decode_test() {
    let res = PriceDataOutput::decode_obi("AAAAAQAAAAAAHxie").unwrap();
    println!("{:?}", res);
    assert_eq!(res.rates, vec![2037918u64]);
}

#[test]
fn encode_test() {
    let data = PriceDataInput {
        symbol: vec!["LUNA".to_string()],
        multiplier: 1000000,
    };
    let res = data.encode_obi().unwrap();
    println!("{:?}", res);
    assert_eq!(
        res,
        vec![0, 0, 0, 1, 0, 0, 0, 4, b'L', b'U', b'N', b'A', 0, 0, 0, 0, 0, 0x0f, 0x42, 0x40]
    );
}

#[test]
fn encode_no_symbols() {
    let data = PriceDataInput { symbol: vec![], multiplier: u64::MAX };
    assert_eq!(
        data.encode_obi().unwrap(),
        vec![0, 0, 0, 0, 255, 255, 255, 255, 255, 255, 255, 255]
    );
}

#[test]
fn encode_several_symbols_with_wide_characters() {
    let data = PriceDataInput {
        symbol: vec!["BTC".to_string(), "".to_string(), "\u{20ac}UR".to_string()],
        multiplier: 0x0102030405060708,
    };
    let mut expected = vec![0, 0, 0, 3];
    expected.extend_from_slice(&[0, 0, 0, 3, b'B', b'T', b'C']);
    expected.extend_from_slice(&[0, 0, 0, 0]);
    expected.extend_from_slice(&[0, 0, 0, 5, 0xe2, 0x82, 0xac, b'U', b'R']);
    expected.extend_from_slice(&[1, 2, 3, 4, 5, 6, 7, 8]);
    assert_eq!(data.encode_obi().unwrap(), expected);
}

#[test]
fn decode_round_trip_through_base64() {
    let cases: Vec<Vec<u64>> = vec![
        vec![],
        vec![0],
        vec![31000000],
        vec![u64::MAX, 1, 0x0102030405060708, 255, 256],
        (0..200u64).map(|i| i * 0x0123456789abcdef % 0xffff_ffff_ffff).collect(),
    ];
    for rates in cases {
        let text = base64::encode(rates_bytes(&rates));
        let decoded = PriceDataOutput::decode_obi(&text).unwrap();
        assert_eq!(decoded, PriceDataOutput { rates });
    }
}

#[test]
fn try_from_slice_reads_rates() {
    assert_eq!(
        PriceDataOutput::try_from_slice(&[0, 0, 0, 2, 0, 0, 0, 0, 0, 0, 0, 7, 1, 0, 0, 0, 0, 0, 0, 0]),
        Ok(PriceDataOutput { rates: vec![7, 1 << 56] })
    );
    assert_eq!(PriceDataOutput::try_from_slice(&[0, 0, 0, 0]), Ok(PriceDataOutput { rates: vec![] }));
}

fn parse_err(msg: &str) -> StdError {
    StdError::ParseErr { target_type: "PriceDataOutput".to_string(), msg: msg.to_string() }
}

#[test]
fn try_from_slice_rejects_short_input() {
    assert_eq!(PriceDataOutput::try_from_slice(&[]), Err(parse_err("Unexpected length of input")));
    assert_eq!(
        PriceDataOutput::try_from_slice(&[0, 0, 1]),
        Err(parse_err("Unexpected length of input"))
    );
    assert_eq!(
        PriceDataOutput::try_from_slice(&[0, 0, 0, 1]),
        Err(parse_err("Unexpected length of input"))
    );
    assert_eq!(
        PriceDataOutput::try_from_slice(&[0, 0, 0, 2, 0, 0, 0, 0, 0, 0, 0, 7, 1, 2, 3]),
        Err(parse_err("Unexpected length of input"))
    );
    assert_eq!(
        PriceDataOutput::try_from_slice(&[255, 255, 255, 255, 0, 0, 0, 0, 0, 0, 0, 7]),
        Err(parse_err("Unexpected length of input"))
    );
}

#[test]
fn try_from_slice_rejects_trailing_bytes() {
    assert_eq!(
        PriceDataOutput::try_from_slice(&[0, 0, 0, 0, 9]),
        Err(parse_err("Not all bytes read"))
    );
    assert_eq!(
        PriceDataOutput::try_from_slice(&[0, 0, 0, 1, 0, 0, 0, 0, 0, 0, 0, 7, 0]),
        Err(parse_err("Not all bytes read"))
    );
}

#[test]
fn decode_obi_rejects_truncated_and_extended_payloads() {
    let mut bytes = rates_bytes(&[5, 6]);
    bytes.pop();
    assert_eq!(
        PriceDataOutput::decode_obi(&base64::encode(&bytes)),
        Err(parse_err("Unexpected length of input"))
    );
    let mut bytes = rates_bytes(&[5, 6]);
    bytes.push(0);
    assert_eq!(
        PriceDataOutput::decode_obi(&base64::encode(&bytes)),
        Err(parse_err("Not all bytes read"))
    );
}

#[test]
fn decode_obi_rejects_text_that_is_not_base64() {
    let cases = ["AAAA!QAA", "A", "AAAAA", "AB==", "not base64", "AAAA\n"];
    for text in cases {
        let expected = base64::decode(text).unwrap_err().to_string();
        assert_eq!(
            PriceDataOutput::decode_obi(text),
            Err(StdError::InvalidBase64 { msg: expected })
        );
    }
    assert_eq!(
        PriceDataOutput::decode_obi("AAAA!QAA"),
        Err(StdError::InvalidBase64 { msg: "Invalid byte 33, offset 4.".to_string() })
    );
}

#[test]
fn base64_error_messages() {
    assert_eq!(Base64Error::InvalidByte(12, 200).to_string(), "Invalid byte 200, offset 12.");
    assert_eq!(
        Base64Error::InvalidLength.to_string(),
        "Encoded text cannot have a 6-bit remainder."
    );
    assert_eq!(
        Base64Error::InvalidLastSymbol(0, 66).to_string(),
        "Invalid last symbol 66, offset 0."
    );
}

#[test]
fn std_error_messages() {
    assert_eq!(
        StdError::InvalidBase64 { msg: "bad".to_string() }.to_string(),
        "Invalid Base64 string: bad"
    );
    assert_eq!(StdError::NotFound { kind: "Job".to_string() }.to_string(), "Job not found");
    assert_eq!(StdError::GenericErr { msg: "why".to_string() }.to_string(), "Generic error: why");
    assert_eq!(parse_err("oops").to_string(), "Error parsing into type PriceDataOutput: oops");
}

#[test]
fn contract_error_messages() {
    assert_eq!(
        ContractError::Std(StdError::NotFound { kind: "Job".to_string() }).to_string(),
        "Job not found"
    );
    assert_eq!(ContractError::IOError("disk".to_string()).to_string(), "disk");
    assert_eq!(ContractError::Unsupported {}.to_string(), "Unsupported message");
    assert_eq!(ContractError::Unauthorized {}.to_string(), "Unauthorized");
    assert_eq!(ContractError::ChannelNotSet {}.to_string(), "Local Channel is not set");
    assert_eq!(ContractError::JobNotFound {}.to_string(), "Provided job id is not registered");
    assert_eq!(
        ContractError::OrderedChannel {}.to_string(),
        "Only unordered channels are supported."
    );
    assert_eq!(
        ContractError::InvalidVersion { actual: "a-1".to_string(), expected: "b-2".to_string() }
            .to_string(),
        "Invalid IBC channel version. Got (a-1), expected (b-2)."
    );
}

#[test]
fn decode_obi_names_the_last_symbol_that_loses_bits() {
    assert_eq!(
        PriceDataOutput::decode_obi("AB=="),
        Err(StdError::InvalidBase64 { msg: "Invalid last symbol 66, offset 1.".to_string() })
    );
    assert_eq!(
        PriceDataOutput::decode_obi("AAAAA"),
        Err(StdError::InvalidBase64 {
            msg: "Encoded text cannot have a 6-bit remainder.".to_string()
        })
    );
}
