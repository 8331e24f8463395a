//! The errors of the protocol engine and the messages they carry.

use vstd::prelude::*;
use vstd::string::*;

verus! {

/// A failure below the protocol logic: malformed or missing data.
#[derive(Debug, PartialEq, Eq)]
pub enum StdError {
    /// A failure that has only a message.
    GenericErr { msg: String },
    /// A text is not the base64 notation of any byte sequence.
    InvalidBase64 { msg: String },
    /// Nothing is stored under the key that was asked for.
    NotFound { kind: String },
    /// Bytes or text could not be read as a value of `target_type`.
    ParseErr { target_type: String, msg: String },
}

/// The mathematical value of a [`StdError`].
pub enum StdErrorView {
    GenericErr { msg: Seq<char> },
    InvalidBase64 { msg: Seq<char> },
    NotFound { kind: Seq<char> },
    ParseErr { target_type: Seq<char>, msg: Seq<char> },
}

impl StdErrorView {
    /// The message that the error shows to a reader.
    pub open spec fn message(self) -> Seq<char> {
        match self {
            StdErrorView::GenericErr { msg } => "Generic error: "@ + msg,
            StdErrorView::InvalidBase64 { msg } => "Invalid Base64 string: "@ + msg,
            StdErrorView::NotFound { kind } => kind + " not found"@,
            StdErrorView::ParseErr { target_type, msg } => "Error parsing into type "@
                + target_type + ": "@ + msg,
        }
    }
}

impl View for StdError {
    type V = StdErrorView;

    open spec fn view(&self) -> StdErrorView {
        match self {
            StdError::GenericErr { msg } => StdErrorView::GenericErr { msg: msg@ },
            StdError::InvalidBase64 { msg } => StdErrorView::InvalidBase64 { msg: msg@ },
            StdError::NotFound { kind } => StdErrorView::NotFound { kind: kind@ },
            StdError::ParseErr { target_type, msg } => StdErrorView::ParseErr {
                target_type: target_type@,
                msg: msg@,
            },
        }
    }
}

impl StdError {
    /// The message of this error.
    pub fn to_string(&self) -> (text: String)
        ensures
            text@ == self@.message(),
    {
        match self {
            StdError::GenericErr { msg } => String::from_str("Generic error: ").concat(
                msg.as_str(),
            ),
            StdError::InvalidBase64 { msg } => {
                String::from_str("Invalid Base64 string: ").concat(msg.as_str())
            },
            StdError::NotFound { kind } => kind.clone().concat(" not found"),
            StdError::ParseErr { target_type, msg } => {
                String::from_str("Error parsing into type ").concat(target_type.as_str()).concat(
                    ": ",
                ).concat(msg.as_str())
            },
        }
    }
}

/// Why an operation of the engine was refused.
#[derive(Debug, PartialEq, Eq)]
pub enum ContractError {
    /// A failure of the data layer.
    Std(StdError),
    /// A value could not be written in the binary interchange format.
    IOError(String),
    /// The message is not one the engine handles.
    Unsupported {},
    /// The sender is not the owner.
    Unauthorized {},
    /// No channel has been bound yet.
    ChannelNotSet {},
    /// No job is registered under the given id.
    JobNotFound {},
    /// The channel is not unordered.
    OrderedChannel {},
    /// A side of the handshake proposed another protocol version.
    InvalidVersion { actual: String, expected: String },
}

/// The mathematical value of a [`ContractError`].
pub enum ContractErrorView {
    Std(StdErrorView),
    IOError(Seq<char>),
    Unsupported,
    Unauthorized,
    ChannelNotSet,
    JobNotFound,
    OrderedChannel,
    InvalidVersion { actual: Seq<char>, expected: Seq<char> },
}

impl ContractErrorView {
    /// The message that the error shows to a reader.
    pub open spec fn message(self) -> Seq<char> {
        match self {
            ContractErrorView::Std(inner) => inner.message(),
            ContractErrorView::IOError(msg) => msg,
            ContractErrorView::Unsupported => "Unsupported message"@,
            ContractErrorView::Unauthorized => "Unauthorized"@,
            ContractErrorView::ChannelNotSet => "Local Channel is not set"@,
            ContractErrorView::JobNotFound => "Provided job id is not registered"@,
            ContractErrorView::OrderedChannel => "Only unordered channels are supported."@,
            ContractErrorView::InvalidVersion { actual, expected } =>
                "Invalid IBC channel version. Got ("@ + actual + "), expected ("@ + expected
                    + ")."@,
        }
    }
}

impl View for ContractError {
    type V = ContractErrorView;

    open spec fn view(&self) -> ContractErrorView {
        match self {
            ContractError::Std(inner) => ContractErrorView::Std(inner@),
            ContractError::IOError(msg) => ContractErrorView::IOError(msg@),
            ContractError::Unsupported {  } => ContractErrorView::Unsupported,
            ContractError::Unauthorized {  } => ContractErrorView::Unauthorized,
            ContractError::ChannelNotSet {  } => ContractErrorView::ChannelNotSet,
            ContractError::JobNotFound {  } => ContractErrorView::JobNotFound,
            ContractError::OrderedChannel {  } => ContractErrorView::OrderedChannel,
            ContractError::InvalidVersion { actual, expected } => ContractErrorView::InvalidVersion {
                actual: actual@,
                expected: expected@,
            },
        }
    }
}

impl ContractError {
    /// The message of this error.
    pub fn to_string(&self) -> (text: String)
        ensures
            text@ == self@.message(),
    {
        match self {
            ContractError::Std(inner) => inner.to_string(),
            ContractError::IOError(msg) => msg.clone(),
            ContractError::Unsupported {  } => String::from_str("Unsupported message"),
            ContractError::Unauthorized {  } => String::from_str("Unauthorized"),
            ContractError::ChannelNotSet {  } => String::from_str("Local Channel is not set"),
            ContractError::JobNotFound {  } => String::from_str(
                "Provided job id is not registered",
            ),
            ContractError::OrderedChannel {  } => String::from_str(
                "Only unordered channels are supported.",
            ),
            ContractError::InvalidVersion { actual, expected } => {
                String::from_str("Invalid IBC channel version. Got (").concat(
                    actual.as_str(),
                ).concat("), expected (").concat(expected.as_str()).concat(").")
            },
        }
    }
}

} // verus!
