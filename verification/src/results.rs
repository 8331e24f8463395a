//! What the engine hands back to its host: attributes for observers,
//! outbound packets and acknowledgements.

use crate::ibc::{Ack, AckView};
use crate::msg::{OracleRequestPacket, OracleRequestPacketView};
use vstd::prelude::*;
use vstd::string::*;

verus! {

/// A key and a value for observers of the engine.
#[derive(Debug, PartialEq, Eq)]
pub struct Attribute {
    pub key: String,
    pub value: String,
}

/// The keys and values of the attributes of `v`.
pub open spec fn attributes_view(v: Seq<Attribute>) -> Seq<(Seq<char>, Seq<char>)> {
    Seq::new(v.len(), |i: int| (v[i].key@, v[i].value@))
}

/// The attribute with the given key and value.
pub fn attr(key: &str, value: &str) -> (attribute: Attribute)
    ensures
        attribute.key@ == key@,
        attribute.value@ == value@,
{
    Attribute { key: String::from_str(key), value: String::from_str(value) }
}

/// The list of the two attributes given.
pub fn attr_pair(first: Attribute, second: Attribute) -> (attributes: Vec<Attribute>)
    ensures
        attributes_view(attributes@) == seq![
            (first.key@, first.value@),
            (second.key@, second.value@),
        ],
{
    let mut attributes: Vec<Attribute> = Vec::new();
    attributes.push(first);
    attributes.push(second);
    assert(attributes_view(attributes@) =~= seq![
        (first.key@, first.value@),
        (second.key@, second.value@),
    ]);
    attributes
}

/// A packet for the channel transport, with the time after which it counts
/// as not delivered, in nanoseconds.
#[derive(Debug, PartialEq, Eq)]
pub enum IbcMsg {
    SendPacket { channel_id: String, data: OracleRequestPacket, timeout: u64 },
}

/// The mathematical value of an [`IbcMsg`].
pub enum IbcMsgView {
    SendPacket { channel_id: Seq<char>, data: OracleRequestPacketView, timeout: u64 },
}

impl View for IbcMsg {
    type V = IbcMsgView;

    open spec fn view(&self) -> IbcMsgView {
        match self {
            IbcMsg::SendPacket { channel_id, data, timeout } => IbcMsgView::SendPacket {
                channel_id: channel_id@,
                data: data@,
                timeout: *timeout,
            },
        }
    }
}

/// The value of each message of `v`.
pub open spec fn messages_view(v: Seq<IbcMsg>) -> Seq<IbcMsgView> {
    Seq::new(v.len(), |i: int| v[i]@)
}

/// The outcome of a command: attributes and the packets to send.
#[derive(Debug, PartialEq, Eq)]
pub struct Response {
    pub attributes: Vec<Attribute>,
    pub messages: Vec<IbcMsg>,
}

/// The mathematical value of a [`Response`].
pub struct ResponseView {
    pub attributes: Seq<(Seq<char>, Seq<char>)>,
    pub messages: Seq<IbcMsgView>,
}

impl View for Response {
    type V = ResponseView;

    open spec fn view(&self) -> ResponseView {
        ResponseView {
            attributes: attributes_view(self.attributes@),
            messages: messages_view(self.messages@),
        }
    }
}

impl Response {
    /// The response without attributes and messages.
    pub fn new() -> (response: Self)
        ensures
            response@ == (ResponseView { attributes: Seq::empty(), messages: Seq::empty() }),
    {
        let response = Response { attributes: Vec::new(), messages: Vec::new() };
        assert(response@.attributes =~= Seq::empty());
        assert(response@.messages =~= Seq::empty());
        response
    }
}

/// The outcome of a step in the life of the channel: attributes only.
#[derive(Debug, PartialEq, Eq)]
pub struct IbcBasicResponse {
    pub attributes: Vec<Attribute>,
}

impl View for IbcBasicResponse {
    type V = Seq<(Seq<char>, Seq<char>)>;

    open spec fn view(&self) -> Seq<(Seq<char>, Seq<char>)> {
        attributes_view(self.attributes@)
    }
}

/// The outcome of an inbound packet: attributes and the acknowledgement.
#[derive(Debug, PartialEq, Eq)]
pub struct IbcReceiveResponse {
    pub attributes: Vec<Attribute>,
    pub acknowledgement: Ack,
}

/// The mathematical value of an [`IbcReceiveResponse`].
pub struct IbcReceiveResponseView {
    pub attributes: Seq<(Seq<char>, Seq<char>)>,
    pub acknowledgement: AckView,
}

impl View for IbcReceiveResponse {
    type V = IbcReceiveResponseView;

    open spec fn view(&self) -> IbcReceiveResponseView {
        IbcReceiveResponseView {
            attributes: attributes_view(self.attributes@),
            acknowledgement: self.acknowledgement@,
        }
    }
}

} // verus!
