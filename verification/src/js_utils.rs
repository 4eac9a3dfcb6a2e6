//! Messages as they cross the channel: the record that stands for a
//! message, the envelopes that carry records, and the reading of a record
//! that arrived.

use crate::types::{share, Message, MessageView};
use std::rc::Rc;
use vstd::prelude::*;

verus! {

/// What one slot of a record taken from the channel holds. A number stands
/// as an unsigned integer: identifiers and millisecond timestamps are whole.
pub enum WireValue {
    Undefined,
    Null,
    Number(u64),
    Text(String),
    Other,
}

/// A record as it arrives from the channel, before anything is known of it
/// but the payload, which may be anything.
pub struct RawMessage<P> {
    pub id: WireValue,
    pub topic: WireValue,
    pub payload: P,
    pub timestamp: WireValue,
    pub origin_id: WireValue,
}

/// A message as it is handed to the channel. The record to send has the
/// message's id, payload, timestamp and origin, and the topic's name in
/// place of its handle, which means nothing to another instance.
pub struct WireMessage<P> {
    pub topic: String,
    pub message: Rc<Message<P>>,
}

impl<P> View for WireMessage<P> {
    type V = (Seq<char>, MessageView<P>);

    /// The topic's name and what the message says.
    open spec fn view(&self) -> (Seq<char>, MessageView<P>) {
        (self.topic@, self.message@)
    }
}

/// The fields of a record that are checked on arrival.
#[derive(Clone, Copy, Debug, PartialEq, Eq, Structural)]
pub enum Field {
    Id,
    Topic,
    Timestamp,
    OriginId,
}

/// Why a record from the channel is not a message.
#[derive(Clone, Copy, Debug, PartialEq, Eq, Structural)]
pub enum ParseError {
    /// The field is undefined or null.
    Missing(Field),
    /// The field holds a value of the wrong kind.
    Invalid(Field),
}

/// The three shapes of traffic on the channel.
#[derive(Clone, Copy, Debug, PartialEq, Eq, Structural)]
pub enum EnvelopeKind {
    Publish,
    SyncRequest,
    SyncResponse,
}

/// One unit of traffic on the channel, over messages of the form `M`.
pub enum Envelope<M> {
    /// A message that some instance published.
    Publish(M),
    /// An instance with the given identifier joined and asks for the backlog.
    SyncRequest(String),
    /// The backlog of one instance, oldest first within each topic.
    SyncResponse(Vec<M>),
}

/// What a well-formed record says.
pub struct Parsed<P> {
    pub id: u64,
    pub topic: Seq<char>,
    pub payload: P,
    pub timestamp: u64,
    pub origin_id: Seq<char>,
}

/// What `str::parse::<u64>` makes of a text.
pub uninterp spec fn parsed_u64(text: Seq<char>) -> Option<u64>;

/// `str::parse::<u64>`, with its error dropped. The result depends on the
/// text alone.
#[verifier::external_body]
fn parse_u64(text: &str) -> (out: Option<u64>)
    ensures
        out == parsed_u64(text@),
{
    text.parse::<u64>().ok()
}

/// The identifier that a textual id stands for: what it parses to, and 0
/// where it is no number.
pub open spec fn id_from(parsed: Option<u64>) -> u64 {
    match parsed {
        Some(n) => n,
        None => 0,
    }
}

/// The identifier in the slot `v`.
pub open spec fn id_field(v: WireValue) -> Result<u64, ParseError> {
    match v {
        WireValue::Undefined => Err(ParseError::Missing(Field::Id)),
        WireValue::Null => Err(ParseError::Missing(Field::Id)),
        WireValue::Number(n) => Ok(n),
        WireValue::Text(s) => Ok(id_from(parsed_u64(s@))),
        WireValue::Other => Err(ParseError::Invalid(Field::Id)),
    }
}

/// The text in the slot `v` of the field `field`.
pub open spec fn text_field(v: WireValue, field: Field) -> Result<Seq<char>, ParseError> {
    match v {
        WireValue::Undefined => Err(ParseError::Missing(field)),
        WireValue::Null => Err(ParseError::Missing(field)),
        WireValue::Text(s) => Ok(s@),
        _ => Err(ParseError::Invalid(field)),
    }
}

/// The number in the slot `v` of the field `field`.
pub open spec fn number_field(v: WireValue, field: Field) -> Result<u64, ParseError> {
    match v {
        WireValue::Undefined => Err(ParseError::Missing(field)),
        WireValue::Null => Err(ParseError::Missing(field)),
        WireValue::Number(n) => Ok(n),
        _ => Err(ParseError::Invalid(field)),
    }
}

/// What a record says, or the first thing wrong with it, the fields taken
/// in the order id, topic, timestamp, origin.
pub open spec fn parsed<P>(raw: RawMessage<P>) -> Result<Parsed<P>, ParseError> {
    match id_field(raw.id) {
        Err(e) => Err(e),
        Ok(id) => match text_field(raw.topic, Field::Topic) {
            Err(e) => Err(e),
            Ok(topic) => match number_field(raw.timestamp, Field::Timestamp) {
                Err(e) => Err(e),
                Ok(timestamp) => match text_field(raw.origin_id, Field::OriginId) {
                    Err(e) => Err(e),
                    Ok(origin_id) => Ok(
                        Parsed { id, topic, payload: raw.payload, timestamp, origin_id },
                    ),
                },
            },
        },
    }
}

impl<P> Parsed<P> {
    /// The message that the record stands for, once its topic's name is
    /// resolved to `topic_id`.
    pub open spec fn message(self, topic_id: u32) -> MessageView<P> {
        MessageView {
            id: self.id,
            topic_id,
            payload: self.payload,
            timestamp: self.timestamp,
            origin_id: self.origin_id,
        }
    }
}

impl Field {
    /// The field's name on the wire.
    pub open spec fn spec_name(self) -> Seq<char> {
        match self {
            Field::Id => "id"@,
            Field::Topic => "topic"@,
            Field::Timestamp => "timestamp"@,
            Field::OriginId => "origin_id"@,
        }
    }

    /// The field's name on the wire.
    pub fn name(&self) -> (out: &'static str)
        ensures
            out@ == self.spec_name(),
    {
        match self {
            Field::Id => "id",
            Field::Topic => "topic",
            Field::Timestamp => "timestamp",
            Field::OriginId => "origin_id",
        }
    }
}

impl ParseError {
    /// The error in words.
    pub open spec fn spec_message(self) -> Seq<char> {
        match self {
            ParseError::Missing(f) => "Missing field: "@ + f.spec_name(),
            ParseError::Invalid(f) => "Invalid "@ + f.spec_name() + " type"@,
        }
    }

    /// The error in words, such as "Missing field: id" or "Invalid id type".
    pub fn message(&self) -> (out: String)
        ensures
            out@ == self.spec_message(),
    {
        match self {
            ParseError::Missing(f) => {
                let mut out = "Missing field: ".to_owned();
                out.append(f.name());
                out
            },
            ParseError::Invalid(f) => {
                let mut out = "Invalid ".to_owned();
                out.append(f.name());
                out.append(" type");
                out
            },
        }
    }
}

impl EnvelopeKind {
    /// The number that announces the kind on the wire.
    pub open spec fn spec_tag(self) -> u8 {
        match self {
            EnvelopeKind::Publish => 0,
            EnvelopeKind::SyncRequest => 1,
            EnvelopeKind::SyncResponse => 2,
        }
    }

    /// The kind that `tag` announces, if it announces one.
    pub open spec fn spec_from_tag(tag: u8) -> Option<EnvelopeKind> {
        if tag == 0 {
            Some(EnvelopeKind::Publish)
        } else if tag == 1 {
            Some(EnvelopeKind::SyncRequest)
        } else if tag == 2 {
            Some(EnvelopeKind::SyncResponse)
        } else {
            None
        }
    }

    /// The number that announces the kind on the wire.
    pub fn tag(&self) -> (out: u8)
        ensures
            out == self.spec_tag(),
            Self::spec_from_tag(out) == Some(*self),
    {
        match self {
            EnvelopeKind::Publish => 0,
            EnvelopeKind::SyncRequest => 1,
            EnvelopeKind::SyncResponse => 2,
        }
    }

    /// The kind that `tag` announces. Traffic with any other tag is not
    /// recognized and is to be dropped.
    pub fn from_tag(tag: u8) -> (out: Option<EnvelopeKind>)
        ensures
            out == Self::spec_from_tag(tag),
            out matches Some(kind) ==> kind.spec_tag() == tag,
    {
        if tag == 0 {
            Some(EnvelopeKind::Publish)
        } else if tag == 1 {
            Some(EnvelopeKind::SyncRequest)
        } else if tag == 2 {
            Some(EnvelopeKind::SyncResponse)
        } else {
            None
        }
    }
}

impl<M> Envelope<M> {
    /// The kind of the envelope.
    pub fn kind(&self) -> (out: EnvelopeKind)
        ensures
            out == match *self {
                Envelope::Publish(_) => EnvelopeKind::Publish,
                Envelope::SyncRequest(_) => EnvelopeKind::SyncRequest,
                Envelope::SyncResponse(_) => EnvelopeKind::SyncResponse,
            },
    {
        match self {
            Envelope::Publish(_) => EnvelopeKind::Publish,
            Envelope::SyncRequest(_) => EnvelopeKind::SyncRequest,
            Envelope::SyncResponse(_) => EnvelopeKind::SyncResponse,
        }
    }
}

/// The identifier that a textual id stands for, given what the text
/// parses to: the number, and 0 where it is none.
pub fn id_from_text(parsed: Option<u64>) -> (id: u64)
    ensures
        id == id_from(parsed),
{
    match parsed {
        Some(n) => n,
        None => 0,
    }
}

/// Pair a message with the name of its topic, for the channel.
pub fn message_to_js<P>(msg: &Rc<Message<P>>, topic_name: &str) -> (out: WireMessage<P>)
    ensures
        out.topic@ == topic_name@,
        out.message == *msg,
{
    WireMessage { topic: topic_name.to_owned(), message: share(msg) }
}

/// Turn a record from the channel into a message and the name of its topic.
///
/// The message's topic handle is 0, a placeholder: the caller resolves the
/// name. An id may be a number or a text; a text that is no number counts
/// as 0. Fields are checked in the order id, topic, timestamp, origin, and
/// the first one that is missing or of the wrong kind is the error.
pub fn parse_js_message<P>(raw: RawMessage<P>) -> (out: Result<(Message<P>, String), ParseError>)
    ensures
        match parsed(raw) {
            Ok(p) => out matches Ok((message, name)) && message@ == p.message(0) && name@
                == p.topic,
            Err(e) => out == Err::<(Message<P>, String), ParseError>(e),
        },
{
    let id = match &raw.id {
        WireValue::Undefined => { return Err(ParseError::Missing(Field::Id)); },
        WireValue::Null => { return Err(ParseError::Missing(Field::Id)); },
        WireValue::Number(n) => *n,
        WireValue::Text(s) => id_from_text(parse_u64(s.as_str())),
        WireValue::Other => { return Err(ParseError::Invalid(Field::Id)); },
    };
    let topic_name = match raw.topic {
        WireValue::Undefined => { return Err(ParseError::Missing(Field::Topic)); },
        WireValue::Null => { return Err(ParseError::Missing(Field::Topic)); },
        WireValue::Text(s) => s,
        _ => { return Err(ParseError::Invalid(Field::Topic)); },
    };
    let timestamp = match raw.timestamp {
        WireValue::Undefined => { return Err(ParseError::Missing(Field::Timestamp)); },
        WireValue::Null => { return Err(ParseError::Missing(Field::Timestamp)); },
        WireValue::Number(n) => n,
        _ => { return Err(ParseError::Invalid(Field::Timestamp)); },
    };
    let origin_id = match raw.origin_id {
        WireValue::Undefined => { return Err(ParseError::Missing(Field::OriginId)); },
        WireValue::Null => { return Err(ParseError::Missing(Field::OriginId)); },
        WireValue::Text(s) => s,
        _ => { return Err(ParseError::Invalid(Field::OriginId)); },
    };
    Ok(
        (
            Message { id, topic_id: 0, payload: raw.payload, timestamp, origin_id: Rc::new(origin_id) },
            topic_name,
        ),
    )
}

} // verus!
