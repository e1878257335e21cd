//! Messages exchanged with game clients.
//!
//! On the wire a message is a self-describing tagged record: the name of its
//! variant and, for all variants but `DeferMessage`, a point as payload.
use vstd::prelude::*;

verus! {

/// A player's position, tagged with the session that owns it.
///
/// The coordinates are the IEEE-754 bit patterns of the client's `f32`
/// values: the relay does no arithmetic on them, it stores and forwards them
/// unchanged.
#[derive(Clone, Copy, Debug, PartialEq, Eq, Structural)]
pub struct Point {
    pub x: u32,
    pub y: u32,
    pub id: u32,
}

impl Default for Point {
    /// The origin, owned by session 0.
    fn default() -> (r: Point)
        ensures
            r == (Point { x: 0, y: 0, id: 0 }),
    {
        Point { x: 0, y: 0, id: 0 }
    }
}

/// A message of the wire protocol; exactly one variant is active.
#[derive(Clone, Copy, Debug, PartialEq, Eq, Structural)]
pub enum BellMessage {
    /// A player moved; sent by that player and relayed to every other one.
    PositionChangeMessage(Point),
    /// A placeholder that is never forwarded.
    DeferMessage,
    /// Notice to the other players that a new player joined.
    PlayerInsertionMessage(Point),
    /// A client asks for a session id; the id of the point is ignored.
    PlayerRegistrationMessage(Point),
}

/// The variant of a message without its payload: the tag of the wire record.
#[derive(Clone, Copy, Debug, PartialEq, Eq, Structural)]
pub enum MessageKind {
    PositionChange,
    Defer,
    PlayerInsertion,
    PlayerRegistration,
}

/// Why a tagged record is not a message.
#[derive(Clone, Copy, Debug, PartialEq, Eq, Structural)]
pub enum DecodeError {
    /// The tag names no variant.
    UnknownTag,
    /// The variant carries a point, and the record holds none.
    MissingPayload,
    /// The variant carries nothing, and the record holds a point.
    UnexpectedPayload,
}

/// The direct answer to a registration; it never goes through the queue.
#[derive(Clone, Debug)]
pub struct RegistrationReply {
    pub assigned_id: u32,
    /// The last known position of every other registered player.
    pub known_peers: Vec<Point>,
}

pub open spec fn kind_of(m: BellMessage) -> MessageKind {
    match m {
        BellMessage::PositionChangeMessage(_) => MessageKind::PositionChange,
        BellMessage::DeferMessage => MessageKind::Defer,
        BellMessage::PlayerInsertionMessage(_) => MessageKind::PlayerInsertion,
        BellMessage::PlayerRegistrationMessage(_) => MessageKind::PlayerRegistration,
    }
}

pub open spec fn payload_of(m: BellMessage) -> Option<Point> {
    match m {
        BellMessage::PositionChangeMessage(p) => Some(p),
        BellMessage::DeferMessage => None,
        BellMessage::PlayerInsertionMessage(p) => Some(p),
        BellMessage::PlayerRegistrationMessage(p) => Some(p),
    }
}

/// The tag that names a variant on the wire.
pub open spec fn kind_name(k: MessageKind) -> Seq<char> {
    match k {
        MessageKind::PositionChange => "PositionChangeMessage"@,
        MessageKind::Defer => "DeferMessage"@,
        MessageKind::PlayerInsertion => "PlayerInsertionMessage"@,
        MessageKind::PlayerRegistration => "PlayerRegistrationMessage"@,
    }
}

/// The variant that a tag names, if any.
pub open spec fn kind_named(s: Seq<char>) -> Option<MessageKind> {
    if s == kind_name(MessageKind::PositionChange) {
        Some(MessageKind::PositionChange)
    } else if s == kind_name(MessageKind::Defer) {
        Some(MessageKind::Defer)
    } else if s == kind_name(MessageKind::PlayerInsertion) {
        Some(MessageKind::PlayerInsertion)
    } else if s == kind_name(MessageKind::PlayerRegistration) {
        Some(MessageKind::PlayerRegistration)
    } else {
        None
    }
}

/// The message made of a variant and a payload, if they fit together.
pub open spec fn assemble(k: MessageKind, payload: Option<Point>) -> Result<BellMessage, DecodeError> {
    match (k, payload) {
        (MessageKind::Defer, None) => Ok(BellMessage::DeferMessage),
        (MessageKind::Defer, Some(_)) => Err(DecodeError::UnexpectedPayload),
        (_, None) => Err(DecodeError::MissingPayload),
        (MessageKind::PositionChange, Some(p)) => Ok(BellMessage::PositionChangeMessage(p)),
        (MessageKind::PlayerInsertion, Some(p)) => Ok(BellMessage::PlayerInsertionMessage(p)),
        (MessageKind::PlayerRegistration, Some(p)) => Ok(BellMessage::PlayerRegistrationMessage(p)),
    }
}

/// The message that a tagged record stands for.
pub open spec fn decode_spec(tag: Seq<char>, payload: Option<Point>) -> Result<BellMessage, DecodeError> {
    match kind_named(tag) {
        Some(k) => assemble(k, payload),
        None => Err(DecodeError::UnknownTag),
    }
}

impl MessageKind {
    /// The tag of this variant on the wire.
    pub fn name(self) -> (r: &'static str)
        ensures
            r@ == kind_name(self),
    {
        match self {
            MessageKind::PositionChange => "PositionChangeMessage",
            MessageKind::Defer => "DeferMessage",
            MessageKind::PlayerInsertion => "PlayerInsertionMessage",
            MessageKind::PlayerRegistration => "PlayerRegistrationMessage",
        }
    }

    /// The variant named by a tag, or `None` for a tag of no variant.
    pub fn from_name(name: &str) -> (r: Option<MessageKind>)
        ensures
            r == kind_named(name@),
    {
        let n = name.to_owned();
        if n == "PositionChangeMessage".to_owned() {
            Some(MessageKind::PositionChange)
        } else if n == "DeferMessage".to_owned() {
            Some(MessageKind::Defer)
        } else if n == "PlayerInsertionMessage".to_owned() {
            Some(MessageKind::PlayerInsertion)
        } else if n == "PlayerRegistrationMessage".to_owned() {
            Some(MessageKind::PlayerRegistration)
        } else {
            None
        }
    }
}

impl BellMessage {
    /// The variant of this message: the tag of its wire record.
    pub fn kind(&self) -> (r: MessageKind)
        ensures
            r == kind_of(*self),
    {
        match self {
            BellMessage::PositionChangeMessage(_) => MessageKind::PositionChange,
            BellMessage::DeferMessage => MessageKind::Defer,
            BellMessage::PlayerInsertionMessage(_) => MessageKind::PlayerInsertion,
            BellMessage::PlayerRegistrationMessage(_) => MessageKind::PlayerRegistration,
        }
    }

    /// The point that this message carries, the payload of its wire record.
    pub fn payload(&self) -> (r: Option<Point>)
        ensures
            r == payload_of(*self),
    {
        match self {
            BellMessage::PositionChangeMessage(p) => Some(*p),
            BellMessage::DeferMessage => None,
            BellMessage::PlayerInsertionMessage(p) => Some(*p),
            BellMessage::PlayerRegistrationMessage(p) => Some(*p),
        }
    }

    /// Builds a message from a variant and a payload. `DeferMessage` takes no
    /// point, every other variant takes one.
    pub fn from_parts(kind: MessageKind, payload: Option<Point>) -> (r: Result<BellMessage, DecodeError>)
        ensures
            r == assemble(kind, payload),
    {
        match (kind, payload) {
            (MessageKind::Defer, None) => Ok(BellMessage::DeferMessage),
            (MessageKind::Defer, Some(_)) => Err(DecodeError::UnexpectedPayload),
            (_, None) => Err(DecodeError::MissingPayload),
            (MessageKind::PositionChange, Some(p)) => Ok(BellMessage::PositionChangeMessage(p)),
            (MessageKind::PlayerInsertion, Some(p)) => Ok(BellMessage::PlayerInsertionMessage(p)),
            (MessageKind::PlayerRegistration, Some(p)) => Ok(BellMessage::PlayerRegistrationMessage(p)),
        }
    }

    /// Decodes a tagged record: the tag must name a variant, and the payload
    /// must be present exactly when that variant carries a point.
    pub fn decode_record(tag: &str, payload: Option<Point>) -> (r: Result<BellMessage, DecodeError>)
        ensures
            r == decode_spec(tag@, payload),
    {
        match MessageKind::from_name(tag) {
            Some(k) => BellMessage::from_parts(k, payload),
            None => Err(DecodeError::UnknownTag),
        }
    }
}

/// Each variant has a tag of its own: reading back the tag of a variant gives
/// that variant.
pub proof fn lemma_kind_name_round_trip(k: MessageKind)
    ensures
        kind_named(kind_name(k)) == Some(k),
{
    reveal_strlit("PositionChangeMessage");
    reveal_strlit("DeferMessage");
    reveal_strlit("PlayerInsertionMessage");
    reveal_strlit("PlayerRegistrationMessage");
    assert(kind_name(MessageKind::PositionChange).len() == 21);
    assert(kind_name(MessageKind::Defer).len() == 12);
    assert(kind_name(MessageKind::PlayerInsertion).len() == 22);
    assert(kind_name(MessageKind::PlayerRegistration).len() == 25);
}

/// Encoding a message as a tagged record (the name of its variant and its
/// point) and decoding that record gives back the same message, field for
/// field, for every variant.
pub proof fn lemma_wire_round_trip(m: BellMessage)
    ensures
        decode_spec(kind_name(kind_of(m)), payload_of(m)) == Ok::<BellMessage, DecodeError>(m),
{
    lemma_kind_name_round_trip(kind_of(m));
}

} // verus!
