//! The per-connection decisions of the pub/sub broadcaster.
//!
//! A connection's read loop turns each inbound frame into an `Event`; the
//! registry decides what happens and answers with a `Reaction` that the loop
//! carries out. Frames are JSON texts `{"op": ..., "data": ...}`.

use vstd::prelude::*;

use crate::pubsub::{cancelled, recipients, subscribed, PubSubState};
use crate::text::str_equal;

verus! {

/// The JSON text of a string: quoted, with the characters JSON requires escaped.
pub uninterp spec fn json_string_of(s: Seq<char>) -> Seq<char>;

/// Relies on `serde_json::to_string`: serialising a `str` writes its quoted,
/// escaped JSON form into a `Vec`, which cannot fail.
#[verifier::external_body]
fn json_string(s: &str) -> (r: String)
    ensures
        r@ == json_string_of(s@),
{
    serde_json::to_string(s).unwrap_or_default()
}

/// The text sent to subscribers, from the JSON forms of topic and message.
pub open spec fn frame_text(topic_json: Seq<char>, message_json: Seq<char>) -> Seq<char> {
    "{\"topic\":"@ + topic_json + ",\"message\":"@ + message_json + "}"@
}

/// The error frame that reports `detail`.
pub open spec fn error_text(detail: Seq<char>) -> Seq<char> {
    "error : "@ + detail
}

/// What the error frame says of an unknown operation.
pub const UNKNOWN_OPERATION: &'static str = "Unknown message";
/// The payload of the Pong frame that answers a Ping.
pub const PING_REPLY: &'static str = "Pong";
/// The payload of the Pong frame that answers a Pong.
pub const PONG_REPLY: &'static str = "ping";

/// The broadcast frame `{"topic":<topic_json>,"message":<message_json>}`.
pub fn broadcast_frame(topic_json: &str, message_json: &str) -> (r: String)
    ensures
        r@ == frame_text(topic_json@, message_json@),
{
    let mut s = "{\"topic\":".to_owned();
    s.append(topic_json);
    s.append(",\"message\":");
    s.append(message_json);
    s.append("}");
    s
}

/// The frame that delivers `message`, published to `topic`, to a subscriber.
pub fn broadcast_payload(topic: &str, message: &str) -> (r: String)
    ensures
        r@ == frame_text(json_string_of(topic@), json_string_of(message@)),
{
    let topic_json = json_string(topic);
    let message_json = json_string(message);
    broadcast_frame(topic_json.as_str(), message_json.as_str())
}

/// The error frame `error : <detail>`.
pub fn error_frame(detail: &str) -> (r: String)
    ensures
        r@ == error_text(detail@),
{
    let mut s = "error : ".to_owned();
    s.append(detail);
    s
}

/// The operations a text frame can ask for.
#[derive(Debug, Clone, Copy, PartialEq, Eq)]
pub enum Opcode {
    Subscribe,
    Publish,
    Cancel,
}

/// The operation named by the `op` field of a frame, if it names one.
pub open spec fn opcode_of(op: Seq<char>) -> Option<Opcode> {
    if op == "subscribe"@ {
        Some(Opcode::Subscribe)
    } else if op == "publish"@ {
        Some(Opcode::Publish)
    } else if op == "cancel"@ {
        Some(Opcode::Cancel)
    } else {
        None
    }
}

impl Opcode {
    /// The operation named by `op`; `None` for an unknown name.
    pub fn parse(op: &str) -> (r: Option<Opcode>)
        ensures
            r == opcode_of(op@),
    {
        if str_equal(op, "subscribe") {
            Some(Opcode::Subscribe)
        } else if str_equal(op, "publish") {
            Some(Opcode::Publish)
        } else if str_equal(op, "cancel") {
            Some(Opcode::Cancel)
        } else {
            None
        }
    }
}

/// What a connection's read loop received.
#[derive(Debug)]
pub enum Event {
    /// A `subscribe` frame for this topic.
    Subscribe { topic: String },
    /// A `publish` frame for this topic and message.
    Publish { topic: String, message: String },
    /// A `cancel` frame for this topic.
    Cancel { topic: String },
    /// A text frame whose `op` names no operation.
    UnknownOp,
    /// A text frame that could not be decoded; `detail` says why.
    Malformed { detail: String },
    /// A binary frame.
    Binary,
    /// A Ping frame.
    Ping,
    /// A Pong frame.
    Pong,
    /// A Close frame.
    Close,
}

/// What the read loop does next.
#[derive(Debug)]
pub enum Reaction {
    /// Nothing to send; read the next frame.
    Continue,
    /// Send `payload` to each of `recipients`, then read the next frame.
    Deliver { recipients: Vec<u128>, payload: String },
    /// Send a Pong frame with this payload, then read the next frame.
    Reply { pong: String },
    /// Send this error frame to the connection and end its read loop.
    Fail { frame: String },
    /// End the read loop.
    Stop,
}

impl PubSubState {
    /// Applies one event received on connection `conn`.
    pub fn handle(&mut self, conn: u128, event: Event) -> (r: Reaction)
        requires
            old(self).well_formed(),
        ensures
            final(self).well_formed(),
            match event {
                Event::Subscribe { topic } => {
                    &&& final(self)@ == subscribed(old(self)@, conn, topic@)
                    &&& r is Continue
                },
                Event::Publish { topic, message } => {
                    &&& final(self)@ == old(self)@
                    &&& r is Deliver
                    &&& r->recipients@ == recipients(old(self)@, topic@)
                    &&& r->payload@ == frame_text(json_string_of(topic@), json_string_of(message@))
                },
                Event::Cancel { topic } => {
                    &&& final(self)@ == cancelled(old(self)@, conn, topic@)
                    &&& r is Continue
                },
                Event::UnknownOp => {
                    &&& final(self)@ == old(self)@
                    &&& r is Fail
                    &&& r->frame@ == error_text(UNKNOWN_OPERATION@)
                },
                Event::Malformed { detail } => {
                    &&& final(self)@ == old(self)@
                    &&& r is Fail
                    &&& r->frame@ == error_text(detail@)
                },
                Event::Binary => final(self)@ == old(self)@ && r is Continue,
                Event::Ping => {
                    &&& final(self)@ == old(self)@
                    &&& r is Reply
                    &&& r->pong@ == PING_REPLY@
                },
                Event::Pong => {
                    &&& final(self)@ == old(self)@
                    &&& r is Reply
                    &&& r->pong@ == PONG_REPLY@
                },
                Event::Close => final(self)@ == old(self)@ && r is Stop,
            },
    {
        match event {
            Event::Subscribe { topic } => {
                self.subscribe(conn, topic.as_str());
                Reaction::Continue
            },
            Event::Publish { topic, message } => {
                let recipients = self.subscribers_of(topic.as_str());
                let payload = broadcast_payload(topic.as_str(), message.as_str());
                Reaction::Deliver { recipients, payload }
            },
            Event::Cancel { topic } => {
                self.cancel(conn, topic.as_str());
                Reaction::Continue
            },
            Event::UnknownOp => Reaction::Fail { frame: error_frame(UNKNOWN_OPERATION) },
            Event::Malformed { detail } => Reaction::Fail { frame: error_frame(detail.as_str()) },
            Event::Binary => Reaction::Continue,
            Event::Ping => Reaction::Reply { pong: PING_REPLY.to_owned() },
            Event::Pong => Reaction::Reply { pong: PONG_REPLY.to_owned() },
            Event::Close => Reaction::Stop,
        }
    }
}

} // verus!
