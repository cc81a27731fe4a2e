//! The per-connection run loop's decisions. The loop itself (socket reads,
//! channel writes, the select between them) is the embedding's; every frame
//! it reads is handed here as an event, and the returned step says what to
//! do: deliver a decoded message, answer a ping, tear the connection down,
//! or nothing.
//!
//! Decoding is total, so every data frame is delivered: a frame that is not
//! JSON is wrapped as a plain `message`-subject message, and a binary frame
//! that is not UTF-8 is wrapped under `binary.message`. Client-mode and
//! server-mode run loops differ only in where a delivered message goes (the
//! handler fan-out against the registered handler callback), so both take
//! their steps from the one decision here.

use vstd::prelude::*;

use crate::codec;
use crate::codec::{binary_message_spec, parse_message_spec};
use crate::message::{BrokerMessage, MessageModel};
use crate::wire::json_parse;

verus! {

/// Mathematical image of a socket event.
pub ghost enum EventModel {
    Text(Seq<char>),
    Binary(Seq<u8>),
    Ping(Seq<u8>),
    Close,
    ReadError,
    Other,
}

/// One observation on a connection's socket.
#[derive(Debug)]
pub enum SocketEvent {
    /// A text frame arrived.
    TextFrame(String),
    /// A binary frame arrived.
    BinaryFrame(Vec<u8>),
    /// A ping arrived; keep-alive, answered transparently.
    Ping(Vec<u8>),
    /// The peer closed the connection.
    CloseFrame,
    /// Reading the socket failed.
    ReadError,
    /// Any other frame (a pong, a fragment).
    OtherFrame,
}

impl View for SocketEvent {
    type V = EventModel;

    open spec fn view(&self) -> EventModel {
        match self {
            SocketEvent::TextFrame(t) => EventModel::Text(t@),
            SocketEvent::BinaryFrame(d) => EventModel::Binary(d@),
            SocketEvent::Ping(d) => EventModel::Ping(d@),
            SocketEvent::CloseFrame => EventModel::Close,
            SocketEvent::ReadError => EventModel::ReadError,
            SocketEvent::OtherFrame => EventModel::Other,
        }
    }
}

/// Mathematical image of a step.
pub ghost enum StepModel {
    Deliver(MessageModel),
    ReplyPong(Seq<u8>),
    Exit,
    Ignore,
}

/// What the run loop must do next.
#[derive(Debug)]
pub enum TaskStep {
    /// Hand this decoded message on: in client mode, fan it out to every
    /// handler component; in server mode, invoke the message handler.
    Deliver(BrokerMessage),
    /// Write a pong carrying these bytes back to the socket.
    ReplyPong(Vec<u8>),
    /// Leave the run loop and tear the connection down.
    Exit,
    /// Nothing to do.
    Ignore,
}

impl View for TaskStep {
    type V = StepModel;

    open spec fn view(&self) -> StepModel {
        match self {
            TaskStep::Deliver(m) => StepModel::Deliver(m@),
            TaskStep::ReplyPong(d) => StepModel::ReplyPong(d@),
            TaskStep::Exit => StepModel::Exit,
            TaskStep::Ignore => StepModel::Ignore,
        }
    }
}

/// The run loop's reaction to an event: text and binary frames are decoded
/// permissively and delivered, pings are answered, close and read failure
/// end the loop.
pub open spec fn step_spec(e: EventModel, sid: Seq<char>) -> StepModel {
    match e {
        EventModel::Text(t) => StepModel::Deliver(parse_message_spec(json_parse(t), t, sid)),
        EventModel::Binary(d) => StepModel::Deliver(binary_message_spec(d, sid)),
        EventModel::Ping(d) => StepModel::ReplyPong(d),
        EventModel::Close => StepModel::Exit,
        EventModel::ReadError => StepModel::Exit,
        EventModel::Other => StepModel::Ignore,
    }
}

/// Decides one step of a connection's run loop, in either mode.
pub fn connection_task_step(event: SocketEvent, session_id: &str) -> (r: TaskStep)
    ensures
        r@ == step_spec(event@, session_id@),
{
    match event {
        SocketEvent::TextFrame(t) => TaskStep::Deliver(
            codec::parse_broker_message(t.as_str(), session_id),
        ),
        SocketEvent::BinaryFrame(d) => TaskStep::Deliver(
            codec::decode_binary_message(d, session_id),
        ),
        SocketEvent::Ping(d) => TaskStep::ReplyPong(d),
        SocketEvent::CloseFrame => TaskStep::Exit,
        SocketEvent::ReadError => TaskStep::Exit,
        SocketEvent::OtherFrame => TaskStep::Ignore,
    }
}

} // verus!
