//! Session pieces around one connection: the name handshake, the writer's
//! command executor, and the client-side mapping of server frames to UI
//! events.
//!
//! A connection's command queue is the only path to its stream, so writes
//! are serialized structurally; the executor here decides what each command
//! does, and the loop around the library performs it.

use vstd::prelude::*;
use vstd::utf8::decode_utf8;
use vstd::utf8::encode_utf8;
use vstd::utf8::valid_utf8;

use crate::codec::DELIMITER;
use crate::codec::bytes_to_text;
use crate::codec::encode_text;
use crate::codec::framed;
use crate::envelope::Envelope;
use crate::envelope::EnvelopeModel;
use crate::envelope::parse_envelope;
use crate::envelope::parse_envelope_text;
use crate::error::RatError;
use crate::registry::Participant;

verus! {

/// A command on one connection's queue, consumed exactly once.
pub enum Command {
    /// Close both halves of the stream.
    Shutdown,
    /// Frame this text and write it out whole.
    SendRaw(String),
}

/// What the writer loop must do with the stream for one command.
pub enum WriterAction {
    /// Close the stream; later writes failing with "closed" is no anomaly.
    Close,
    /// Write these bytes fully before taking the next command.
    Write(Vec<u8>),
}

/// Decides one command.  A text whose encoding holds the delimiter byte
/// cannot travel as one frame and is refused rather than corrupting the
/// stream.
pub fn execute_command(cmd: &Command) -> (r: Result<WriterAction, RatError>)
    ensures
        cmd matches Command::Shutdown ==> r matches Ok(a) && a is Close,
        cmd matches Command::SendRaw(t) ==> (if !encode_utf8(t@).contains(DELIMITER) {
            r matches Ok(a) && (a matches WriterAction::Write(v) && v@ == framed(encode_utf8(t@)))
        } else {
            r matches Err(e) && e is InvalidEncoding
        }),
{
    match cmd {
        Command::Shutdown => Ok(WriterAction::Close),
        Command::SendRaw(t) => match encode_text(t.as_str()) {
            Some(v) => Ok(WriterAction::Write(v)),
            None => Err(RatError::InvalidEncoding),
        },
    }
}

/// Relies on `uuid::Uuid::new_v4` (via `as_u128`) for a fresh random
/// 128-bit identity; nothing is promised of a random value.
#[verifier::external_body]
fn fresh_id() -> u128 {
    uuid::Uuid::new_v4().as_u128()
}

/// Builds the participant that a connection's first frame names: the
/// frame's text is the display name, accepted with no validation beyond
/// decoding, and the identity is drawn fresh for this connection.
pub fn participant_from_handshake(name_frame: Vec<u8>) -> (r: Result<Participant, RatError>)
    ensures
        r matches Ok(p) ==> valid_utf8(name_frame@) && p.name@ == decode_utf8(name_frame@),
        r matches Err(e) ==> !valid_utf8(name_frame@) && e is InvalidEncoding,
{
    match bytes_to_text(name_frame) {
        Some(name) => Ok(Participant { id: fresh_id(), name }),
        None => Err(RatError::InvalidEncoding),
    }
}

/// What the client's UI shows for one server message.
pub enum UiEvent {
    /// Another participant's chat line.
    Chat { sender: String, body: String },
    /// Somebody came online.
    Joined(String),
    /// Somebody went offline.
    Left(String),
}

/// The mathematical value of a UI event.
pub enum UiEventModel {
    Chat { sender: Seq<char>, body: Seq<char> },
    Joined(Seq<char>),
    Left(Seq<char>),
}

impl View for UiEvent {
    type V = UiEventModel;

    open spec fn view(&self) -> UiEventModel {
        match self {
            UiEvent::Chat { sender, body } => UiEventModel::Chat {
                sender: sender@,
                body: body@,
            },
            UiEvent::Joined(name) => UiEventModel::Joined(name@),
            UiEvent::Left(name) => UiEventModel::Left(name@),
        }
    }
}

/// The UI event an envelope announces.
pub open spec fn ui_event_of(e: EnvelopeModel) -> UiEventModel {
    match e {
        EnvelopeModel::Chat { sender, body } => UiEventModel::Chat { sender, body },
        EnvelopeModel::Join { name } => UiEventModel::Joined(name),
        EnvelopeModel::Leave { name } => UiEventModel::Left(name),
    }
}

/// Classifies one server frame for the UI (the client side's read step):
/// a payload that is not UTF-8 is a decode failure and a shapeless text a
/// protocol violation — both terminal for the connection — while a
/// well-formed envelope becomes the UI event it announces.
pub fn on_server_frame(payload: Vec<u8>) -> (r: Result<UiEvent, RatError>)
    ensures
        !valid_utf8(payload@) ==> (r matches Err(e) && e is InvalidEncoding),
        valid_utf8(payload@) ==> (parse_envelope_text(decode_utf8(payload@)) matches Some(em) ==> (
        r matches Ok(u) && u@ == ui_event_of(em))),
        valid_utf8(payload@) ==> (parse_envelope_text(decode_utf8(payload@)) is None ==> (
        r matches Err(e) && (e matches RatError::InvalidMessage(m) && m@ == decode_utf8(
            payload@,
        )))),
{
    match bytes_to_text(payload) {
        None => Err(RatError::InvalidEncoding),
        Some(text) => match parse_envelope(text.as_str()) {
            Ok(env) => Ok(
                match env {
                    Envelope::Chat { sender, body } => UiEvent::Chat { sender, body },
                    Envelope::Join { name } => UiEvent::Joined(name),
                    Envelope::Leave { name } => UiEvent::Left(name),
                },
            ),
            Err(e) => Err(e),
        },
    }
}

} // verus!
