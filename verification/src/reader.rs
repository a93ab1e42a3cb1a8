//! Per-connection reader: a state machine from stream reads to events.
//!
//! The process around the library performs the reads; the reader decides.
//! It tolerates "no data yet" without treating it as connection death,
//! accumulates partial frames, and emits exactly one terminal leave event
//! per connection — on stream closure, read failure, or a payload that is
//! not UTF-8 (a protocol violation, handled like any decode failure).

use vstd::prelude::*;
use vstd::utf8::decode_utf8;
use vstd::utf8::valid_utf8;

use crate::codec::FrameDecoder;
use crate::codec::bytes_to_text;
use crate::codec::first_frame;
use crate::registry::Participant;
use crate::registry::RegistryEvent;
use crate::registry::RegistryEventModel;

verus! {

/// Where a connection's reader stands.
#[derive(Clone, Copy, Debug, PartialEq, Eq, Structural)]
pub enum ReaderState {
    /// Frames may still arrive.
    Running,
    /// The peer closed the stream; the reader's one leave event is out.
    Closed,
    /// The connection failed: a read error or a malformed payload.
    Errored,
}

/// What one read attempt on the connection's stream produced.
pub enum ReadInput {
    /// Bytes arrived, in whatever pieces the transport chose.
    Data(Vec<u8>),
    /// No data available yet (a would-block read): retry later.
    NoData,
    /// The stream reached end-of-file.
    Closed,
    /// The stream reported a read failure.
    Failed,
}

/// Decodes one connection's byte stream into registry events.
pub struct ConnectionReader {
    /// Whose connection this reader serves; fixed at construction.
    pub participant: Participant,
    /// Buffers arrived bytes until a delimiter completes a frame.
    pub decoder: FrameDecoder,
    /// Terminal once `Closed` or `Errored`: no further step is allowed.
    pub state: ReaderState,
}

impl ConnectionReader {
    /// A reader for a freshly registered connection.
    pub fn new(p: Participant) -> (r: ConnectionReader)
        ensures
            r.participant@ == p@,
            r.decoder@ == Seq::<u8>::empty(),
            r.state == ReaderState::Running,
    {
        ConnectionReader {
            participant: p,
            decoder: FrameDecoder::new(),
            state: ReaderState::Running,
        }
    }

    /// The leave event this connection owes the registry on teardown.
    pub open spec fn leave_model(&self) -> RegistryEventModel {
        RegistryEventModel::Left { id: self.participant.id, name: self.participant.name@ }
    }

    /// Feeds the outcome of one read attempt.  "No data yet" changes
    /// nothing; data only accumulates (`next_event` then drains completed
    /// frames); closure and failure are terminal and yield the connection's
    /// one leave event.
    pub fn on_read(&mut self, input: ReadInput) -> (out: Option<RegistryEvent>)
        requires
            old(self).state == ReaderState::Running,
        ensures
            final(self).participant == old(self).participant,
            input matches ReadInput::Data(d) ==> final(self).state == ReaderState::Running
                && final(self).decoder@ == old(self).decoder@ + d@ && out is None,
            input matches ReadInput::NoData ==> *final(self) == *old(self) && out is None,
            input matches ReadInput::Closed ==> final(self).state == ReaderState::Closed
                && final(self).decoder@ == old(self).decoder@ && (out matches Some(ev) && ev@
                == old(self).leave_model()),
            input matches ReadInput::Failed ==> final(self).state == ReaderState::Errored
                && final(self).decoder@ == old(self).decoder@ && (out matches Some(ev) && ev@
                == old(self).leave_model()),
    {
        match input {
            ReadInput::Data(d) => {
                self.decoder.feed(d.as_slice());
                None
            },
            ReadInput::NoData => None,
            ReadInput::Closed => {
                self.state = ReaderState::Closed;
                Some(RegistryEvent::Left(self.participant.duplicate()))
            },
            ReadInput::Failed => {
                self.state = ReaderState::Errored;
                Some(RegistryEvent::Left(self.participant.duplicate()))
            },
        }
    }

    /// Takes the next completed frame, if any, and classifies it: a valid
    /// text is this participant's chat event; a payload that is not UTF-8
    /// is a protocol violation, terminal for the connection, yielding its
    /// one leave event.  Other connections are never involved.
    pub fn next_event(&mut self) -> (out: Option<RegistryEvent>)
        requires
            old(self).state == ReaderState::Running,
        ensures
            final(self).participant == old(self).participant,
            first_frame(old(self).decoder@) is None ==> *final(self) == *old(self) && out is None,
            first_frame(old(self).decoder@) matches Some(pr) ==> final(self).decoder@ == pr.1 && (
            if valid_utf8(pr.0) {
                final(self).state == ReaderState::Running && (out matches Some(ev) && ev@
                    == RegistryEventModel::Chat {
                    id: old(self).participant.id,
                    name: old(self).participant.name@,
                    body: decode_utf8(pr.0),
                })
            } else {
                final(self).state == ReaderState::Errored && (out matches Some(ev) && ev@
                    == old(self).leave_model())
            }),
    {
        match self.decoder.next_frame() {
            None => None,
            Some(payload) => match bytes_to_text(payload) {
                Some(text) => Some(RegistryEvent::Chat(self.participant.duplicate(), text)),
                None => {
                    self.state = ReaderState::Errored;
                    Some(RegistryEvent::Left(self.participant.duplicate()))
                },
            },
        }
    }
}

} // verus!
