//! The client's side of an exchange with the daemon: one request, one
//! response, and no segments where anything fails.

use vstd::prelude::*;
use crate::zsh::command::{segment_views, PromptSegment, SegmentView};
use crate::zsh::daemon::frame::{announced, decode_header, encode_frame, framed, HEADER_LEN};

verus! {

/// The time that one exchange may take from connecting to the last byte of
/// the response, in milliseconds.
pub const TIMEOUT_MS: u64 = 500;

/// How far an exchange has come.
#[derive(Clone, Debug, PartialEq, Eq)]
pub enum ClientState {
    /// The connection is being made; `request` is the encoded command.
    Connecting { request: Vec<u8> },
    /// The request is being sent.
    Sending,
    /// The header of the response is awaited.
    ReadingHeader,
    /// The `len` bytes of the response are awaited.
    ReadingPayload { len: usize },
    /// The response is being decoded.
    Decoding,
    /// The exchange is over.
    Finished,
}

/// What happened outside since the last action.
#[derive(Clone, Debug, PartialEq, Eq)]
pub enum ClientEvent {
    /// The connection stands.
    Connected,
    /// The bytes that were to be sent are sent.
    Sent,
    /// These bytes came.
    Received(Vec<u8>),
    /// The response holds these segments.
    Decoded(Vec<PromptSegment>),
    /// The connection was refused, a transfer failed, the response could
    /// not be decoded, or the time was up.
    Failed,
}

/// What is to be done outside next.
#[derive(Clone, Debug, PartialEq, Eq)]
pub enum ClientAction {
    /// Connect to the daemon's socket.
    Connect,
    /// Send these bytes.
    Send(Vec<u8>),
    /// Read exactly this many bytes.
    Receive(usize),
    /// Decode these bytes as a list of segments.
    Decode(Vec<u8>),
    /// Give these segments to the caller.
    Return(Vec<PromptSegment>),
}

/// The mathematical value of a [`ClientState`].
pub enum ClientStateView {
    Connecting { request: Seq<u8> },
    Sending,
    ReadingHeader,
    ReadingPayload { len: nat },
    Decoding,
    Finished,
}

/// The mathematical value of a [`ClientEvent`].
pub enum ClientEventView {
    Connected,
    Sent,
    Received(Seq<u8>),
    Decoded(Seq<SegmentView>),
    Failed,
}

/// The mathematical value of a [`ClientAction`].
pub enum ClientActionView {
    Connect,
    Send(Seq<u8>),
    Receive(nat),
    Decode(Seq<u8>),
    Return(Seq<SegmentView>),
}

impl View for ClientState {
    type V = ClientStateView;

    open spec fn view(&self) -> ClientStateView {
        match *self {
            ClientState::Connecting { request } => ClientStateView::Connecting { request: request@ },
            ClientState::Sending => ClientStateView::Sending,
            ClientState::ReadingHeader => ClientStateView::ReadingHeader,
            ClientState::ReadingPayload { len } => ClientStateView::ReadingPayload {
                len: len as nat,
            },
            ClientState::Decoding => ClientStateView::Decoding,
            ClientState::Finished => ClientStateView::Finished,
        }
    }
}

impl View for ClientEvent {
    type V = ClientEventView;

    open spec fn view(&self) -> ClientEventView {
        match *self {
            ClientEvent::Connected => ClientEventView::Connected,
            ClientEvent::Sent => ClientEventView::Sent,
            ClientEvent::Received(bytes) => ClientEventView::Received(bytes@),
            ClientEvent::Decoded(segments) => ClientEventView::Decoded(segment_views(segments@)),
            ClientEvent::Failed => ClientEventView::Failed,
        }
    }
}

impl View for ClientAction {
    type V = ClientActionView;

    open spec fn view(&self) -> ClientActionView {
        match *self {
            ClientAction::Connect => ClientActionView::Connect,
            ClientAction::Send(bytes) => ClientActionView::Send(bytes@),
            ClientAction::Receive(len) => ClientActionView::Receive(len as nat),
            ClientAction::Decode(bytes) => ClientActionView::Decode(bytes@),
            ClientAction::Return(segments) => ClientActionView::Return(segment_views(segments@)),
        }
    }
}

/// The end of an exchange that gives the caller no segments.
pub open spec fn gives_up() -> (ClientStateView, ClientActionView) {
    (ClientStateView::Finished, ClientActionView::Return(Seq::empty()))
}

/// The next state and action of the client. The exchange goes on only
/// where the event is the one that the state awaits: after the connection
/// the framed request is sent, then the eight bytes of the header are read,
/// then as many bytes as the header announces, and those are decoded. Any
/// other event, a failure among them, ends the exchange without segments.
pub open spec fn client_next(state: ClientStateView, event: ClientEventView) -> (
    ClientStateView,
    ClientActionView,
) {
    match (state, event) {
        (ClientStateView::Connecting { request }, ClientEventView::Connected) => (
            ClientStateView::Sending,
            ClientActionView::Send(framed(request)),
        ),
        (ClientStateView::Sending, ClientEventView::Sent) => (
            ClientStateView::ReadingHeader,
            ClientActionView::Receive(8),
        ),
        (ClientStateView::ReadingHeader, ClientEventView::Received(bytes)) => if bytes.len() == 8
            && announced(bytes) <= usize::MAX {
            (
                ClientStateView::ReadingPayload { len: announced(bytes) },
                ClientActionView::Receive(announced(bytes)),
            )
        } else {
            gives_up()
        },
        (ClientStateView::ReadingPayload { len }, ClientEventView::Received(bytes)) => if bytes.len()
            == len {
            (ClientStateView::Decoding, ClientActionView::Decode(bytes))
        } else {
            gives_up()
        },
        (ClientStateView::Decoding, ClientEventView::Decoded(segments)) => (
            ClientStateView::Finished,
            ClientActionView::Return(segments),
        ),
        _ => gives_up(),
    }
}

fn give_up() -> (next: (ClientState, ClientAction))
    ensures
        (next.0@, next.1@) == gives_up(),
{
    let segments: Vec<PromptSegment> = Vec::new();
    proof {
        assert(segment_views(segments@) =~= Seq::<SegmentView>::empty());
    }
    (ClientState::Finished, ClientAction::Return(segments))
}

/// Starts an exchange for the encoded command `request`: the first thing to
/// do is to connect.
pub fn get(request: Vec<u8>) -> (start: (ClientState, ClientAction))
    ensures
        start.0@ == (ClientStateView::Connecting { request: request@ }),
        start.1@ == ClientActionView::Connect,
{
    (ClientState::Connecting { request }, ClientAction::Connect)
}

/// Takes the exchange one step further: from the state and what happened
/// to the next state and what to do.
pub fn client_step(state: ClientState, event: ClientEvent) -> (next: (ClientState, ClientAction))
    ensures
        (next.0@, next.1@) == client_next(state@, event@),
{
    match (state, event) {
        (ClientState::Connecting { request }, ClientEvent::Connected) => (
            ClientState::Sending,
            ClientAction::Send(encode_frame(request.as_slice())),
        ),
        (ClientState::Sending, ClientEvent::Sent) => (
            ClientState::ReadingHeader,
            ClientAction::Receive(HEADER_LEN),
        ),
        (ClientState::ReadingHeader, ClientEvent::Received(bytes)) => {
            if bytes.len() != HEADER_LEN {
                return give_up();
            }
            let len: u64 = decode_header(bytes.as_slice());
            if len > usize::MAX as u64 {
                return give_up();
            }
            (ClientState::ReadingPayload { len: len as usize }, ClientAction::Receive(len as usize))
        },
        (ClientState::ReadingPayload { len }, ClientEvent::Received(bytes)) => {
            if bytes.len() != len {
                return give_up();
            }
            (ClientState::Decoding, ClientAction::Decode(bytes))
        },
        (ClientState::Decoding, ClientEvent::Decoded(segments)) => (
            ClientState::Finished,
            ClientAction::Return(segments),
        ),
        _ => give_up(),
    }
}

/// Whatever the state, a failure ends the exchange and gives the caller no
/// segments: a daemon that does not run is no error.
pub proof fn lemma_failure_gives_nothing(state: ClientStateView)
    ensures
        client_next(state, ClientEventView::Failed) == gives_up(),
{
}

} // verus!
