//! The daemon's side: one connection holds one request and one response;
//! whatever goes wrong with a connection ends that connection alone.

use vstd::prelude::*;
use crate::zsh::daemon::frame::{announced, decode_header, encode_frame, framed, HEADER_LEN};
use crate::zsh::daemon::get::{client_next, ClientActionView, ClientEventView, ClientStateView};
use crate::zsh::command::SegmentView;

verus! {

/// How far a connection has come.
#[derive(Clone, Debug, PartialEq, Eq)]
pub enum ConnectionState {
    /// The header of the request is awaited.
    ReadingHeader,
    /// The `len` bytes of the request are awaited.
    ReadingPayload { len: usize },
    /// The command is being decoded and carried out.
    Executing,
    /// The response is being sent.
    Sending,
    /// The connection is closed.
    Closed,
}

/// What happened outside since the last action.
#[derive(Clone, Debug, PartialEq, Eq)]
pub enum ConnectionEvent {
    /// These bytes came.
    Received(Vec<u8>),
    /// The command was carried out; these bytes encode its segments.
    Answer(Vec<u8>),
    /// The bytes that were to be sent are sent.
    Sent,
    /// A transfer failed, or the request could not be decoded.
    Failed,
}

/// What is to be done outside next.
#[derive(Clone, Debug, PartialEq, Eq)]
pub enum ConnectionAction {
    /// Read exactly this many bytes.
    Receive(usize),
    /// Decode these bytes as a command, carry it out and encode its segments.
    Execute(Vec<u8>),
    /// Send these bytes.
    Send(Vec<u8>),
    /// Close the connection; `served` tells whether the response went out.
    Close { served: bool },
}

/// The mathematical value of a [`ConnectionState`].
pub enum ConnectionStateView {
    ReadingHeader,
    ReadingPayload { len: nat },
    Executing,
    Sending,
    Closed,
}

/// The mathematical value of a [`ConnectionEvent`].
pub enum ConnectionEventView {
    Received(Seq<u8>),
    Answer(Seq<u8>),
    Sent,
    Failed,
}

/// The mathematical value of a [`ConnectionAction`].
pub enum ConnectionActionView {
    Receive(nat),
    Execute(Seq<u8>),
    Send(Seq<u8>),
    Close { served: bool },
}

impl View for ConnectionState {
    type V = ConnectionStateView;

    open spec fn view(&self) -> ConnectionStateView {
        match *self {
            ConnectionState::ReadingHeader => ConnectionStateView::ReadingHeader,
            ConnectionState::ReadingPayload { len } => ConnectionStateView::ReadingPayload {
                len: len as nat,
            },
            ConnectionState::Executing => ConnectionStateView::Executing,
            ConnectionState::Sending => ConnectionStateView::Sending,
            ConnectionState::Closed => ConnectionStateView::Closed,
        }
    }
}

impl View for ConnectionEvent {
    type V = ConnectionEventView;

    open spec fn view(&self) -> ConnectionEventView {
        match *self {
            ConnectionEvent::Received(bytes) => ConnectionEventView::Received(bytes@),
            ConnectionEvent::Answer(bytes) => ConnectionEventView::Answer(bytes@),
            ConnectionEvent::Sent => ConnectionEventView::Sent,
            ConnectionEvent::Failed => ConnectionEventView::Failed,
        }
    }
}

impl View for ConnectionAction {
    type V = ConnectionActionView;

    open spec fn view(&self) -> ConnectionActionView {
        match *self {
            ConnectionAction::Receive(len) => ConnectionActionView::Receive(len as nat),
            ConnectionAction::Execute(bytes) => ConnectionActionView::Execute(bytes@),
            ConnectionAction::Send(bytes) => ConnectionActionView::Send(bytes@),
            ConnectionAction::Close { served } => ConnectionActionView::Close { served },
        }
    }
}

/// The end of a connection that was not served.
pub open spec fn drops() -> (ConnectionStateView, ConnectionActionView) {
    (ConnectionStateView::Closed, ConnectionActionView::Close { served: false })
}

/// The next state and action of a connection. The eight bytes of the
/// header are read, then as many bytes as it announces; those are handed
/// out to be carried out as a command; the answer is framed and sent; then
/// the connection is closed. Any event that the state does not await, a
/// failure among them, closes the connection.
pub open spec fn connection_next(state: ConnectionStateView, event: ConnectionEventView) -> (
    ConnectionStateView,
    ConnectionActionView,
) {
    match (state, event) {
        (ConnectionStateView::ReadingHeader, ConnectionEventView::Received(bytes)) => if bytes.len()
            == 8 && announced(bytes) <= usize::MAX {
            (
                ConnectionStateView::ReadingPayload { len: announced(bytes) },
                ConnectionActionView::Receive(announced(bytes)),
            )
        } else {
            drops()
        },
        (ConnectionStateView::ReadingPayload { len }, ConnectionEventView::Received(bytes)) => if bytes.len()
            == len {
            (ConnectionStateView::Executing, ConnectionActionView::Execute(bytes))
        } else {
            drops()
        },
        (ConnectionStateView::Executing, ConnectionEventView::Answer(bytes)) => (
            ConnectionStateView::Sending,
            ConnectionActionView::Send(framed(bytes)),
        ),
        (ConnectionStateView::Sending, ConnectionEventView::Sent) => (
            ConnectionStateView::Closed,
            ConnectionActionView::Close { served: true },
        ),
        _ => drops(),
    }
}

/// Starts to serve a connection that was accepted: the first thing to do
/// is to read the header of the request.
pub fn handle_client() -> (start: (ConnectionState, ConnectionAction))
    ensures
        start.0@ == ConnectionStateView::ReadingHeader,
        start.1@ == ConnectionActionView::Receive(8),
{
    (ConnectionState::ReadingHeader, ConnectionAction::Receive(HEADER_LEN))
}

/// Takes a connection one step further: from the state and what happened
/// to the next state and what to do.
pub fn connection_step(state: ConnectionState, event: ConnectionEvent) -> (next: (
    ConnectionState,
    ConnectionAction,
))
    ensures
        (next.0@, next.1@) == connection_next(state@, event@),
{
    match (state, event) {
        (ConnectionState::ReadingHeader, ConnectionEvent::Received(bytes)) => {
            if bytes.len() != HEADER_LEN {
                return (ConnectionState::Closed, ConnectionAction::Close { served: false });
            }
            let len: u64 = decode_header(bytes.as_slice());
            if len > usize::MAX as u64 {
                return (ConnectionState::Closed, ConnectionAction::Close { served: false });
            }
            (
                ConnectionState::ReadingPayload { len: len as usize },
                ConnectionAction::Receive(len as usize),
            )
        },
        (ConnectionState::ReadingPayload { len }, ConnectionEvent::Received(bytes)) => {
            if bytes.len() != len {
                return (ConnectionState::Closed, ConnectionAction::Close { served: false });
            }
            (ConnectionState::Executing, ConnectionAction::Execute(bytes))
        },
        (ConnectionState::Executing, ConnectionEvent::Answer(bytes)) => (
            ConnectionState::Sending,
            ConnectionAction::Send(encode_frame(bytes.as_slice())),
        ),
        (ConnectionState::Sending, ConnectionEvent::Sent) => (
            ConnectionState::Closed,
            ConnectionAction::Close { served: true },
        ),
        _ => (ConnectionState::Closed, ConnectionAction::Close { served: false }),
    }
}

/// What the daemon's accept loop meets.
#[derive(Clone, Copy, Debug, PartialEq, Eq)]
pub enum ServerEvent {
    /// The daemon is about to start.
    Started,
    /// The socket is bound and listens.
    Bound,
    /// The socket could not be bound.
    BindFailed,
    /// A connection was accepted.
    Accepted,
    /// Accepting a connection failed.
    AcceptFailed,
}

/// What the daemon does next.
#[derive(Clone, Copy, Debug, PartialEq, Eq)]
pub enum ServerAction {
    /// Remove a socket file that was left behind, then bind the socket.
    Bind,
    /// Wait for the next connection.
    Accept,
    /// Serve the connection as a unit of work of its own, and wait for the
    /// next connection at once.
    ServeAndAccept,
    /// Give up: the daemon cannot run.
    Abort,
}

/// What the daemon does on `event`: only a socket that cannot be bound
/// ends it; a connection that cannot be accepted is passed over.
pub open spec fn server_next(event: ServerEvent) -> ServerAction {
    match event {
        ServerEvent::Started => ServerAction::Bind,
        ServerEvent::Bound => ServerAction::Accept,
        ServerEvent::BindFailed => ServerAction::Abort,
        ServerEvent::Accepted => ServerAction::ServeAndAccept,
        ServerEvent::AcceptFailed => ServerAction::Accept,
    }
}

/// Decides what the daemon does on `event`.
pub fn server(event: ServerEvent) -> (action: ServerAction)
    ensures
        action == server_next(event),
{
    match event {
        ServerEvent::Started => ServerAction::Bind,
        ServerEvent::Bound => ServerAction::Accept,
        ServerEvent::BindFailed => ServerAction::Abort,
        ServerEvent::Accepted => ServerAction::ServeAndAccept,
        ServerEvent::AcceptFailed => ServerAction::Accept,
    }
}

/// Over a connection that delivers what is sent, the daemon carries out
/// exactly the request that the client encoded, and the client decodes
/// exactly the answer that the daemon encoded.
pub proof fn lemma_exchange(request: Seq<u8>, answer: Seq<u8>)
    requires
        request.len() <= usize::MAX,
        answer.len() <= usize::MAX,
    ensures
        ({
            let sent = client_next(
                ClientStateView::Connecting { request },
                ClientEventView::Connected,
            );
            let got_header = connection_next(
                ConnectionStateView::ReadingHeader,
                ConnectionEventView::Received(framed(request).take(8)),
            );
            let got_request = connection_next(
                got_header.0,
                ConnectionEventView::Received(framed(request).skip(8)),
            );
            let answered = connection_next(got_request.0, ConnectionEventView::Answer(answer));
            let closed = connection_next(answered.0, ConnectionEventView::Sent);
            let waiting = client_next(sent.0, ClientEventView::Sent);
            let got_length = client_next(
                waiting.0,
                ClientEventView::Received(framed(answer).take(8)),
            );
            let got_answer = client_next(
                got_length.0,
                ClientEventView::Received(framed(answer).skip(8)),
            );
            &&& sent.1 == ClientActionView::Send(framed(request))
            &&& got_header.1 == ConnectionActionView::Receive(request.len())
            &&& got_request.1 == ConnectionActionView::Execute(request)
            &&& answered.1 == ConnectionActionView::Send(framed(answer))
            &&& closed.1 == (ConnectionActionView::Close { served: true })
            &&& waiting.1 == ClientActionView::Receive(8)
            &&& got_length.1 == ClientActionView::Receive(answer.len())
            &&& got_answer.1 == ClientActionView::Decode(answer)
        }),
{
    crate::zsh::daemon::frame::lemma_header(request.len());
    crate::zsh::daemon::frame::lemma_header(answer.len());
    assert(framed(request).take(8) =~= crate::zsh::daemon::frame::header(request.len()));
    assert(framed(request).skip(8) =~= request);
    assert(framed(answer).take(8) =~= crate::zsh::daemon::frame::header(answer.len()));
    assert(framed(answer).skip(8) =~= answer);
}

/// What the client gives its caller are the segments that were decoded
/// from the answer, as they are.
pub proof fn lemma_decoded_segments_are_returned(segments: Seq<SegmentView>)
    ensures
        client_next(ClientStateView::Decoding, ClientEventView::Decoded(segments)).1
            == ClientActionView::Return(segments),
{
}

} // verus!
