use zsh_infinite::zsh::command::{Color, PromptSegment};
use zsh_infinite::zsh::daemon::frame::{
    decode_frame, decode_header, encode_frame, encode_header, HEADER_LEN,
};
use zsh_infinite::zsh::daemon::get::{
    client_step, get, ClientAction, ClientEvent, ClientState, TIMEOUT_MS,
};
use zsh_infinite::zsh::daemon::server::{
    connection_step, handle_client, server, ConnectionAction, ConnectionEvent, ConnectionState,
    ServerAction, ServerEvent,
};

fn payload_of(len: usize) -> Vec<u8> {
    let mut payload = Vec::new();
    let mut i = 0;
    while i < len {
        payload.push((i % 251) as u8);
        i += 1;
    }
    payload
}

#[test]
fn header_is_eight_bytes_least_significant_first() {
    assert_eq!(HEADER_LEN, 8);
    assert_eq!(encode_header(0), vec![0, 0, 0, 0, 0, 0, 0, 0]);
    assert_eq!(encode_header(5), vec![5, 0, 0, 0, 0, 0, 0, 0]);
    assert_eq!(encode_header(258), vec![2, 1, 0, 0, 0, 0, 0, 0]);
    assert_eq!(encode_header(0x0102_0304), vec![4, 3, 2, 1, 0, 0, 0, 0]);
    assert_eq!(decode_header(&[2, 1, 0, 0, 0, 0, 0, 0]), 258);
    assert_eq!(decode_header(&[0, 0, 0, 0, 0, 0, 0, 1]), 1 << 56);
}

#[test]
fn frame_is_header_then_payload() {
    assert_eq!(encode_frame(&[]), vec![0, 0, 0, 0, 0, 0, 0, 0]);
    assert_eq!(encode_frame(&[7]), vec![1, 0, 0, 0, 0, 0, 0, 0, 7]);
    assert_eq!(encode_frame(&[9, 8, 7]), vec![3, 0, 0, 0, 0, 0, 0, 0, 9, 8, 7]);
}

#[test]
fn frames_round_trip_for_lengths_zero_one_and_many() {
    for len in [0usize, 1, 2, 8, 255, 256, 1000] {
        let payload = payload_of(len);
        let frame = encode_frame(&payload);
        assert_eq!(frame.len(), len + 8);
        assert_eq!(decode_frame(&frame), Some(payload));
    }
}

#[test]
fn what_is_no_frame_has_no_payload() {
    assert_eq!(decode_frame(&[]), None);
    assert_eq!(decode_frame(&[1, 0, 0, 0, 0, 0, 0]), None);
    assert_eq!(decode_frame(&[1, 0, 0, 0, 0, 0, 0, 0]), None);
    assert_eq!(decode_frame(&[1, 0, 0, 0, 0, 0, 0, 0, 5, 6]), None);
    assert_eq!(decode_frame(&[0, 1, 0, 0, 0, 0, 0, 0, 5]), None);
    assert_eq!(decode_frame(&[2, 0, 0, 0, 0, 0, 0, 0, 5, 6]), Some(vec![5, 6]));
}

#[test]
fn client_and_daemon_exchange_request_and_answer() {
    let request = vec![1u8, 2, 3];
    let answer = payload_of(300);
    let segments = vec![
        PromptSegment { content: "main".to_string(), color: Some(Color::Green) },
        PromptSegment { content: "+2".to_string(), color: None },
    ];

    let (state, action) = get(request.clone());
    assert_eq!(action, ClientAction::Connect);
    let (state, action) = client_step(state, ClientEvent::Connected);
    let sent = match action {
        ClientAction::Send(bytes) => bytes,
        other => panic!("the client does not send: {:?}", other),
    };
    assert_eq!(sent, vec![3, 0, 0, 0, 0, 0, 0, 0, 1, 2, 3]);

    let (daemon, next) = handle_client();
    assert_eq!(next, ConnectionAction::Receive(8));
    let (daemon, next) = connection_step(daemon, ConnectionEvent::Received(sent[..8].to_vec()));
    assert_eq!(next, ConnectionAction::Receive(3));
    let (daemon, next) = connection_step(daemon, ConnectionEvent::Received(sent[8..].to_vec()));
    assert_eq!(next, ConnectionAction::Execute(request));
    let (daemon, next) = connection_step(daemon, ConnectionEvent::Answer(answer.clone()));
    let reply = match next {
        ConnectionAction::Send(bytes) => bytes,
        other => panic!("the daemon does not send: {:?}", other),
    };
    let (daemon, next) = connection_step(daemon, ConnectionEvent::Sent);
    assert_eq!(next, ConnectionAction::Close { served: true });
    assert_eq!(daemon, ConnectionState::Closed);

    let (state, action) = client_step(state, ClientEvent::Sent);
    assert_eq!(action, ClientAction::Receive(8));
    let (state, action) = client_step(state, ClientEvent::Received(reply[..8].to_vec()));
    assert_eq!(action, ClientAction::Receive(300));
    let (state, action) = client_step(state, ClientEvent::Received(reply[8..].to_vec()));
    assert_eq!(action, ClientAction::Decode(answer));
    let (state, action) = client_step(state, ClientEvent::Decoded(segments.clone()));
    assert_eq!(action, ClientAction::Return(segments));
    assert_eq!(state, ClientState::Finished);
}

#[test]
fn without_a_daemon_the_client_returns_nothing() {
    assert_eq!(TIMEOUT_MS, 500);
    let (state, _) = get(vec![1, 2, 3]);
    let (state, action) = client_step(state, ClientEvent::Failed);
    assert_eq!(action, ClientAction::Return(Vec::new()));
    assert_eq!(state, ClientState::Finished);
}

#[test]
fn any_failure_ends_the_exchange_without_segments() {
    let states = vec![
        ClientState::Connecting { request: vec![1] },
        ClientState::Sending,
        ClientState::ReadingHeader,
        ClientState::ReadingPayload { len: 4 },
        ClientState::Decoding,
        ClientState::Finished,
    ];
    for state in states {
        let (next, action) = client_step(state, ClientEvent::Failed);
        assert_eq!(next, ClientState::Finished);
        assert_eq!(action, ClientAction::Return(Vec::new()));
    }
}

#[test]
fn client_gives_up_on_what_it_does_not_await() {
    let (next, action) = client_step(ClientState::ReadingHeader, ClientEvent::Received(vec![1, 2]));
    assert_eq!((next, action), (ClientState::Finished, ClientAction::Return(Vec::new())));
    let (next, action) =
        client_step(ClientState::ReadingPayload { len: 3 }, ClientEvent::Received(vec![1, 2]));
    assert_eq!((next, action), (ClientState::Finished, ClientAction::Return(Vec::new())));
    let (next, action) = client_step(ClientState::Sending, ClientEvent::Connected);
    assert_eq!((next, action), (ClientState::Finished, ClientAction::Return(Vec::new())));
    let (next, action) = client_step(ClientState::Decoding, ClientEvent::Sent);
    assert_eq!((next, action), (ClientState::Finished, ClientAction::Return(Vec::new())));
}

#[test]
fn client_reads_an_empty_answer() {
    let (state, action) =
        client_step(ClientState::ReadingHeader, ClientEvent::Received(vec![0; 8]));
    assert_eq!(state, ClientState::ReadingPayload { len: 0 });
    assert_eq!(action, ClientAction::Receive(0));
    let (state, action) = client_step(state, ClientEvent::Received(Vec::new()));
    assert_eq!(state, ClientState::Decoding);
    assert_eq!(action, ClientAction::Decode(Vec::new()));
}

#[test]
fn a_bad_connection_is_dropped_alone() {
    let (state, _) = handle_client();
    let (state, action) = connection_step(state, ConnectionEvent::Received(vec![1, 2, 3]));
    assert_eq!(state, ConnectionState::Closed);
    assert_eq!(action, ConnectionAction::Close { served: false });
    let (state, action) =
        connection_step(ConnectionState::ReadingPayload { len: 2 }, ConnectionEvent::Failed);
    assert_eq!((state, action), (ConnectionState::Closed, ConnectionAction::Close { served: false }));
    let (state, action) = connection_step(ConnectionState::Executing, ConnectionEvent::Failed);
    assert_eq!((state, action), (ConnectionState::Closed, ConnectionAction::Close { served: false }));
    let (state, action) = connection_step(ConnectionState::Sending, ConnectionEvent::Failed);
    assert_eq!((state, action), (ConnectionState::Closed, ConnectionAction::Close { served: false }));
    let (state, action) =
        connection_step(ConnectionState::ReadingHeader, ConnectionEvent::Answer(vec![1]));
    assert_eq!((state, action), (ConnectionState::Closed, ConnectionAction::Close { served: false }));
}

#[test]
fn only_a_failed_bind_ends_the_daemon() {
    assert_eq!(server(ServerEvent::Started), ServerAction::Bind);
    assert_eq!(server(ServerEvent::Bound), ServerAction::Accept);
    assert_eq!(server(ServerEvent::BindFailed), ServerAction::Abort);
    assert_eq!(server(ServerEvent::Accepted), ServerAction::ServeAndAccept);
    assert_eq!(server(ServerEvent::AcceptFailed), ServerAction::Accept);
}
