use signalr::client::ChatClient;
use signalr::connection::{
    Invocation, InvokeError, InvokeOutcome, ReaderEvent, Receipt, SignalRConnection,
};
use signalr::handshake::{ConnectError, HandshakeState};
use signalr::message::ProtocolError;

fn ready(handlers: &[(&str, u32)]) -> SignalRConnection<u32> {
    let mut c: SignalRConnection<u32> = SignalRConnection::new("ws://localhost/hub");
    for (t, h) in handlers {
        c.on(t, *h);
    }
    assert!(c.connect());
    assert_eq!(c.transport_opened().unwrap(), "{\"protocol\":\"json\",\"version\":1}\u{1e}");
    let r = c.receive("{}\u{1e}");
    assert_eq!(r.handshake, Some(Ok(())));
    assert_eq!(c.current_state(), HandshakeState::Ready);
    c
}

fn strings(items: &[&str]) -> Vec<String> {
    items.iter().map(|s| s.to_string()).collect()
}

#[test]
fn handshake_success_makes_connection_ready() {
    let mut c: SignalRConnection<u32> = SignalRConnection::new("ws://h");
    assert_eq!(c.url_text(), "ws://h");
    assert_eq!(c.current_state(), HandshakeState::Idle);
    assert!(c.connect());
    assert!(!c.connect());
    assert_eq!(c.current_state(), HandshakeState::AwaitingTransportOpen);
    assert_eq!(c.transport_opened().unwrap(), "{\"protocol\":\"json\",\"version\":1}\u{1e}");
    assert_eq!(c.transport_opened(), None);
    let r = c.receive("{\"error\":null}\u{1e}");
    assert_eq!(r, Receipt { handshake: Some(Ok(())), events: Vec::new() });
    assert_eq!(c.current_state(), HandshakeState::Ready);
}

#[test]
fn handshake_rejection_fails_the_connection() {
    let mut c: SignalRConnection<u32> = SignalRConnection::new("ws://h");
    c.connect();
    c.transport_opened();
    let r = c.receive("{\"error\":\"bad version\"}\u{1e}");
    let err = ConnectError::HandshakeError("bad version".to_string());
    assert_eq!(r.handshake, Some(Err(err.clone())));
    assert_eq!(c.current_state(), HandshakeState::Failed(err));
    assert_eq!(c.send_invocation("X", &Vec::new()), Err(InvokeError::ConnectionClosed));
}

#[test]
fn handshake_response_split_across_chunks_and_followed_by_messages() {
    let mut c: SignalRConnection<u32> = SignalRConnection::new("ws://h");
    c.connect();
    c.transport_opened();
    assert_eq!(c.receive("{\"err").handshake, None);
    let r = c.receive("or\":null}\u{1e}{\"type\":6}\u{1e}");
    assert_eq!(r.handshake, Some(Ok(())));
    assert_eq!(r.events, vec![ReaderEvent::Ping]);
}

#[test]
fn transport_close_during_handshake_is_a_transport_error() {
    let mut c: SignalRConnection<u32> = SignalRConnection::new("ws://h");
    c.connect();
    assert!(c.transport_closed("refused".to_string()).is_empty());
    assert_eq!(
        c.current_state(),
        HandshakeState::Failed(ConnectError::TransportError("refused".to_string()))
    );
}

#[test]
fn invoke_sends_the_exact_frame_and_completion_resolves_it() {
    let mut c = ready(&[]);
    let inv = c.send_invocation("SendMessage", &strings(&["\"alice\"", "\"hi\""])).unwrap();
    assert_eq!(
        inv,
        Invocation {
            invocation_id: 1,
            frame: "{\"type\":1,\"invocationId\":\"1\",\"target\":\"SendMessage\",\"arguments\":[\"alice\",\"hi\"]}\u{1e}".to_string(),
        }
    );
    let r = c.receive("{\"type\":3,\"invocationId\":\"1\",\"result\":null}\u{1e}");
    assert_eq!(
        r.events,
        vec![ReaderEvent::Completed {
            invocation_id: 1,
            outcome: InvokeOutcome::Returned(Some("null".to_string())),
        }]
    );
    let again = c.receive("{\"type\":3,\"invocationId\":\"1\",\"result\":null}\u{1e}");
    assert_eq!(
        again.events,
        vec![ReaderEvent::UnknownInvocation { invocation_id: "1".to_string() }]
    );
}

#[test]
fn completion_with_result_or_error() {
    let mut c = ready(&[]);
    let a = c.send_invocation("Add", &strings(&["1", "2"])).unwrap().invocation_id;
    let b = c.send_invocation("Fail", &Vec::new()).unwrap().invocation_id;
    let r = c.receive(
        "{\"type\":3,\"invocationId\":\"2\",\"error\":\"no such method\"}\u{1e}{\"type\":3,\"invocationId\":\"1\",\"result\":{\"sum\":3}}\u{1e}",
    );
    assert_eq!(
        r.events,
        vec![
            ReaderEvent::Completed {
                invocation_id: b,
                outcome: InvokeOutcome::ServerError("no such method".to_string()),
            },
            ReaderEvent::Completed {
                invocation_id: a,
                outcome: InvokeOutcome::Returned(Some("{\"sum\":3}".to_string())),
            },
        ]
    );
    let c2 = c.send_invocation("NoResult", &Vec::new()).unwrap().invocation_id;
    let r2 = c.receive("{\"type\":3,\"invocationId\":\"3\"}\u{1e}");
    assert_eq!(
        r2.events,
        vec![ReaderEvent::Completed { invocation_id: c2, outcome: InvokeOutcome::Returned(None) }]
    );
}

#[test]
fn invocation_ids_increase_even_after_failures() {
    let mut c = ready(&[]);
    let first = c.send_invocation("A", &Vec::new()).unwrap().invocation_id;
    assert!(c.abandon(first));
    assert!(!c.abandon(first));
    assert_eq!(c.send_invocation("A", &strings(&["{bad"])), Err(InvokeError::InvalidArgument));
    let second = c.send_invocation("A", &Vec::new()).unwrap().invocation_id;
    let third = c.send_invocation("A", &Vec::new()).unwrap().invocation_id;
    assert_eq!((first, second, third), (1, 2, 3));
}

#[test]
fn never_issued_completion_is_reported_and_leaves_pending_alone() {
    let mut c = ready(&[]);
    let id = c.send_invocation("A", &Vec::new()).unwrap().invocation_id;
    let r = c.receive("{\"type\":3,\"invocationId\":\"42\",\"result\":1}\u{1e}");
    assert_eq!(
        r.events,
        vec![ReaderEvent::UnknownInvocation { invocation_id: "42".to_string() }]
    );
    assert_eq!(c.close(), vec![id]);
}

#[test]
fn unregistered_target_is_dropped() {
    let mut c = ready(&[("ReceiveMessage", 9)]);
    let id = c.send_invocation("A", &Vec::new()).unwrap().invocation_id;
    let r = c.receive(
        "{\"type\":1,\"target\":\"Other\",\"arguments\":[]}\u{1e}{\"type\":1,\"target\":\"ReceiveMessage\",\"arguments\":[\"\\\"u\\\"\",\"m\"]}\u{1e}",
    );
    assert_eq!(
        r.events,
        vec![
            ReaderEvent::Unhandled { target: "Other".to_string() },
            ReaderEvent::Dispatched {
                handler: 0,
                arguments: vec!["\"\\\"u\\\"\"".to_string(), "\"m\"".to_string()],
            },
        ]
    );
    assert_eq!(*c.handler(0), 9);
    assert_eq!(c.close(), vec![id]);
}

#[test]
fn registering_twice_replaces_the_handler() {
    let mut c = ready(&[("T", 1), ("U", 2), ("T", 3)]);
    let r = c.receive("{\"type\":1,\"target\":\"T\",\"arguments\":[]}\u{1e}");
    assert_eq!(r.events, vec![ReaderEvent::Dispatched { handler: 0, arguments: Vec::new() }]);
    assert_eq!(*c.handler(0), 3);
    assert_eq!(*c.handler(1), 2);
}

#[test]
fn malformed_frame_does_not_end_the_connection() {
    let mut c = ready(&[]);
    let r = c.receive("{oops}\u{1e}{\"type\":2}\u{1e}{\"type\":6}\u{1e}");
    assert_eq!(
        r.events,
        vec![
            ReaderEvent::Undecodable(ProtocolError::MalformedMessage),
            ReaderEvent::Undecodable(ProtocolError::UnsupportedType(2)),
            ReaderEvent::Ping,
        ]
    );
    assert_eq!(c.current_state(), HandshakeState::Ready);
}

#[test]
fn close_resolves_every_pending_invocation() {
    let mut c = ready(&[]);
    let a = c.send_invocation("A", &Vec::new()).unwrap().invocation_id;
    let b = c.send_invocation("B", &Vec::new()).unwrap().invocation_id;
    assert_eq!(c.transport_closed("gone".to_string()), vec![a, b]);
    assert_eq!(c.current_state(), HandshakeState::Closed);
    assert_eq!(c.send_invocation("C", &Vec::new()), Err(InvokeError::ConnectionClosed));
    assert!(c.close().is_empty());
    assert_eq!(c.receive("{\"type\":6}\u{1e}").events, Vec::new());
}

#[test]
fn invoke_before_handshake_is_not_connected() {
    let mut c: SignalRConnection<u32> = SignalRConnection::new("ws://h");
    assert_eq!(c.send_invocation("A", &Vec::new()), Err(InvokeError::NotConnected));
    c.connect();
    c.transport_opened();
    assert_eq!(c.send_invocation("A", &Vec::new()), Err(InvokeError::NotConnected));
}

#[test]
fn chat_client_sends_user_and_message() {
    let mut client: ChatClient<u32> = ChatClient::new("ws://chat", "alice".to_string());
    assert!(client.connect());
    client.connection.transport_opened();
    client.connection.receive("{}\u{1e}");
    client.on_message_received(5);
    let inv = client.send_message("hi \"there\"").unwrap();
    assert_eq!(
        inv.frame,
        "{\"type\":1,\"invocationId\":\"1\",\"target\":\"SendMessage\",\"arguments\":[\"alice\",\"hi \\\"there\\\"\"]}\u{1e}"
    );
    client.set_user("bob".to_string());
    assert_eq!(client.user, "bob");
    let inv2 = client.send_message("yo").unwrap();
    assert_eq!(inv2.invocation_id, 2);
    assert!(inv2.frame.contains("[\"bob\",\"yo\"]"));
    let r = client.connection.receive(
        "{\"type\":1,\"target\":\"ReceiveMessage\",\"arguments\":[\"carol\",\"hey\"]}\u{1e}",
    );
    assert_eq!(
        r.events,
        vec![ReaderEvent::Dispatched { handler: 0, arguments: vec!["\"carol\"".to_string(), "\"hey\"".to_string()] }]
    );
}
