use signalr::client::{string_arguments, ArgumentError};
use signalr::counter::{CounterFuture, CounterPoll};
use signalr::frame::{split_frames, FrameBuffer};
use signalr::handshake::{handshake_request, read_handshake_response, ConnectError};
use signalr::message::{
    decode_message, write_invocation, CompletionMessage, InvocationMessage, ProtocolError,
    SignalRMessage,
};
use signalr::text::{join, same_text, write_decimal};

fn strings(items: &[&str]) -> Vec<String> {
    items.iter().map(|s| s.to_string()).collect()
}

#[test]
fn chunk_with_two_messages_gives_two_messages_in_order() {
    let chunk = "{\"type\":6}\u{1e}{\"type\":3,\"invocationId\":\"1\",\"result\":null}\u{1e}";
    let frames = split_frames(chunk);
    assert_eq!(frames.len(), 2);
    assert_eq!(decode_message(&frames[0]), Ok(SignalRMessage::Ping));
    assert_eq!(
        decode_message(&frames[1]),
        Ok(SignalRMessage::Completion(CompletionMessage::new(
            "1".to_string(),
            Some("null".to_string()),
            None
        )))
    );
}

#[test]
fn empty_frames_and_unterminated_text_are_not_frames() {
    assert_eq!(split_frames("a\u{1e}\u{1e}b\u{1e}c"), strings(&["a", "b"]));
    assert!(split_frames("").is_empty());
    assert!(split_frames("\u{1e}\u{1e}").is_empty());
}

#[test]
fn frame_buffer_reassembles_a_split_message() {
    let mut buffer = FrameBuffer::new();
    assert!(buffer.push("{\"type\"").is_empty());
    assert_eq!(buffer.push(":6}\u{1e}{\"ty"), strings(&["{\"type\":6}"]));
    assert_eq!(buffer.push("pe\":6}\u{1e}"), strings(&["{\"type\":6}"]));
    assert!(buffer.push("").is_empty());
}

#[test]
fn decodes_an_invocation() {
    let m = decode_message(
        "{\"type\":1,\"target\":\"ReceiveMessage\",\"arguments\":[\"bob\",{\"x\":[1,2]}]}",
    );
    assert_eq!(
        m,
        Ok(SignalRMessage::Invocation(InvocationMessage {
            invocation_id: None,
            target: "ReceiveMessage".to_string(),
            arguments: strings(&["\"bob\"", "{\"x\":[1,2]}"]),
        }))
    );
    let with_id = decode_message("{\"type\":1,\"invocationId\":\"7\",\"target\":\"T\",\"arguments\":[]}");
    assert_eq!(
        with_id,
        Ok(SignalRMessage::Invocation(InvocationMessage::new(
            "7".to_string(),
            "T".to_string(),
            Vec::new()
        )))
    );
}

#[test]
fn decodes_a_completion_with_an_error() {
    let m = decode_message("{\"type\":3,\"invocationId\":\"2\",\"error\":\"boom\"}");
    assert_eq!(
        m,
        Ok(SignalRMessage::Completion(CompletionMessage::new(
            "2".to_string(),
            None,
            Some("boom".to_string())
        )))
    );
}

#[test]
fn decode_errors() {
    assert_eq!(decode_message("{\"target\":\"x\"}"), Err(ProtocolError::MissingTag));
    assert_eq!(decode_message("{\"type\":\"1\"}"), Err(ProtocolError::MissingTag));
    for code in [2u64, 4, 5, 7, 0, 99] {
        let frame = format!("{{\"type\":{}}}", code);
        assert_eq!(decode_message(&frame), Err(ProtocolError::UnsupportedType(code)));
    }
    assert_eq!(decode_message("not json"), Err(ProtocolError::MalformedMessage));
    assert_eq!(decode_message("[1,2]"), Err(ProtocolError::MalformedMessage));
    assert_eq!(
        decode_message("{\"type\":1,\"target\":5,\"arguments\":[]}"),
        Err(ProtocolError::MalformedMessage)
    );
    assert_eq!(
        decode_message("{\"type\":1,\"target\":\"x\"}"),
        Err(ProtocolError::MalformedMessage)
    );
    assert_eq!(
        decode_message("{\"type\":3,\"result\":1}"),
        Err(ProtocolError::MalformedMessage)
    );
    assert_eq!(
        decode_message("{\"type\":3,\"invocationId\":\"1\",\"error\":3}"),
        Err(ProtocolError::MalformedMessage)
    );
}

#[test]
fn invocation_frame_is_bit_exact() {
    let frame = write_invocation("1", "SendMessage", &strings(&["\"alice\"", "\"hi\""]));
    assert_eq!(
        frame,
        "{\"type\":1,\"invocationId\":\"1\",\"target\":\"SendMessage\",\"arguments\":[\"alice\",\"hi\"]}\u{1e}"
    );
    let escaped = write_invocation("12", "Say \"x\"", &Vec::new());
    assert_eq!(
        escaped,
        "{\"type\":1,\"invocationId\":\"12\",\"target\":\"Say \\\"x\\\"\",\"arguments\":[]}\u{1e}"
    );
}

#[test]
fn handshake_request_text() {
    assert_eq!(handshake_request(), "{\"protocol\":\"json\",\"version\":1}\u{1e}");
}

#[test]
fn handshake_responses() {
    assert_eq!(read_handshake_response("{\"error\":null}"), Ok(()));
    assert_eq!(read_handshake_response("{}"), Ok(()));
    assert_eq!(
        read_handshake_response("{\"error\":\"bad version\"}"),
        Err(ConnectError::HandshakeError("bad version".to_string()))
    );
    assert_eq!(read_handshake_response("nope"), Err(ConnectError::InvalidResponse));
    assert_eq!(read_handshake_response("{\"error\":1}"), Err(ConnectError::InvalidResponse));
}

#[test]
fn decimal_writing() {
    assert_eq!(write_decimal(0), "0");
    assert_eq!(write_decimal(7), "7");
    assert_eq!(write_decimal(1234), "1234");
    assert_eq!(write_decimal(u64::MAX), "18446744073709551615");
}

#[test]
fn text_helpers() {
    assert!(same_text("abc", "abc"));
    assert!(!same_text("abc", "abd"));
    assert!(!same_text("ab", "abc"));
    assert_eq!(join(&strings(&["1", "\"a\"", "null"])), "1,\"a\",null");
    assert_eq!(join(&Vec::new()), "");
}

#[test]
fn handler_arguments_are_read_in_order() {
    let args = strings(&["\"alice\"", "\"hi\"", "3"]);
    assert_eq!(string_arguments(&args, 2), Ok(strings(&["alice", "hi"])));
    assert_eq!(string_arguments(&args, 3), Err(ArgumentError::Undecodable(2)));
    assert_eq!(string_arguments(&args, 4), Err(ArgumentError::Missing));
    assert_eq!(string_arguments(&strings(&["\"a\\nb\""]), 1), Ok(strings(&["a\nb"])));
}

#[test]
fn counter_future_is_ready_on_fifth_poll() {
    let mut f = CounterFuture::new();
    for _ in 0..4 {
        assert_eq!(f.poll_step(), CounterPoll::Pending);
    }
    assert_eq!(f.poll_step(), CounterPoll::Ready);
    assert_eq!(f.counter(), 5);
    assert_eq!(f.poll_step(), CounterPoll::Ready);
}
