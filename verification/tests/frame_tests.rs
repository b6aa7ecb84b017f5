use word_counter::error::ErrorKind;
use word_counter::frame::{body_length, body_text, decode, encode, FrameError};
use word_counter::server::{Answer, Connection, ConnectionAction, ConnectionEvent, LBServer};

const REQUEST: &str = "{\"word\":\"world\",\"file_name\":\"text1.txt\"}";

#[test]
fn request_is_framed_with_its_length_in_front() {
    let frame = encode(REQUEST).unwrap();
    assert_eq!(REQUEST.len(), 40);
    assert_eq!(&frame[..4], &[0, 0, 0, 40]);
    assert_eq!(&frame[4..], REQUEST.as_bytes());
    assert_eq!(decode(&frame), Ok(REQUEST.to_string()));
    assert_eq!(LBServer::send_response(REQUEST).unwrap(), frame);
}

#[test]
fn frames_round_trip() {
    let long = "x".repeat(70_000);
    for payload in ["", "a", "{\"count\":7,\"status_code\":0}", "gr\u{fc}\u{df}e \u{1f600}", long.as_str()] {
        let frame = encode(payload).unwrap();
        assert_eq!(frame.len(), payload.len() + 4);
        assert_eq!(decode(&frame), Ok(payload.to_string()));
    }
    let frame = encode(long.as_str()).unwrap();
    assert_eq!(&frame[..4], &[0, 1, 0x11, 0x70]);
}

#[test]
fn length_prefix_is_big_endian() {
    assert_eq!(body_length(&[0, 0, 0, 0]), Ok(0));
    assert_eq!(body_length(&[0, 0, 1, 2]), Ok(258));
    assert_eq!(body_length(&[1, 2, 3, 4]), Ok(0x0102_0304));
    assert_eq!(body_length(&[0xff, 0xff, 0xff, 0xff]), Ok(u32::MAX as usize));
    assert_eq!(body_length(&[0, 0, 1]), Err(FrameError::TruncatedLength));
    assert_eq!(body_length(&[]), Err(FrameError::TruncatedLength));
    assert_eq!(body_length(&[0, 0, 0, 1, 0]), Err(FrameError::TruncatedLength));
}

#[test]
fn frame_that_declares_more_than_it_holds_is_rejected() {
    let mut frame = encode("hello").unwrap();
    frame.pop();
    assert_eq!(decode(&frame), Err(FrameError::TruncatedBody));
    assert_eq!(FrameError::TruncatedBody.kind(), ErrorKind::Transport);
    assert_eq!(decode(&[0, 0, 0, 2, b'a']), Err(FrameError::TruncatedBody));
    assert_eq!(decode(&[0, 0, 0]), Err(FrameError::TruncatedLength));
    assert_eq!(FrameError::TruncatedLength.kind(), ErrorKind::Transport);
    assert_eq!(body_text(3, vec![b'a', b'b']), Err(FrameError::TruncatedBody));
    assert_eq!(body_text(1, vec![b'a', b'b']), Err(FrameError::TruncatedBody));
}

#[test]
fn frame_reads_no_further_than_its_length() {
    assert_eq!(decode(&[0, 0, 0, 2, b'o', b'k', b'!', b'!']), Ok("ok".to_string()));
    assert_eq!(decode(&[0, 0, 0, 0, 0xff]), Ok(String::new()));
}

#[test]
fn payload_that_is_not_utf8_is_rejected() {
    assert_eq!(decode(&[0, 0, 0, 2, 0xc3, 0x28]), Err(FrameError::InvalidUtf8));
    assert_eq!(body_text(1, vec![0xff]), Err(FrameError::InvalidUtf8));
    assert_eq!(body_text(2, vec![0xc3, 0xa9]), Ok("\u{e9}".to_string()));
    assert_eq!(LBServer::read_request(2, vec![0xc3, 0xa9]), Ok("\u{e9}".to_string()));
    assert_eq!(LBServer::read_request(3, vec![0xed, 0xa0, 0x80]), Err(FrameError::InvalidUtf8));
}

fn is_failure(action: &ConnectionAction) -> bool {
    match action {
        ConnectionAction::Reply { answer: Answer::Failure(response) } => {
            response.count == 0
                && response.status_code == -1
                && response.status_message == "some error occurred..."
                && response.log_id == "0"
        }
        _ => false,
    }
}

#[test]
fn connection_reads_routes_and_answers_once() {
    let frame = encode(REQUEST).unwrap();
    let (state, action) =
        LBServer::handle_connection(Connection::AwaitLength, ConnectionEvent::Read(frame[..4].to_vec()));
    assert!(matches!(state, Connection::AwaitBody { len: 40 }));
    assert!(matches!(action, ConnectionAction::Read { len: 40 }));
    let (state, action) = LBServer::handle_connection(state, ConnectionEvent::Read(frame[4..].to_vec()));
    assert!(matches!(state, Connection::AwaitReply));
    match action {
        ConnectionAction::Route { request } => assert_eq!(request, REQUEST),
        _ => panic!("the request is to be routed"),
    }
    let response = "{\"count\":7,\"status_code\":0,\"status_message\":\"ok\",\"log_id\":\"\"}";
    let (state, action) =
        LBServer::handle_connection(state, ConnectionEvent::Handled(response.to_string()));
    assert!(matches!(state, Connection::Closed));
    match action {
        ConnectionAction::Reply { answer: Answer::Response(text) } => assert_eq!(text, response),
        _ => panic!("the response is to be sent"),
    }
    let (state, action) = LBServer::handle_connection(state, ConnectionEvent::HandleFailed);
    assert!(matches!(state, Connection::Closed));
    assert!(matches!(action, ConnectionAction::Ignore));
}

#[test]
fn truncated_length_prefix_is_answered_with_the_failure_response() {
    let (state, action) =
        LBServer::handle_connection(Connection::AwaitLength, ConnectionEvent::Read(vec![0, 0, 0]));
    assert!(matches!(state, Connection::Closed));
    assert!(is_failure(&action));
}

#[test]
fn every_failure_on_a_connection_is_answered_with_the_failure_response() {
    let (state, action) =
        LBServer::handle_connection(Connection::AwaitBody { len: 5 }, ConnectionEvent::Read(vec![b'a'; 4]));
    assert!(matches!(state, Connection::Closed));
    assert!(is_failure(&action));
    let (state, action) =
        LBServer::handle_connection(Connection::AwaitBody { len: 1 }, ConnectionEvent::Read(vec![0x80]));
    assert!(matches!(state, Connection::Closed));
    assert!(is_failure(&action));
    for state in [Connection::AwaitLength, Connection::AwaitBody { len: 3 }, Connection::AwaitReply] {
        let (state, action) = LBServer::handle_connection(state, ConnectionEvent::HandleFailed);
        assert!(matches!(state, Connection::Closed));
        assert!(is_failure(&action));
    }
}

#[test]
fn events_out_of_turn_change_nothing() {
    let (state, action) =
        LBServer::handle_connection(Connection::AwaitReply, ConnectionEvent::Read(vec![1, 2, 3, 4]));
    assert!(matches!(state, Connection::AwaitReply));
    assert!(matches!(action, ConnectionAction::Ignore));
    let (state, action) =
        LBServer::handle_connection(Connection::AwaitLength, ConnectionEvent::Handled(String::new()));
    assert!(matches!(state, Connection::AwaitLength));
    assert!(matches!(action, ConnectionAction::Ignore));
    let (state, action) =
        LBServer::handle_connection(Connection::Closed, ConnectionEvent::Read(vec![0, 0, 0, 0]));
    assert!(matches!(state, Connection::Closed));
    assert!(matches!(action, ConnectionAction::Ignore));
}
