use rat::error::RatError;
use rat::session::Command;
use rat::session::UiEvent;
use rat::session::WriterAction;
use rat::session::execute_command;
use rat::session::on_server_frame;
use rat::session::participant_from_handshake;

#[test]
fn shutdown_closes_the_stream() {
    assert!(matches!(execute_command(&Command::Shutdown), Ok(WriterAction::Close)));
}

#[test]
fn send_raw_frames_the_text() {
    match execute_command(&Command::SendRaw("hello".to_string())) {
        Ok(WriterAction::Write(bytes)) => assert_eq!(bytes, b"hello\x04".to_vec()),
        _ => panic!("expected a framed write"),
    }
}

#[test]
fn send_raw_refuses_the_delimiter() {
    let r = execute_command(&Command::SendRaw("a\u{4}b".to_string()));
    assert!(matches!(r, Err(RatError::InvalidEncoding)));
}

#[test]
fn handshake_names_the_participant() {
    let p = participant_from_handshake(b"alice".to_vec()).expect("a plain name decodes");
    assert_eq!(p.name, "alice");
}

#[test]
fn handshake_draws_a_fresh_identity() {
    let p = participant_from_handshake(b"alice".to_vec()).expect("decodes");
    let q = participant_from_handshake(b"alice".to_vec()).expect("decodes");
    assert_ne!(p.id, q.id);
}

#[test]
fn handshake_rejects_bad_encoding() {
    let r = participant_from_handshake(vec![0xff, 0xfe]);
    assert!(matches!(r, Err(RatError::InvalidEncoding)));
}

#[test]
fn chat_frames_reach_the_ui() {
    match on_server_frame(b"Chat\nalice\nhello".to_vec()) {
        Ok(UiEvent::Chat { sender, body }) => {
            assert_eq!(sender, "alice");
            assert_eq!(body, "hello");
        },
        _ => panic!("expected a chat event"),
    }
}

#[test]
fn chat_bodies_may_hold_newlines() {
    match on_server_frame(b"Chat\nalice\ntwo\nlines".to_vec()) {
        Ok(UiEvent::Chat { sender, body }) => {
            assert_eq!(sender, "alice");
            assert_eq!(body, "two\nlines");
        },
        _ => panic!("expected a chat event"),
    }
}

#[test]
fn join_and_leave_frames_reach_the_ui() {
    assert!(matches!(
        on_server_frame(b"JoinEvent\nbob".to_vec()),
        Ok(UiEvent::Joined(name)) if name == "bob"
    ));
    assert!(matches!(
        on_server_frame(b"LeaveEvent\nbob".to_vec()),
        Ok(UiEvent::Left(name)) if name == "bob"
    ));
}

#[test]
fn a_tagless_frame_is_a_protocol_violation() {
    match on_server_frame(b"no tag here".to_vec()) {
        Err(RatError::InvalidMessage(m)) => assert_eq!(m, "no tag here"),
        _ => panic!("expected a protocol violation"),
    }
}

#[test]
fn an_unknown_tag_is_a_protocol_violation() {
    match on_server_frame(b"Whisper\nbob\npst".to_vec()) {
        Err(RatError::InvalidMessage(m)) => assert_eq!(m, "Whisper\nbob\npst"),
        _ => panic!("expected a protocol violation"),
    }
}

#[test]
fn a_chat_frame_without_a_body_line_is_refused() {
    assert!(matches!(
        on_server_frame(b"Chat\nalice".to_vec()),
        Err(RatError::InvalidMessage(_))
    ));
}

#[test]
fn undecodable_frames_are_refused() {
    assert!(matches!(
        on_server_frame(vec![0xc3, 0x28]),
        Err(RatError::InvalidEncoding)
    ));
}
