use rat::reader::ConnectionReader;
use rat::reader::ReadInput;
use rat::reader::ReaderState;
use rat::registry::Participant;
use rat::registry::Registry;
use rat::registry::RegistryEvent;

fn reader_for(id: u128, name: &str) -> ConnectionReader {
    ConnectionReader::new(Participant { id, name: name.to_string() })
}

#[test]
fn no_data_is_not_an_error() {
    let mut r = reader_for(1, "alice");
    assert!(r.on_read(ReadInput::NoData).is_none());
    assert_eq!(r.state, ReaderState::Running);
}

#[test]
fn frames_become_chat_events() {
    let mut r = reader_for(1, "alice");
    assert!(r.on_read(ReadInput::Data(b"hi\x04the".to_vec())).is_none());
    match r.next_event() {
        Some(RegistryEvent::Chat(p, body)) => {
            assert_eq!(p.id, 1);
            assert_eq!(p.name, "alice");
            assert_eq!(body, "hi");
        },
        other => panic!("expected a chat event, got {:?}", other.is_some()),
    }
    assert!(r.next_event().is_none(), "the second frame is still partial");
    assert!(r.on_read(ReadInput::Data(b"re\x04".to_vec())).is_none());
    match r.next_event() {
        Some(RegistryEvent::Chat(_, body)) => assert_eq!(body, "there"),
        _ => panic!("expected the completed second frame"),
    }
    assert_eq!(r.state, ReaderState::Running);
}

#[test]
fn end_of_stream_yields_one_leave() {
    let mut r = reader_for(7, "bob");
    match r.on_read(ReadInput::Closed) {
        Some(RegistryEvent::Left(p)) => {
            assert_eq!(p.id, 7);
            assert_eq!(p.name, "bob");
        },
        _ => panic!("expected the leave event"),
    }
    assert_eq!(r.state, ReaderState::Closed);
}

#[test]
fn read_failure_yields_one_leave() {
    let mut r = reader_for(7, "bob");
    match r.on_read(ReadInput::Failed) {
        Some(RegistryEvent::Left(p)) => assert_eq!(p.id, 7),
        _ => panic!("expected the leave event"),
    }
    assert_eq!(r.state, ReaderState::Errored);
}

#[test]
fn malformed_frame_closes_only_that_connection() {
    // A delimiter in the middle of what the peer meant as one payload cuts
    // a multi-byte character in two: the first frame is not UTF-8.
    let mut bad = reader_for(1, "alice");
    assert!(bad.on_read(ReadInput::Data(vec![0xc3, 0x04, 0xa9, 0x04])).is_none());
    let left = match bad.next_event() {
        Some(RegistryEvent::Left(p)) => p,
        _ => panic!("expected the protocol violation to yield the leave event"),
    };
    assert_eq!(bad.state, ReaderState::Errored);

    // Other connections are unaffected: the registry only drops the violator
    // and everyone else still hears from everyone else.
    let mut reg = Registry::new();
    reg.handle_event(RegistryEvent::Joined(Participant { id: 1, name: "alice".to_string() }));
    reg.handle_event(RegistryEvent::Joined(Participant { id: 2, name: "bob".to_string() }));
    reg.handle_event(RegistryEvent::Joined(Participant { id: 3, name: "carol".to_string() }));
    reg.handle_event(RegistryEvent::Left(left));
    assert!(!reg.contains_id(1));
    assert!(reg.contains_id(2));
    assert!(reg.contains_id(3));
    let chat = reg.handle_event(RegistryEvent::Chat(
        Participant { id: 2, name: "bob".to_string() },
        "still here".to_string(),
    ));
    assert_eq!(chat.len(), 1);
    assert_eq!(chat[0].to, 3);
    assert_eq!(chat[0].message, "Chat\nbob\nstill here");
}
