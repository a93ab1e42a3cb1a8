use rat::envelope::Envelope;
use rat::envelope::parse_envelope;
use rat::envelope::render;
use rat::error::RatError;

#[test]
fn chat_renders_tagged_lines() {
    let env = Envelope::Chat { sender: "alice".to_string(), body: "hello".to_string() };
    assert_eq!(render(&env), "Chat\nalice\nhello");
}

#[test]
fn join_and_leave_render_tagged_lines() {
    assert_eq!(render(&Envelope::Join { name: "bob".to_string() }), "JoinEvent\nbob");
    assert_eq!(render(&Envelope::Leave { name: "bob".to_string() }), "LeaveEvent\nbob");
}

#[test]
fn rendered_envelopes_parse_back() {
    let cases = vec![
        Envelope::Chat { sender: "alice".to_string(), body: "hi\nthere".to_string() },
        Envelope::Join { name: "bob".to_string() },
        Envelope::Leave { name: "carol".to_string() },
    ];
    for env in cases {
        let text = render(&env);
        let back = parse_envelope(&text).expect("rendered envelopes are well formed");
        assert_eq!(back, env);
    }
}

#[test]
fn an_empty_body_is_allowed() {
    let back = parse_envelope("Chat\nalice\n").expect("empty bodies parse");
    assert_eq!(back, Envelope::Chat { sender: "alice".to_string(), body: String::new() });
}

#[test]
fn a_text_without_newline_is_refused() {
    match parse_envelope("Chat") {
        Err(RatError::InvalidMessage(m)) => assert_eq!(m, "Chat"),
        _ => panic!("expected a protocol violation"),
    }
}

#[test]
fn error_messages_name_the_problem() {
    assert_eq!(RatError::InvalidEncoding.message(), "invalid encoding");
    assert_eq!(
        RatError::InvalidMessage("xyz".to_string()).message(),
        "invalid message: xyz"
    );
    assert_eq!(
        RatError::UnknownOption("loud".to_string()).message(),
        "unknown option: loud"
    );
    assert_eq!(RatError::ConfigDir.message(), "no configuration directory");
}
