use rat::envelope::Envelope;
use rat::registry::Delivery;
use rat::registry::Participant;
use rat::registry::Registry;
use rat::registry::RegistryEvent;

const ALICE: u128 = 1;
const BOB: u128 = 2;
const CAROL: u128 = 3;

fn participant(id: u128, name: &str) -> Participant {
    Participant { id, name: name.to_string() }
}

fn messages_to(deliveries: &[Delivery], id: u128) -> Vec<String> {
    deliveries.iter().filter(|d| d.to == id).map(|d| d.message.clone()).collect()
}

#[test]
fn removing_an_absent_id_is_a_no_op() {
    let mut reg = Registry::new();
    reg.handle_event(RegistryEvent::Joined(participant(ALICE, "alice")));
    assert_eq!(reg.count(), 1);
    reg.remove(BOB);
    assert_eq!(reg.count(), 1);
    assert!(reg.contains_id(ALICE));
    reg.remove(BOB);
    assert_eq!(reg.count(), 1);
}

#[test]
fn broadcast_never_addresses_the_sender() {
    let mut reg = Registry::new();
    reg.handle_event(RegistryEvent::Joined(participant(ALICE, "alice")));
    reg.handle_event(RegistryEvent::Joined(participant(BOB, "bob")));
    reg.handle_event(RegistryEvent::Joined(participant(CAROL, "carol")));
    let env = Envelope::Chat { sender: "alice".to_string(), body: "hi".to_string() };
    let out = reg.broadcast(ALICE, &env);
    assert_eq!(out.len(), 2);
    assert!(out.iter().all(|d| d.to != ALICE));
}

#[test]
fn broadcast_reaches_every_other_participant() {
    let mut reg = Registry::new();
    reg.handle_event(RegistryEvent::Joined(participant(ALICE, "alice")));
    reg.handle_event(RegistryEvent::Joined(participant(BOB, "bob")));
    reg.handle_event(RegistryEvent::Joined(participant(CAROL, "carol")));
    // One recipient's stream failing while the fan-out is written out is the
    // writers' affair: the enqueued batch itself addresses all the others,
    // and the registry still holds every participant afterwards.
    let out = reg.handle_event(RegistryEvent::Chat(participant(ALICE, "alice"), "hi".to_string()));
    assert_eq!(messages_to(&out, BOB), vec!["Chat\nalice\nhi".to_string()]);
    assert_eq!(messages_to(&out, CAROL), vec!["Chat\nalice\nhi".to_string()]);
    assert_eq!(reg.count(), 3);
    assert!(reg.contains_id(BOB));
}

#[test]
fn two_party_chat() {
    let mut reg = Registry::new();
    let none = reg.handle_event(RegistryEvent::Joined(participant(ALICE, "alice")));
    assert!(none.is_empty());
    let join = reg.handle_event(RegistryEvent::Joined(participant(BOB, "bob")));
    assert_eq!(messages_to(&join, ALICE), vec!["JoinEvent\nbob".to_string()]);
    assert!(messages_to(&join, BOB).is_empty());
    let chat = reg.handle_event(RegistryEvent::Chat(
        participant(ALICE, "alice"),
        "hello".to_string(),
    ));
    assert_eq!(messages_to(&chat, BOB), vec!["Chat\nalice\nhello".to_string()]);
    assert!(messages_to(&chat, ALICE).is_empty());
}

#[test]
fn leave_notification() {
    let mut reg = Registry::new();
    reg.handle_event(RegistryEvent::Joined(participant(ALICE, "alice")));
    reg.handle_event(RegistryEvent::Joined(participant(BOB, "bob")));
    let leave = reg.handle_event(RegistryEvent::Left(participant(BOB, "bob")));
    assert_eq!(messages_to(&leave, ALICE), vec!["LeaveEvent\nbob".to_string()]);
    assert!(messages_to(&leave, BOB).is_empty());
    assert!(!reg.contains_id(BOB));
    assert_eq!(reg.count(), 1);
    let chat = reg.handle_event(RegistryEvent::Chat(
        participant(ALICE, "alice"),
        "anyone?".to_string(),
    ));
    assert!(messages_to(&chat, BOB).is_empty());
    assert!(chat.is_empty());
}

#[test]
fn events_keep_their_arrival_order() {
    let mut reg = Registry::new();
    let mut all: Vec<Delivery> = Vec::new();
    all.extend(reg.handle_event(RegistryEvent::Joined(participant(ALICE, "alice"))));
    all.extend(reg.handle_event(RegistryEvent::Joined(participant(BOB, "bob"))));
    all.extend(reg.handle_event(RegistryEvent::Chat(
        participant(ALICE, "alice"),
        "hi".to_string(),
    )));
    // B, having joined after A's join was fanned out, sees exactly A's chat;
    // A sees exactly B's join notice, never its own join or its own chat.
    assert_eq!(messages_to(&all, BOB), vec!["Chat\nalice\nhi".to_string()]);
    assert_eq!(messages_to(&all, ALICE), vec!["JoinEvent\nbob".to_string()]);
}

#[test]
fn duplicate_keeps_identity_and_name() {
    let p = participant(ALICE, "alice");
    let q = p.duplicate();
    assert_eq!(q.id, p.id);
    assert_eq!(q.name, p.name);
}
