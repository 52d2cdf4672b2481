use coffee_chat::bus::MessageBus;
use coffee_chat::message::Message;

fn text(sender: u128, body: &str) -> Message {
    Message::TextChat(sender, String::from(body))
}

fn body(message: Option<Message>) -> String {
    match message {
        Some(Message::TextChat(_, body)) => body,
        other => panic!("expected a chat line, found {:?}", other),
    }
}

#[test]
fn a_new_bus_is_empty() {
    let mut bus = MessageBus::new(3);
    assert_eq!(bus.capacity(), 3);
    assert_eq!(bus.inbound_len(), 0);
    assert!(!bus.rebroadcast_one());
    assert_eq!(bus.drain(), 0);
    assert!(bus.receive(0).is_none());
    assert!(!bus.unsubscribe(0));
}

#[test]
fn handles_are_given_out_in_order() {
    let mut bus = MessageBus::new(1);
    assert_eq!(bus.subscribe(), Some(0));
    assert_eq!(bus.subscribe(), Some(1));
    assert!(bus.unsubscribe(0));
    assert_eq!(bus.subscribe(), Some(2));
    assert!(!bus.unsubscribe(0));
}

#[test]
fn the_inbound_queue_is_bounded() {
    let mut bus = MessageBus::new(2);
    assert!(bus.enqueue(text(1, "a")).is_ok());
    assert!(bus.enqueue(text(1, "b")).is_ok());
    match bus.enqueue(text(1, "c")) {
        Err(Message::TextChat(1, back)) => assert_eq!(back, "c"),
        other => panic!("{:?}", other),
    }
    assert_eq!(bus.inbound_len(), 2);
    assert!(bus.rebroadcast_one());
    assert!(bus.enqueue(text(1, "c")).is_ok());
    assert_eq!(bus.inbound_len(), 2);
}

#[test]
fn a_bus_without_room_takes_nothing() {
    let mut bus = MessageBus::new(0);
    assert!(bus.enqueue(text(1, "a")).is_err());
    assert_eq!(bus.inbound_len(), 0);
}

#[test]
fn every_subscriber_sees_the_enqueued_order() {
    let mut bus = MessageBus::new(100);
    let a = bus.subscribe().expect("a handle");
    let b = bus.subscribe().expect("a handle");
    let lines = ["one", "two", "three", "four", "five"];
    for line in lines {
        assert!(bus.enqueue(text(9, line)).is_ok());
    }
    assert!(bus.receive(a).is_none(), "nothing is delivered before it is rebroadcast");
    assert_eq!(bus.drain(), 5);
    assert_eq!(bus.inbound_len(), 0);
    // The two subscribers read at different times and still see one order.
    assert_eq!(body(bus.receive(a)), "one");
    assert_eq!(body(bus.receive(a)), "two");
    for line in lines {
        assert_eq!(body(bus.receive(b)), line);
    }
    assert_eq!(body(bus.receive(a)), "three");
    assert_eq!(body(bus.receive(a)), "four");
    assert_eq!(body(bus.receive(a)), "five");
    assert!(bus.receive(a).is_none());
    assert!(bus.receive(b).is_none());
}

#[test]
fn events_are_published_once_and_one_at_a_time() {
    let mut bus = MessageBus::new(10);
    let a = bus.subscribe().expect("a handle");
    assert!(bus.enqueue(text(1, "x")).is_ok());
    assert!(bus.enqueue(text(1, "y")).is_ok());
    assert!(bus.rebroadcast_one());
    assert_eq!(bus.inbound_len(), 1);
    assert_eq!(body(bus.receive(a)), "x");
    assert!(bus.receive(a).is_none());
    assert!(bus.rebroadcast_one());
    assert_eq!(body(bus.receive(a)), "y");
    assert!(bus.receive(a).is_none());
    assert!(!bus.rebroadcast_one());
}

#[test]
fn a_late_subscriber_misses_the_history() {
    let mut bus = MessageBus::new(10);
    let early = bus.subscribe().expect("a handle");
    assert!(bus.enqueue(text(1, "before")).is_ok());
    bus.drain();
    let late = bus.subscribe().expect("a handle");
    assert!(bus.receive(late).is_none());
    assert!(bus.enqueue(text(1, "after")).is_ok());
    bus.drain();
    assert_eq!(body(bus.receive(late)), "after");
    assert!(bus.receive(late).is_none());
    assert_eq!(body(bus.receive(early)), "before");
    assert_eq!(body(bus.receive(early)), "after");
}

#[test]
fn a_subscriber_that_joined_while_events_waited_still_gets_them() {
    let mut bus = MessageBus::new(10);
    assert!(bus.enqueue(text(1, "queued")).is_ok());
    let s = bus.subscribe().expect("a handle");
    bus.drain();
    assert_eq!(body(bus.receive(s)), "queued");
}

#[test]
fn every_kind_of_event_reaches_every_subscriber() {
    let mut bus = MessageBus::new(2);
    let a = bus.subscribe().expect("a handle");
    let b = bus.subscribe().expect("a handle");
    assert!(bus.enqueue(Message::Disconnect(4)).is_ok());
    assert!(bus.enqueue(Message::VoiceChat(4, vec![1, 2])).is_ok());
    assert_eq!(bus.drain(), 2);
    for s in [a, b] {
        match bus.receive(s) {
            Some(Message::Disconnect(4)) => {}
            other => panic!("{:?}", other),
        }
        match bus.receive(s) {
            Some(Message::VoiceChat(4, payload)) => assert_eq!(payload, vec![1, 2]),
            other => panic!("{:?}", other),
        }
    }
}

#[test]
fn an_unsubscribed_handle_gets_nothing() {
    let mut bus = MessageBus::new(4);
    let a = bus.subscribe().expect("a handle");
    let b = bus.subscribe().expect("a handle");
    bus.take_in(Message::Connect(1));
    bus.drain();
    assert_eq!(bus.waiting(a), 1);
    assert!(bus.unsubscribe(a));
    assert_eq!(bus.waiting(a), 0);
    bus.take_in(Message::Connect(2));
    bus.drain();
    assert!(bus.receive(a).is_none());
    assert_eq!(bus.waiting(b), 2);
    match (bus.receive(b), bus.receive(b)) {
        (Some(Message::Connect(1)), Some(Message::Connect(2))) => {}
        other => panic!("{:?}", other),
    }
    assert_eq!(bus.waiting(b), 0);
}

#[test]
fn take_in_makes_room_by_rebroadcasting() {
    let mut bus = MessageBus::new(2);
    let s = bus.subscribe().expect("a handle");
    bus.take_in(text(1, "a"));
    bus.take_in(text(1, "b"));
    assert_eq!(bus.inbound_len(), 2);
    assert!(bus.receive(s).is_none());
    bus.take_in(text(1, "c"));
    assert_eq!(bus.inbound_len(), 1);
    assert_eq!(body(bus.receive(s)), "a");
    assert_eq!(body(bus.receive(s)), "b");
    assert!(bus.receive(s).is_none());
    bus.drain();
    assert_eq!(body(bus.receive(s)), "c");
}

#[test]
fn a_copy_of_a_message_has_the_same_content() {
    let first = Message::VoiceChat(8, vec![5, 6, 7]);
    match first.clone() {
        Message::VoiceChat(8, payload) => assert_eq!(payload, vec![5, 6, 7]),
        other => panic!("{:?}", other),
    }
    match text(3, "same").clone() {
        Message::TextChat(3, body) => assert_eq!(body, "same"),
        other => panic!("{:?}", other),
    }
}
