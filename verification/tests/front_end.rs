use coffee_chat::chat_view::{ChatEffect, ChatUI, RunningState, StartupState};
use coffee_chat::coffee_ui::{CoffeeUI, CoffeeUIMessage, UIView};
use coffee_chat::network_view::{parse_port, NetUI, StartupState as PortState};
use coffee_chat::ui::{ChatEvent, ChatMessage, NetUIMessage};

fn typed(text: &str) -> NetUIMessage {
    NetUIMessage::PortNumberUpdated(String::from(text))
}

#[test]
fn a_port_is_read_from_digits_and_an_optional_plus() {
    assert_eq!(parse_port("0"), Some(0));
    assert_eq!(parse_port("8080"), Some(8080));
    assert_eq!(parse_port("65535"), Some(65535));
    assert_eq!(parse_port("+443"), Some(443));
    assert_eq!(parse_port("007"), Some(7));
    assert_eq!(parse_port("0000000000000000065535"), Some(65535));
}

#[test]
fn a_port_is_not_read_from_anything_else() {
    for text in [
        "", "+", "-1", "65536", "99999", "4294967296", " 80", "80 ", "8 0", "80a", "a80", "++1",
        "1+", "0x50", "８０", "1_000", "+-1", "１",
    ] {
        assert_eq!(parse_port(text), None, "{:?}", text);
    }
}

#[test]
fn a_port_is_read_as_the_standard_library_reads_it() {
    let alphabet = ['0', '1', '5', '6', '9', '+', '-', ' ', 'a', 'é'];
    let mut count = 0;
    for a in 0..alphabet.len() + 1 {
        for b in 0..alphabet.len() + 1 {
            for c in 0..alphabet.len() + 1 {
                let mut text = String::new();
                for k in [a, b, c] {
                    if k < alphabet.len() {
                        text.push(alphabet[k]);
                    }
                }
                assert_eq!(parse_port(&text), text.parse::<u16>().ok(), "{:?}", text);
                count += 1;
            }
        }
    }
    assert_eq!(count, 11 * 11 * 11);
    for n in (0..70000u32).step_by(7) {
        let text = n.to_string();
        assert_eq!(parse_port(&text), text.parse::<u16>().ok(), "{:?}", text);
        let signed = format!("+{}", n);
        assert_eq!(parse_port(&signed), signed.parse::<u16>().ok(), "{:?}", signed);
    }
}

#[test]
fn the_port_field_takes_port_numbers_only() {
    let mut state = PortState::new();
    assert_eq!(state.port_number_value(), "");
    state.update(typed("80"));
    assert_eq!(state.port_number_value(), "80");
    state.update(typed("80x"));
    assert_eq!(state.port_number_value(), "80", "a text that writes no port is not taken");
    state.update(typed("+0042"));
    assert_eq!(state.port_number_value(), "42", "a port is shown as it is usually written");
    state.update(typed("65536"));
    assert_eq!(state.port_number_value(), "42");
    state.update(NetUIMessage::StartNetwork);
    assert_eq!(state.port_number_value(), "42");
    state.update(typed(""));
    assert_eq!(state.port_number_value(), "", "the field can be emptied");
}

#[test]
fn the_network_view_starts_with_an_empty_port_field() {
    let mut ui = NetUI::new();
    ui.update(typed("7000"));
    match &ui {
        NetUI::Startup(state) => assert_eq!(state.port_number_value(), "7000"),
        NetUI::Running(_) => panic!("the network has not been started"),
    }
    ui.update(NetUIMessage::StartNetwork);
    assert!(matches!(ui, NetUI::Startup(_)));
}

#[test]
fn the_name_field_follows_what_is_typed() {
    let mut state = StartupState::new();
    assert_eq!(state.username_value(), "");
    assert!(matches!(
        state.update(&ChatMessage::UsernameUpdated(String::from("ada"))),
        ChatEffect::Nothing
    ));
    assert_eq!(state.username_value(), "ada");
    for ignored in [
        ChatMessage::ChatStringUpdate(String::from("x")),
        ChatMessage::SendChat,
        ChatMessage::Event(ChatEvent::Connect),
    ] {
        assert!(matches!(state.update(&ignored), ChatEffect::Nothing));
        assert_eq!(state.username_value(), "ada");
    }
    match state.update(&ChatMessage::StartChat) {
        ChatEffect::StartChat(name) => assert_eq!(name, "ada"),
        other => panic!("{:?}", other),
    }
    assert_eq!(state.username_value(), "ada");
}

#[test]
fn sending_hands_the_line_out_and_clears_it() {
    let mut state = RunningState::new();
    assert_eq!(state.chat_input_value(), "");
    assert!(state.messages().is_empty());
    state.update(&ChatMessage::ChatStringUpdate(String::from("hel")));
    state.update(&ChatMessage::ChatStringUpdate(String::from("hello")));
    assert_eq!(state.chat_input_value(), "hello");
    match state.update(&ChatMessage::SendChat) {
        ChatEffect::Broadcast(ChatEvent::Text(line)) => assert_eq!(line, "hello"),
        other => panic!("{:?}", other),
    }
    assert_eq!(state.chat_input_value(), "");
    assert!(state.messages().is_empty(), "a line shows only when the chat brings it back");
    match state.update(&ChatMessage::SendChat) {
        ChatEffect::Broadcast(ChatEvent::Text(line)) => assert_eq!(line, ""),
        other => panic!("{:?}", other),
    }
}

#[test]
fn events_of_the_chat_are_listed_in_order() {
    let mut state = RunningState::new();
    state.update(&ChatMessage::Event(ChatEvent::Connect));
    state.update(&ChatMessage::Event(ChatEvent::Text(String::from("hi"))));
    state.update(&ChatMessage::Event(ChatEvent::Disconnect));
    state.update(&ChatMessage::UsernameUpdated(String::from("late")));
    state.update(&ChatMessage::StartChat);
    assert_eq!(state.messages(), &vec!["Connection", "hi", "Disconection"]);
    assert_eq!(state.chat_input_value(), "");
}

#[test]
fn accepting_the_name_starts_the_running_chat() {
    let mut ui = ChatUI::new();
    assert!(matches!(ui, ChatUI::Startup(_)));
    assert!(matches!(ui.update(ChatMessage::SendChat), ChatEffect::Nothing));
    ui.update(ChatMessage::UsernameUpdated(String::from("ada")));
    match ui.update(ChatMessage::StartChat) {
        ChatEffect::StartChat(name) => assert_eq!(name, "ada"),
        other => panic!("{:?}", other),
    }
    match &ui {
        ChatUI::Running(state) => {
            assert_eq!(state.chat_input_value(), "");
            assert!(state.messages().is_empty());
        }
        ChatUI::Startup(_) => panic!("the chat has been started"),
    }
    ui.update(ChatMessage::ChatStringUpdate(String::from("x")));
    assert!(matches!(ui.update(ChatMessage::StartChat), ChatEffect::Nothing));
    assert!(matches!(
        ui.update(ChatMessage::SendChat),
        ChatEffect::Broadcast(ChatEvent::Text(_))
    ));
}

#[test]
fn the_main_window_routes_messages_to_its_views() {
    let mut ui = CoffeeUI::new();
    assert_eq!(ui.title(), "Coffee Chat");
    assert_eq!(ui.current_view(), UIView::Network);
    assert!(matches!(ui.update(CoffeeUIMessage::ChangeView(UIView::Chat)), ChatEffect::Nothing));
    assert_eq!(ui.current_view(), UIView::Chat);
    ui.update(CoffeeUIMessage::NetUIMessage(typed("9000")));
    match ui.net_ui() {
        NetUI::Startup(state) => assert_eq!(state.port_number_value(), "9000"),
        NetUI::Running(_) => panic!("the network has not been started"),
    }
    ui.update(CoffeeUIMessage::ChatUIMessage(ChatMessage::UsernameUpdated(String::from("bo"))));
    match ui.update(CoffeeUIMessage::ChatUIMessage(ChatMessage::StartChat)) {
        ChatEffect::StartChat(name) => assert_eq!(name, "bo"),
        other => panic!("{:?}", other),
    }
    assert!(matches!(ui.chat_ui(), ChatUI::Running(_)));
    assert_eq!(ui.current_view(), UIView::Chat);
    ui.update(CoffeeUIMessage::ChangeView(UIView::Audio));
    assert_eq!(ui.current_view(), UIView::Audio);
    assert!(matches!(ui.chat_ui(), ChatUI::Running(_)));
}
