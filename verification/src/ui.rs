//! What a front end and the chat exchange: the events that a chat view shows
//! and the messages that its widgets send.

use vstd::prelude::*;

verus! {

/// Something for a chat view to show.
#[derive(Debug)]
pub enum ChatEvent {
    /// Somebody has joined.
    Connect,
    /// Somebody has left.
    Disconnect,
    /// Somebody has said this.
    Text(String),
}

/// The mathematical content of a [`ChatEvent`].
pub enum ChatEventView {
    Connect,
    Disconnect,
    Text(Seq<char>),
}

impl View for ChatEvent {
    type V = ChatEventView;

    open spec fn view(&self) -> ChatEventView {
        match self {
            ChatEvent::Connect => ChatEventView::Connect,
            ChatEvent::Disconnect => ChatEventView::Disconnect,
            ChatEvent::Text(text) => ChatEventView::Text(text@),
        }
    }
}

impl Clone for ChatEvent {
    /// A copy with the same content.
    fn clone(&self) -> (copy: ChatEvent)
        ensures
            copy@ == self@,
    {
        match self {
            ChatEvent::Connect => ChatEvent::Connect,
            ChatEvent::Disconnect => ChatEvent::Disconnect,
            ChatEvent::Text(text) => ChatEvent::Text(text.clone()),
        }
    }
}

/// What the widgets of a chat view send.
#[derive(Debug)]
pub enum ChatMessage {
    /// The name field holds this now.
    UsernameUpdated(String),
    /// The input line holds this now.
    ChatStringUpdate(String),
    /// The name has been accepted.
    StartChat,
    /// The chat has something to show.
    Event(ChatEvent),
    /// The input line is to be sent.
    SendChat,
}

/// The mathematical content of a [`ChatMessage`].
pub enum ChatMessageView {
    UsernameUpdated(Seq<char>),
    ChatStringUpdate(Seq<char>),
    StartChat,
    Event(ChatEventView),
    SendChat,
}

impl View for ChatMessage {
    type V = ChatMessageView;

    open spec fn view(&self) -> ChatMessageView {
        match self {
            ChatMessage::UsernameUpdated(name) => ChatMessageView::UsernameUpdated(name@),
            ChatMessage::ChatStringUpdate(line) => ChatMessageView::ChatStringUpdate(line@),
            ChatMessage::StartChat => ChatMessageView::StartChat,
            ChatMessage::Event(event) => ChatMessageView::Event(event@),
            ChatMessage::SendChat => ChatMessageView::SendChat,
        }
    }
}

/// What the widgets of a network view send.
#[derive(Debug)]
pub enum NetUIMessage {
    /// The port field holds this now.
    PortNumberUpdated(String),
    /// The port has been accepted.
    StartNetwork,
}

/// Starts the front end of a build that has none: there is nothing to start.
pub fn start_ui() {
}

} // verus!
