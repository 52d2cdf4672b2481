//! The events that flow on the message bus.

use crate::wire::PeerId;
use vstd::prelude::*;
use vstd::slice::*;

verus! {

/// An event on the bus. Every event names the peer it is about.
#[derive(Debug)]
pub enum Message {
    /// A peer has joined.
    Connect(PeerId),
    /// A peer has left.
    Disconnect(PeerId),
    /// A chat line and its sender.
    TextChat(PeerId, String),
    /// Voice data and its sender.
    VoiceChat(PeerId, Vec<u8>),
}

/// The mathematical content of a [`Message`].
pub enum MessageView {
    Connect(PeerId),
    Disconnect(PeerId),
    TextChat(PeerId, Seq<char>),
    VoiceChat(PeerId, Seq<u8>),
}

impl View for Message {
    type V = MessageView;

    open spec fn view(&self) -> MessageView {
        match self {
            Message::Connect(id) => MessageView::Connect(*id),
            Message::Disconnect(id) => MessageView::Disconnect(*id),
            Message::TextChat(sender, text) => MessageView::TextChat(*sender, text@),
            Message::VoiceChat(sender, payload) => MessageView::VoiceChat(*sender, payload@),
        }
    }
}

impl MessageView {
    /// The peer that the event is about.
    pub open spec fn subject(self) -> PeerId {
        match self {
            MessageView::Connect(id) => id,
            MessageView::Disconnect(id) => id,
            MessageView::TextChat(sender, _) => sender,
            MessageView::VoiceChat(sender, _) => sender,
        }
    }
}

impl Clone for Message {
    /// A copy with the same content.
    fn clone(&self) -> (copy: Message)
        ensures
            copy@ == self@,
    {
        match self {
            Message::Connect(id) => Message::Connect(*id),
            Message::Disconnect(id) => Message::Disconnect(*id),
            Message::TextChat(sender, text) => Message::TextChat(*sender, text.clone()),
            Message::VoiceChat(sender, payload) => Message::VoiceChat(
                *sender,
                slice_to_vec(payload.as_slice()),
            ),
        }
    }
}

/// The views of a sequence of events, in order.
pub open spec fn views(events: Seq<Message>) -> Seq<MessageView> {
    events.map_values(|m: Message| m@)
}

} // verus!
