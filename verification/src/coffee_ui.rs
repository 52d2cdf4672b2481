//! The state behind the main window: one of three views is shown at a time,
//! and the chat view and the network view each take their own messages.

use crate::chat_view::{chat_update, ChatEffect, ChatEffectView, ChatUI, ChatUIView};
use crate::network_view::NetUI;
use crate::ui::{ChatMessage, NetUIMessage};
use vstd::prelude::*;
use vstd::string::*;

verus! {

/// The views of the main window.
#[derive(Debug, Clone, Copy, PartialEq, Eq, Structural)]
pub enum UIView {
    Network,
    Audio,
    Chat,
}

/// What the widgets of the main window send.
#[derive(Debug)]
pub enum CoffeeUIMessage {
    /// Another view has been chosen.
    ChangeView(UIView),
    /// A message of the chat view.
    ChatUIMessage(ChatMessage),
    /// A message of the network view.
    NetUIMessage(NetUIMessage),
}

/// The main window.
pub struct CoffeeUI {
    current_view: UIView,
    chat_ui: ChatUI,
    net_ui: NetUI,
}

impl CoffeeUI {
    /// The view that is shown.
    pub closed spec fn shown(&self) -> UIView {
        self.current_view
    }

    /// The chat view.
    pub closed spec fn chat(&self) -> ChatUIView {
        self.chat_ui@
    }

    /// The network view.
    pub closed spec fn net(&self) -> NetUI {
        self.net_ui
    }

    /// The window as it starts: it shows the network view, and both views
    /// are as they start.
    pub fn new() -> (ui: CoffeeUI)
        ensures
            ui.shown() == UIView::Network,
            ui.chat() == ChatUIView::Startup(Seq::empty()),
            ui.net() is Startup,
    {
        CoffeeUI { current_view: UIView::Network, chat_ui: ChatUI::new(), net_ui: NetUI::new() }
    }

    /// The title of the window.
    pub fn title(&self) -> (title: String)
        ensures
            title@ == "Coffee Chat"@,
    {
        String::from_str("Coffee Chat")
    }

    /// The view that is shown.
    pub fn current_view(&self) -> (view: UIView)
        ensures
            view == self.shown(),
    {
        self.current_view
    }

    /// The chat view.
    pub fn chat_ui(&self) -> (chat: &ChatUI)
        ensures
            chat@ == self.chat(),
    {
        &self.chat_ui
    }

    /// The network view.
    pub fn net_ui(&self) -> (net: &NetUI)
        ensures
            *net == self.net(),
    {
        &self.net_ui
    }

    /// Takes a message of the window's widgets: a choice changes the view
    /// that is shown and nothing else, and a message of a view goes to that
    /// view and changes nothing else.
    pub fn update(&mut self, message: CoffeeUIMessage) -> (effect: ChatEffect)
        ensures
            match message {
                CoffeeUIMessage::ChangeView(view) => {
                    &&& final(self).shown() == view
                    &&& final(self).chat() == old(self).chat()
                    &&& final(self).net() == old(self).net()
                    &&& effect@ == ChatEffectView::Nothing
                },
                CoffeeUIMessage::ChatUIMessage(inner) => {
                    &&& final(self).shown() == old(self).shown()
                    &&& (final(self).chat(), effect@) == chat_update(old(self).chat(), inner@)
                    &&& final(self).net() == old(self).net()
                },
                CoffeeUIMessage::NetUIMessage(inner) => {
                    &&& final(self).shown() == old(self).shown()
                    &&& final(self).chat() == old(self).chat()
                    &&& crate::network_view::net_update(old(self).net(), inner, final(self).net())
                    &&& effect@ == ChatEffectView::Nothing
                },
            },
    {
        match message {
            CoffeeUIMessage::ChangeView(v) => {
                self.current_view = v;
                ChatEffect::Nothing
            },
            CoffeeUIMessage::ChatUIMessage(inner) => self.chat_ui.update(inner),
            CoffeeUIMessage::NetUIMessage(inner) => {
                self.net_ui.update(inner);
                ChatEffect::Nothing
            },
        }
    }
}

} // verus!
