//! The state behind a chat view: first a name is asked for, then lines are
//! typed and sent, and what the chat has to show is listed.

use crate::ui::{ChatEvent, ChatEventView, ChatMessage, ChatMessageView};
use vstd::prelude::*;
use vstd::string::*;

verus! {

/// What a view asks for when it has taken a message.
#[derive(Debug)]
pub enum ChatEffect {
    /// Nothing.
    Nothing,
    /// The chat is to be started under this name.
    StartChat(String),
    /// This event is to be sent to everybody who watches the chat.
    Broadcast(ChatEvent),
}

/// The mathematical content of a [`ChatEffect`].
pub enum ChatEffectView {
    Nothing,
    StartChat(Seq<char>),
    Broadcast(ChatEventView),
}

impl View for ChatEffect {
    type V = ChatEffectView;

    open spec fn view(&self) -> ChatEffectView {
        match self {
            ChatEffect::Nothing => ChatEffectView::Nothing,
            ChatEffect::StartChat(name) => ChatEffectView::StartChat(name@),
            ChatEffect::Broadcast(event) => ChatEffectView::Broadcast(event@),
        }
    }
}

/// The line that the list shows for an event.
pub open spec fn line_of(event: ChatEventView) -> Seq<char> {
    match event {
        ChatEventView::Connect => "Connection"@,
        ChatEventView::Disconnect => "Disconection"@,
        ChatEventView::Text(text) => text,
    }
}

/// The state of the view while the name is asked for.
pub struct StartupState {
    username_value: String,
}

impl View for StartupState {
    type V = Seq<char>;

    /// What the name field shows.
    closed spec fn view(&self) -> Seq<char> {
        self.username_value@
    }
}

/// What the view does with a message while the name is asked for: the name
/// field follows what is typed, and accepting starts the chat under the name
/// that the field shows.
pub open spec fn startup_update(name: Seq<char>, message: ChatMessageView) -> (
    Seq<char>,
    ChatEffectView,
) {
    match message {
        ChatMessageView::UsernameUpdated(typed) => (typed, ChatEffectView::Nothing),
        ChatMessageView::StartChat => (name, ChatEffectView::StartChat(name)),
        _ => (name, ChatEffectView::Nothing),
    }
}

impl StartupState {
    /// A view with an empty name field.
    pub fn new() -> (state: StartupState)
        ensures
            state@ == Seq::<char>::empty(),
    {
        StartupState { username_value: String::new() }
    }

    /// What the name field shows.
    pub fn username_value(&self) -> (shown: &String)
        ensures
            shown@ == self@,
    {
        &self.username_value
    }

    /// Takes a message of the view's widgets.
    pub fn update(&mut self, message: &ChatMessage) -> (effect: ChatEffect)
        ensures
            (final(self)@, effect@) == startup_update(old(self)@, message@),
    {
        match message {
            ChatMessage::UsernameUpdated(name) => {
                self.username_value = name.clone();
                ChatEffect::Nothing
            },
            ChatMessage::StartChat => ChatEffect::StartChat(self.username_value.clone()),
            _ => ChatEffect::Nothing,
        }
    }
}

/// The state of the view while the chat runs.
pub struct RunningState {
    chat_input_value: String,
    messages: Vec<String>,
}

/// The mathematical content of a [`RunningState`].
pub struct RunningView {
    /// What the input line shows.
    pub input: Seq<char>,
    /// The lines of the list, oldest first.
    pub messages: Seq<Seq<char>>,
}

impl View for RunningState {
    type V = RunningView;

    closed spec fn view(&self) -> RunningView {
        RunningView {
            input: self.chat_input_value@,
            messages: self.messages@.map_values(|line: String| line@),
        }
    }
}

/// What the view does with a message while the chat runs: the input line
/// follows what is typed, sending hands the line out and clears it, and an
/// event of the chat adds its line to the list.
pub open spec fn running_update(state: RunningView, message: ChatMessageView) -> (
    RunningView,
    ChatEffectView,
) {
    match message {
        ChatMessageView::ChatStringUpdate(typed) => (
            RunningView { input: typed, ..state },
            ChatEffectView::Nothing,
        ),
        ChatMessageView::SendChat => (
            RunningView { input: Seq::empty(), ..state },
            ChatEffectView::Broadcast(ChatEventView::Text(state.input)),
        ),
        ChatMessageView::Event(event) => (
            RunningView { messages: state.messages.push(line_of(event)), ..state },
            ChatEffectView::Nothing,
        ),
        _ => (state, ChatEffectView::Nothing),
    }
}

impl RunningState {
    /// A view with an empty input line and an empty list.
    pub fn new() -> (state: RunningState)
        ensures
            state@ == (RunningView { input: Seq::empty(), messages: Seq::empty() }),
    {
        let state = RunningState { chat_input_value: String::new(), messages: Vec::new() };
        proof {
            assert(state@.messages =~= Seq::<Seq<char>>::empty());
        }
        state
    }

    /// What the input line shows.
    pub fn chat_input_value(&self) -> (shown: &String)
        ensures
            shown@ == self@.input,
    {
        &self.chat_input_value
    }

    /// The lines of the list, oldest first.
    pub fn messages(&self) -> (lines: &Vec<String>)
        ensures
            lines@.map_values(|line: String| line@) == self@.messages,
    {
        &self.messages
    }

    /// Takes a message of the view's widgets.
    pub fn update(&mut self, message: &ChatMessage) -> (effect: ChatEffect)
        ensures
            (final(self)@, effect@) == running_update(old(self)@, message@),
    {
        match message {
            ChatMessage::ChatStringUpdate(s) => {
                self.chat_input_value = s.clone();
                ChatEffect::Nothing
            },
            ChatMessage::SendChat => {
                let line = self.chat_input_value.clone();
                self.chat_input_value = String::new();
                ChatEffect::Broadcast(ChatEvent::Text(line))
            },
            ChatMessage::Event(event) => {
                let line = match event {
                    ChatEvent::Connect => String::from_str("Connection"),
                    ChatEvent::Disconnect => String::from_str("Disconection"),
                    ChatEvent::Text(s) => s.clone(),
                };
                self.messages.push(line);
                proof {
                    assert(self@.messages =~= old(self)@.messages.push(line_of(event@)));
                }
                ChatEffect::Nothing
            },
            _ => ChatEffect::Nothing,
        }
    }
}

/// The chat view.
pub enum ChatUI {
    Startup(StartupState),
    Running(RunningState),
}

/// The mathematical content of a [`ChatUI`].
pub enum ChatUIView {
    Startup(Seq<char>),
    Running(RunningView),
}

impl View for ChatUI {
    type V = ChatUIView;

    open spec fn view(&self) -> ChatUIView {
        match self {
            ChatUI::Startup(state) => ChatUIView::Startup(state@),
            ChatUI::Running(state) => ChatUIView::Running(state@),
        }
    }
}

/// What the chat view does with a message: the part of the view that is
/// shown takes it, and once the name has been accepted the view shows the
/// running chat, with an empty input line and an empty list.
pub open spec fn chat_update(ui: ChatUIView, message: ChatMessageView) -> (
    ChatUIView,
    ChatEffectView,
) {
    match ui {
        ChatUIView::Startup(name) => {
            let (typed, effect) = startup_update(name, message);
            if message is StartChat {
                (
                    ChatUIView::Running(
                        RunningView { input: Seq::empty(), messages: Seq::empty() },
                    ),
                    effect,
                )
            } else {
                (ChatUIView::Startup(typed), effect)
            }
        },
        ChatUIView::Running(state) => {
            let (after, effect) = running_update(state, message);
            (ChatUIView::Running(after), effect)
        },
    }
}

impl ChatUI {
    /// The view as it starts: asking for a name.
    pub fn new() -> (ui: ChatUI)
        ensures
            ui@ == ChatUIView::Startup(Seq::empty()),
    {
        ChatUI::Startup(StartupState::new())
    }

    /// Takes a message of the view's widgets.
    pub fn update(&mut self, message: ChatMessage) -> (effect: ChatEffect)
        ensures
            (final(self)@, effect@) == chat_update(old(self)@, message@),
    {
        match self {
            ChatUI::Startup(state) => {
                let effect = state.update(&message);
                if let ChatMessage::StartChat = message {
                    *self = ChatUI::Running(RunningState::new());
                }
                effect
            },
            ChatUI::Running(state) => state.update(&message),
        }
    }
}

} // verus!
