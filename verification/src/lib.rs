//! The session layer of a serverless chat: every instance accepts and dials
//! peers, and all of them share one flat message bus.
//!
//! The crate holds the parts that decide: the wire codec, the message bus, the
//! per-peer session state machine and the controller with its peer registry.
//! Sockets, timers and tasks live with the caller, which feeds events in and
//! carries the resulting actions out.
//!
//! * [`wire`] and [`envelope`] give every message its bytes, over the
//!   integers of [`le_int`].
//! * [`bus`] is the inbound queue and the fan-out to the subscribers, for
//!   the events of [`message`].
//! * [`peer`] is one session: handshake, probing, relaying.
//! * [`controller`] holds the identity, the bus, the sessions and, in a
//!   [`table`], the registry; peers are reached at an [`address`].
//! * [`audio`] holds sample chunks and the layers that rework them.
//! * [`ui`], [`chat_view`], [`network_view`] and [`coffee_ui`] hold what a
//!   front end keeps between two messages of its widgets.

pub mod address;
pub mod le_int;
pub mod wire;
pub mod envelope;
pub mod message;
pub mod bus;
pub mod peer;
pub mod table;
pub mod controller;
pub mod audio;
pub mod ui;
pub mod network_view;
pub mod chat_view;
pub mod coffee_ui;
