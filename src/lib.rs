//! Protocol core of a desktop notification daemon: the typed notification
//! model, the decoder for the loosely typed hint payload, the store that owns
//! identity, ordering, grouping and the audit trail, and the handlers that
//! bind the store to the notification protocol's request surface.

pub mod card;
pub mod config;
pub mod hints;
pub mod notification;
pub mod server;
pub mod store;
