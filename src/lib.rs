//! Realtime collaborative-editing backend: the per-document synchronisation
//! actor, the client session protocol, the registry of live documents and the
//! update-log rules, with their contracts.

pub mod auth;
pub mod crdt;
pub mod document;
pub mod error;
pub mod mailbox;
pub mod server;
pub mod update_log;
pub mod websocket;
