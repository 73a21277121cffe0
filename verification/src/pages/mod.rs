//! Screen code, one module per screen. What screens share is the shell's.

pub mod actions;
pub mod chat;
pub mod chat_laws;
pub mod laws;
pub mod list_laws;
pub mod login;
pub mod node_laws;
pub mod overlays;
pub mod press_laws;
pub mod settings;
