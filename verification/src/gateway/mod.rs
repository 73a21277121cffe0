//! What arrives from the server, and what is sent to it.

pub mod gateway;
pub mod guild_order;
pub mod laws;
pub mod member_list;
pub mod proto;
pub mod ready;
pub mod remote_auth;
pub mod settings_laws;
pub mod status;
pub mod zstd_stream;
