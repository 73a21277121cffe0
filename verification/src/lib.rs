//! The logic of a chat client, verified.
pub mod encoding;
pub mod gateway;
pub mod input;
pub mod json;
pub mod live;
pub mod markdown;
pub mod menu;
pub mod model;
pub mod pages;
pub mod session;
pub mod shell;
pub mod slide;
pub mod text;
pub mod time;
pub mod ui;
