//! Encrypted local chat.
pub mod boundary;
pub mod clock;
pub mod crypto;
pub mod event;
pub mod history;
pub mod input;
pub mod protocol;
pub mod render;
pub mod server;
pub mod session;
pub mod setup;
pub mod text;
pub mod ui;
