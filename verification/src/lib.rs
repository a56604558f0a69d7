//! Clipboard history library: the verified core of a clipboard history service.
pub mod text;
pub mod db;
pub mod cli;
pub mod win_v_takeover;
pub mod clipboard;
pub mod image_codec;
pub mod assets;
pub mod config;
pub mod ui;
pub mod ipc;
pub mod startup;
pub mod background;
pub mod clipboard_write;
pub mod schema;
