//! Core logic of a desktop overlay companion for a save-point teleport game
//! mod. The overlay's shell renders a webview, polls a gamepad, adjusts the
//! window, and talks to the game-side script over files and a local socket;
//! this crate holds everything those adapters decide or compute: the byte
//! formats of the messages they exchange, the request/response correlation
//! rules, window geometry persistence and placement, and the layered-window
//! style arithmetic.

pub mod gamepad;
pub mod geometry;
pub mod handshake;
pub mod payload;
pub mod persist;
pub mod points;
pub mod text;
pub mod winstyle;
