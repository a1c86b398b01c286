//! An end-to-end encrypted relay chat with a small time tracker.
//!
//! The library holds what the client decides and computes; sockets, files and the terminal are its
//! caller's.

pub mod app;
pub mod chat;
pub mod clock;
pub mod command;
pub mod controls;
pub mod exchange;
pub mod handshake;
pub mod hearing;
pub mod identity;
pub mod keys;
pub mod known_users;
pub mod laws;
pub mod paths;
pub mod primitives;
pub mod screens;
pub mod session;
pub mod text;
pub mod tracker;
pub mod typing;
