//! The verified core of a community bot: who may run which command, how a message is scored,
//! what a reply says, and what each stored table holds after an operation.
//!
//! Everything here works on plain values. Network traffic, clocks, files and the chat
//! connection itself belong to the program that links this library.

pub mod auth;
pub mod bot;
pub mod chance;
pub mod clock;
pub mod community;
pub mod community_laws;
pub mod config;
pub mod cooldown;
pub mod git_monitor;
pub mod handlers;
pub mod http;
pub mod json;
pub mod json_laws;
pub mod keys;
pub mod nak;
pub mod nip98;
pub mod npub_cash;
pub mod number;
pub mod order;
pub mod pattern;
pub mod rate_limiter;
pub mod settings_laws;
pub mod table;
pub mod text;
pub mod url;
pub mod wallet;
