//! Verified core of a chat bot that relays language-model answers to a
//! Discord channel: message chunking, transcript and page cleaning,
//! configuration parsing, and the bookkeeping of cross-user context.
pub mod chunking;
pub mod cleaning;
pub mod commands;
pub mod config;
pub mod context;
pub mod help;
pub mod text;
pub mod streaming;
pub mod thinking;
pub mod youtube;
pub mod ytsubs;
