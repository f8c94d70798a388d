//! One module per bot command.
pub mod admin;
pub mod agent;
pub mod agent_progress;
pub mod echo;
pub mod help;
pub mod lm;
pub mod ping;
pub mod rank;
pub mod reason;
pub mod search;
pub mod slash;
pub mod sum;
pub mod vis;
