//! Agent orchestration kernel: the tool-calling loop, conversation-history
//! management, daemon supervision with exponential back-off, cron scheduling,
//! and the provider wire abstraction, with machine-checked contracts.

pub mod agent_loop;
pub mod chat;
pub mod cli;
pub mod clock;
pub mod codec;
pub mod config;
pub mod cron;
pub mod daemon;
pub mod history;
pub mod integrations;
pub mod jsonio;
pub mod providers_meta;
pub mod runtime;
pub mod security;
pub mod service;
pub mod strings;
pub mod supervisor;
pub mod tui;
pub mod websearch;
pub mod wire;
pub mod wrap;
