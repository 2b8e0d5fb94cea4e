//! Verified core of a terminal agent client: command parsing, the prompt
//! composer, transcript bookkeeping, prompt assembly and agent configuration
//! checks.
pub mod text;
pub mod session_command;
pub mod composer;
pub mod keys;
pub mod transcript;
pub mod session_event;
pub mod screen;
pub mod prompt;
pub mod agent_config;
pub mod record;
pub mod console;
pub mod agent_task;
pub mod tools;
pub mod mcp;
pub mod memory;
pub mod engine;
pub mod cli;
pub mod ctl;
pub mod session_store;
pub mod planner;
pub mod turn;
pub mod laws;
