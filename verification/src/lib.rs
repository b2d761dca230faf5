//! The verified core of the PeakBot agent runner.

pub mod agent_loop;
pub mod bg;
pub mod commands;
pub mod conversation;
pub mod effect;
pub mod event_loop;
pub mod events;
pub mod mcp;
pub mod mcp_auth;
pub mod memory;
pub mod message;
pub mod mock;
pub mod models;
pub mod order;
pub mod pipeline;
pub mod prompt;
pub mod rebuild;
pub mod reload;
pub mod selection;
pub mod startup;
pub mod submission;
pub mod table;
pub mod text;
pub mod turn;
