//! Teams of agents: an orchestrator that hands tasks to specialised sub-agents.

pub mod config;
pub mod delegate;
pub mod handoff;
pub mod registry;
pub mod set;
pub mod sub_agent_messages;
