//! An agent pipeline that turns a project request into generated backend
//! code and validates it: bounded build/fix retries, an operator safety
//! gate, endpoint extraction and probing. Everything that decides —
//! the agents' state machines, the route filter, the wire codecs — lives
//! here and is verified; an embedding program performs the I/O each
//! returned action asks for and feeds the outcome back.

pub mod agent_architect;
pub mod agent_backend;
pub mod agent_traits;
pub mod basic_agents;
pub mod command_line;
pub mod general;
pub mod managing_agent;
pub mod route_json;
pub mod scope_json;
