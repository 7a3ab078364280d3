//! Verified core of a local dashboard that manages several agent processes:
//! the agent registry, configuration rewriting, request validation, response
//! shaping and the session-cookie handshake with running agents.

pub mod text;
pub mod slug_map;
pub mod process;
pub mod agents;
pub mod proxy;
