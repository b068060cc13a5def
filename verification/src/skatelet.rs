//! Node-agent data model: what a node's local agent reports about itself.

pub mod system;
