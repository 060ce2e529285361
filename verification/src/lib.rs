//! Detection of DNS servers that answer zone-transfer requests from anyone.

pub mod classify;
pub mod nameservers;
pub mod orchestrator;
pub mod scan;
pub mod text;
