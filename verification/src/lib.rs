//! Verified core of the Nexus batch-mining command-line client: proof
//! statistics, memory-pressure classification, the dynamic node manager's
//! scaling decisions, the status-line formatting of the display, and the
//! adaptive polling configuration.

pub mod consts;
pub mod adaptive;
pub mod text;
pub mod status;
pub mod proof_stats;
pub mod memory;
pub mod node_manager;
pub mod display;
pub mod batch;
pub mod node_id;
