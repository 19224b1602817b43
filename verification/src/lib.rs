//! Boot-arming coordinator for a fleet of network-booted (PXE) machines.
//!
//! The library holds the authoritative mapping from machine identity to boot
//! configuration, lets an operator arm a machine to boot a named payload, and
//! answers the netboot loader's query with the payload a machine should now
//! execute.  Loading the registries from disk, HTTP routing and command
//! execution are left to the surrounding program; everything that decides is
//! here, verified.

pub mod actions;
pub mod attempt;
pub mod errors;
pub mod registry;
pub mod state;
pub mod table;

pub use actions::Action;
pub use actions::Ipmi;
pub use attempt::BootAttempt;
pub use errors::BootError;
pub use registry::Machine;
pub use registry::Payload;
pub use registry::Registry;
pub use state::load_state;
pub use state::State;
pub use table::BootArmingTable;
pub use table::BootEntry;
