//! Bounded-concurrency IPv4 host discovery.
//!
//! The library holds the decisions of a liveness sweep: the expansion of a CIDR
//! block into candidate addresses, the port-by-port verdict of one probe, and
//! the coordinator that dispatches probes under a fixed concurrency budget.
//! The network attempts themselves are made by the caller, which hands each
//! outcome back to the library.

pub mod config;
pub mod probe;
pub mod range;
pub mod sweep;

pub use config::{ConfigError, ParsedCidr, ScanConfig};
pub use probe::{next_probe_action, AttemptOutcome, ProbeAction};
pub use range::{AddressRange, Candidates};
pub use sweep::{Sweep, SweepAction};
