//! Escrow ledger for milestone-based crowdfunding.
//!
//! A creator registers a campaign with a funding target and a number of
//! milestones; backers contribute up to the target before a deadline; the
//! administrator approves, rejects and releases milestones; a campaign that
//! misses its target after the deadline refunds its backers once.
//!
//! Everything that touches the host (storage, token transfers, event
//! publication, ledger time) happens outside this crate: each operation takes
//! the outcome of such work as a plain value and returns the decision.

pub mod address;
pub mod contract;
pub mod error;
pub mod laws;
pub mod notification;
pub mod project;

pub use address::Address;
pub use contract::{BoundlessContract, ContractDataKey, TransferOutcome};
pub use error::ProjectError;
pub use notification::Notification;
pub use project::Project;
