//! Inventory reconciliation for installed cargo binaries: parse the listing
//! printed by `cargo install --list`, resolve each crate's newest published
//! version, and decide which crates are worth reinstalling.

pub mod text;
pub mod version;
pub mod date;
pub mod record;
pub mod listing;
pub mod container;
pub mod laws;

pub use container::{exit_outcome, install_arguments, CratesInfoContainer, ListingError, UpdateOutcome};
pub use date::{format_date, publication_date};
pub use record::{CrateInfo, CrateKind, InfoJson};
pub use version::is_newer_version;
