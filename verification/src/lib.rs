//! Coordination logic of a segmented, multi-connection file downloader.
//!
//! The crate decides; it performs no I/O. A caller probes the server, hands the
//! answer to [`dncli::Download`], and then carries out the actions the state
//! machines ask for: issuing requests, sleeping, writing at file offsets.

pub mod assembly;
pub mod config;
pub mod dncli;
pub mod fetch;
pub mod location;
pub mod output;
pub mod plan;
pub mod probe;
pub mod sink;
pub mod text;
