//! Acquisition core for a battery-management-system dashboard.
//!
//! One poll cycle fetches three controller pages, extracts the quoted
//! telemetry assignment from each, decodes the comma-separated fields into
//! typed readings, optionally replaces implausible samples with the series
//! average, and aggregates per-group statistics. Everything here works on
//! plain values; the HTTP transport and the rendering layer live outside.

pub mod decode;
pub mod errors;
pub mod extract;
pub mod legs;
pub mod poll;
pub mod request;
pub mod sanitize;
pub mod stats;

pub use errors::AcqError;
pub use errors::Error;
