//! Supervision of cancellable download jobs: parsing of the downloader's
//! progress output, a registry of running jobs, the decisions of the
//! download supervisor, and the routing of media conversions.
pub mod convert;
pub mod progress;
pub mod registry;
pub mod supervisor;
pub mod text;
