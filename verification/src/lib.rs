//! Core pipeline for uploading local files as static assets to a remote
//! "canvas" host: session derivation from an authentication probe response,
//! file-set collection, multipart request construction, and the dry-run /
//! transmit decision. All network and filesystem work happens outside this
//! crate; these modules hold the decisions and data shaping, with contracts.

pub mod builder;
pub mod client;
pub mod collector;
pub mod error;
pub mod fmt;
pub mod scan;
pub mod session;
