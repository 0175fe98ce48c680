//! A client for Anna's Archive: search result and record parsing, mirror
//! discovery and ranking, download link resolution, file naming, and the
//! decisions of an MCP server and a command line built on them.
use vstd::prelude::*;

pub mod cli;
pub mod client;
pub mod config;
pub mod domain;
pub mod downloader;
pub mod errors;
pub mod html;
pub mod json;
pub mod mcp;
pub mod mirror;
pub mod pattern;
pub mod text;

pub use config::AppConfig;
pub use domain::{Book, ItemDetails, Paper};
pub use errors::AppError;
pub use mirror::MirrorResolver;

verus! {
}
