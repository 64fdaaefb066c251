//! Verified core of starmap: turns GitHub Star Lists into Markdown documents.

pub mod text;
pub mod sorting;
pub mod types;
pub mod config;
pub mod markdown;
pub mod llms_txt;
pub mod readme;
pub mod llms_full;
pub mod backoff;
pub mod client;
pub mod paging;
