//! Mirror of a remote extension registry: the download pipeline's decisions,
//! progress accounting, catalog handling, index schema and query composition.

pub mod catalog;
pub mod config;
pub mod downloader;
pub mod ext_searcher;
pub mod index;
pub mod mirror;
pub mod package_meta;
pub mod progress;
pub mod serve;
pub mod text;
