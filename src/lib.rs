//! Caching, thumbnailing and background-task bookkeeping for a resource-pack workbench.
//!
//! The crate holds the decisions: how a thumbnail is planned and produced, how the bounded
//! caches evict, which files a preload pass still has to compute, and how download tasks move
//! through their lifecycle. Beside them stand the smaller rules of the workbench: the item
//! catalogue, the naming and rotation of history snapshots, the version table, the retry
//! policy of downloads, and what a resource path says about a resource. Reading files, walking
//! directories, scheduling threads and sending notifications are left to the caller.
pub mod bounded;
pub mod store;
pub mod text;
pub mod imaging;
pub mod image_handler;
pub mod preloader;
pub mod download_manager;
pub mod retry;
pub mod minecraft_data;
pub mod history_manager;
pub mod version_converter;
pub mod pack_parser;
