//! Directory change watching: a decoder for native change-notification
//! buffers, a single-owner cache of the latest event per path, and the
//! decisions of the watcher and of the startup configuration.
pub mod cache;
pub mod cli;
pub mod decoder;
pub mod event;
pub mod push;
pub mod watcher;

pub use cache::{CacheRequest, CacheResponse, EventCache};
pub use cli::{ConfigError, ConnectionType, Interval, CLI};
pub use event::{Action, Data, FileAttributes, MetadataWrapper, ProbeError};
