//! Process supervision logic: job table, service registry, watcher and
//! I/O routing rules, stated as pure state machines with verified contracts.

pub mod client;
pub mod clock;
pub mod config;
pub mod dir_utils;
pub mod dispatch;
pub mod events;
pub mod io_router;
pub mod jobs;
pub mod laws;
pub mod logger;
pub mod orchestrate;
pub mod protocol;
pub mod service;
pub mod signal;
pub mod status;
pub mod text;
pub mod text_map;
pub mod watcher;

pub use protocol::{Request, Response, ResponsePart};
