//! Domain logic of a terminal watcher for CI workflow runs.

pub mod text;
pub mod model;
pub mod stats;
pub mod event;
pub mod diff;
pub mod time;
pub mod ports;
pub mod logtail;
pub mod token;
pub mod retry;
pub mod status;
pub mod link;
pub mod etag;
pub mod webhook;
pub mod cli;
pub mod engine;
pub mod github;
