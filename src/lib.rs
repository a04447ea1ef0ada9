//! Archives the thumbnail of a channel that has just gone live.
//!
//! The library holds the pipeline's decisions: which requests to send, how to
//! read the replies, how the thumbnail address and the storage key are formed,
//! and the state machine that sequences the stages. Sending the requests is
//! left to the caller.
use vstd::prelude::*;

pub mod thumbnail;
pub mod config;
pub mod pipeline;
pub mod twitch;
