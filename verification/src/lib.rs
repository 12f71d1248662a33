//! Core of a per-guild voice playback scheduler.
//!
//! Each connected guild owns one ordered queue of pending tracks and one
//! background worker that plays them in FIFO order.  The queue, the worker's
//! control decisions, pagination over the queue, and the surrounding string
//! and database helpers are all verified here; the asynchronous plumbing
//! (locks, condition variables, the voice transport) lives outside the
//! library and drives these functions.

pub mod commands;
pub mod config;
pub mod database;
pub mod logs;
pub mod media_info;
pub mod message_context;
pub mod metadata;
pub mod pagination;
pub mod player;
pub mod registry;
pub mod responses;
pub mod strings;

pub use media_info::{MediaInfo, PlaylistInfo};
