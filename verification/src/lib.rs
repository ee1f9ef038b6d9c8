//! Persistent application settings with default-on-corrupt recovery.
//!
//! The heart of the crate is [`config::AppConfig`], an immutable snapshot of
//! user-adjustable settings that is stored on disk as a pretty-printed JSON
//! object.  The crate provides a verified serializer and a verified,
//! fault-tolerant parser for that format: a missing field falls back to its
//! documented default, while a file that is not valid JSON, has a field of the
//! wrong type, or repeats a field makes the whole snapshot fall back to
//! all-defaults.  Serializing a snapshot and parsing the result is proved to
//! give back the same snapshot.
//!
//! The smaller companion modules hold the demo arithmetic helpers
//! ([`math`]), the plain system-description record ([`sysinfo`]) and the
//! explicit UI state snapshot ([`state`]).

pub mod chars;
pub mod config;
pub mod json;
pub mod math;
pub mod state;
pub mod sysinfo;
