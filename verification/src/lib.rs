//! The core of a desktop companion for a messenger that keeps its messages
//! in a local SQLite store: decoding the stored content, reading the store,
//! keeping a searchable cache of it up to date, and telling from changes of
//! the write-ahead log that a new message has arrived. Beside it stand the
//! rules of the calendar, of the school data and of the timetable.
//!
//! The library decides and computes on plain values; it opens no file and no
//! database. What it computes itself is proved against the contracts it
//! states. Where it calls into another crate, the call stands in a small
//! function of its own whose contract is taken on trust and says so.

pub mod class_time;
pub mod codec;
pub mod content;
pub mod file_paths;
pub mod fts;
pub mod json;
pub mod models;
pub mod preview;
pub mod reader;
pub mod schedule;
pub mod school_data;
pub mod search_cache;
pub mod search_db;
pub mod settings;
pub mod snippet;
pub mod text;
pub mod timetable;
pub mod watcher;
