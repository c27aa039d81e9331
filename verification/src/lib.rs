//! A file-backed, append-only store of time-stamped records.
//!
//! Records are appended to one partition file per table and hour, and read
//! back over a range of time by a cursor. This crate holds the rules of the
//! store: the record format, the layout of partition files, and the cursor's
//! state machine. It touches no file itself: every operation on the disk is
//! handed to the caller as a value, and what the caller found is handed back.

pub mod clock;
pub mod cursor;
pub mod database;
pub mod digits;
pub mod inserts;
pub mod parser;
pub mod query;
pub mod record;
pub mod volume;
