//! Whitelist-gated trigger for point-in-time snapshots of storage volumes.
//!
//! A request names a volume in its query. If the volume is on the whitelist,
//! the snapshot command is run for it, under a name made of the volume and
//! the day, and the response says whether that worked; every other request
//! gets one and the same refusal.
//!
//! - [`text`]: whitespace, trimming and lines, over `Seq<char>`.
//! - [`whitelist`]: the whitelist, read from a text.
//! - [`date`]: calendar dates and the date tag `YYYY-MM-DD`.
//! - [`executor`]: snapshot names, the command line, and what the result of
//!   the command means.
//! - [`handler`]: from the query of a request to the response.
//!
//! The library reads no file, opens no socket and starts no process: the
//! program around it does, and hands over what it read and what the command
//! gave.

pub mod date;
pub mod executor;
pub mod handler;
pub mod text;
pub mod whitelist;
