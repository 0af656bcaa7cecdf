//! Verified core of a command-line video-fetching front end.
//!
//! The library holds the logic that drives two external binaries: a
//! date-shaped version parser and comparator, release-metadata handling
//! (tag extraction and asset selection), archive-entry extraction for
//! self-updates, the downloader argument contract, progress-line parsing
//! for the subprocess streamer, and the retry-loop state machine.
//! The surrounding I/O (HTTP, process spawning, terminal rendering)
//! lives outside the library and hands it plain values.

pub mod archive;
pub mod chars;
pub mod progress;
pub mod release;
pub mod retry;
pub mod subproc;
pub mod updater;
pub mod urlcheck;
pub mod version;
