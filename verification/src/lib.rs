//! Converts exported mood-journal notes into journal entries.
//!
//! [`notion::parse_file`] turns one exported note into a [`notion::MoodLog`];
//! [`day_one::make_args`] lays out the command line that files such a record
//! with the journaling program.

pub mod day_one;
pub mod error;
pub mod laws;
pub mod notion;
pub mod percent;
pub mod text;
pub mod timestamp;
