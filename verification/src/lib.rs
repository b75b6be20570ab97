//! Surveys a directory tree for stale entries: for every entry visited, how
//! many days ago it was created, last modified and last accessed.
//!
//! The library holds the rules of the survey on plain values: the conversion
//! of an elapsed time to days, the test for hidden names, the choice of the
//! entries that a bounded, pruning walk visits, and the rows of the report.
//! Reading the file system and printing are left to the caller.
//!
//! A time stamp that cannot be read does not end a survey: the entry is shown
//! with minus one in the place of the age. A line break or an escape
//! character in a name is shown as a question mark, so that every entry takes
//! one line of the report.

pub mod age;
pub mod hidden;
pub mod entry;
pub mod walk;
pub mod config;
pub mod report;
