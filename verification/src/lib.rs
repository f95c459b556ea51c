//! Counts significant source lines, attributing them per file extension.
//!
//! The core is a comment-aware line classifier: a fixed registry maps a file
//! extension to an ordered list of comment rules (line-prefix markers and
//! block open/close marker pairs), and a single forward pass over the lines
//! of one file decides, for each physical line, whether it counts as code.
//! Everything works on lines given as byte sequences; reading files, walking
//! directories and printing the tallies are left to callers.

pub mod bytes;
pub mod classify;
pub mod lang;
pub mod tally;
