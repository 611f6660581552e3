//! Sets the modification and access times of a file, or of every entry beneath
//! a directory, to one instant.
//!
//! The crate holds the decisions of such a run and none of its input or
//! output. [`clock`] turns the text of a timestamp into an instant. [`entry`]
//! has the entries of a filesystem and the check made of the root, [`report`]
//! the outcome of each entry and the line that reports it. [`run`] is the run
//! itself as a state machine: it asks for one filesystem operation at a time
//! and is told how each one went. [`model`] replays that machine against a
//! directory tree, and [`laws`] proves what every such replay leaves behind.

pub mod clock;
pub mod entry;
pub mod laws;
pub mod model;
pub mod report;
pub mod run;
