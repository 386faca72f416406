//! Tracks the lines of code that one author adds and deletes across a set of
//! git working trees: what is still pending in each working tree, what was
//! committed today, and the running table of both per repository.

pub mod calendar;
pub mod git;
pub mod observation;
pub mod reconcile;
pub mod scan;
pub mod stats;
pub mod table;
