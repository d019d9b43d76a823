//! Module file formats.

pub mod protracker;
