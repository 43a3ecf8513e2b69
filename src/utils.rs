//! Formatting of sizes and ages for people to read.
pub mod date;
pub mod process;
pub mod size;
