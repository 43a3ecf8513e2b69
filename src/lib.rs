//! Usage estimation and cleanup recommendations for installed software.
pub mod order;
pub mod text;
pub mod usage;
pub mod scanner;
pub mod utils;
pub mod analysis;
pub mod storage;
pub mod cleanup;
pub mod cli;
