//! Storage backends for the repository contract.

pub mod inmemory;
