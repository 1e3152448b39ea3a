//! Workflows and tasks.

pub mod data;
