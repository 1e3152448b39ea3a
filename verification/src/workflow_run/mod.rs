//! Workflow runs and the task queue.

pub mod data;
pub mod service;
