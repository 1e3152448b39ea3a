//! Executors: the processes that claim scheduled workflow runs and run their tasks.

pub mod data;
pub mod utilities;
pub mod worker;
pub mod service;
