//! Recurring jobs that start workflow runs on a schedule.

pub mod data;
pub mod service;
