//! Job records: reading them from accounting text and preparing a refresh.

pub mod job_handler;
pub mod job_parser;
pub mod newest_first;
pub mod submit_time;
