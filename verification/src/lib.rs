//! A terminal dashboard's core for a batch scheduler's accounting data:
//! parsing accounting text into job records, folding array tasks into ranges,
//! filtering and ordering a refresh, and the navigation state of the screens.

pub mod app;
pub mod display;
pub mod editor;
pub mod job_handler;
pub mod job_query_info;
pub mod jobs;
pub mod parser;
pub mod text;
pub mod ui;
