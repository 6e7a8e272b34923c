//! The server: the builds that it runs, and how it answers its clients.

pub mod build_run;
pub mod error_report;
pub mod executor;
pub mod logger;
pub mod request;
pub mod run_service;
