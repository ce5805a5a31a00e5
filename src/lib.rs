//! Request admission and the decisions of a small named-record service.
//!
//! The library holds the logic: a fixed-window rate limiter, the rules that
//! keep one record per name, the handlers' decisions and the checks on the
//! settings. The program around it reads the clock, talks to the database
//! and serves HTTP.
pub mod config;
pub mod handler;
pub mod rate_limit;
pub mod records;
pub mod table;
