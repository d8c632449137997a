//! Health monitoring of web endpoints: which checks failed, when to report
//! and whom to notify, and what the HTTP API answers.

pub mod api;
pub mod config;
pub mod db;
pub mod notify;
pub mod poll;
pub mod pushover;
pub mod text;
