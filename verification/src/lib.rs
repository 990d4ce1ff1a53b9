//! Session-scoped persistence rules for a small gallery of saved cat images.

pub mod config;
pub mod error;
pub mod model;
pub mod pager;
pub mod plan;
pub mod saving;
pub mod seqs;
pub mod service;
pub mod session;
pub mod sql;
pub mod store;
pub mod table;
pub mod url;
