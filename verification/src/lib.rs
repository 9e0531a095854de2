//! Log monitoring core: turns raw log lines into structured security alerts.

pub mod address;
pub mod alert;
pub mod cli;
pub mod event;
pub mod output;
pub mod parser;
pub mod pattern;
pub mod reader;
pub mod rules;
pub mod stats;
pub mod text;
pub mod time;
