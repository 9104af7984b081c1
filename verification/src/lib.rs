//! A pluggable module-execution engine: modules register their metadata at
//! start-up, a selector filters them by identifier and host platform, and a
//! batch collects one result per selected module.

pub mod action;
pub mod cli;
pub mod descriptor;
pub mod dispatcher;
pub mod engine;
pub mod error;
pub mod message;
pub mod modules;
pub mod order;
pub mod registration;
pub mod registry;
pub mod runner;
pub mod selector;
pub mod state;
pub mod table;
pub mod text;
pub mod tui;
pub mod utils;
