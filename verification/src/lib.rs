//! Decision logic of a self-hosted GitHub Actions runner.

pub mod backoff;
pub mod boot_cmd;
pub mod cli;
pub mod config;
pub mod create_app_cmd;
pub mod docker;
pub mod error;
pub mod execution;
pub mod hex;
pub mod journal;
pub mod listener;
pub mod login_cmd;
pub mod net;
pub mod node;
pub mod number;
pub mod order;
pub mod outside;
pub mod path;
pub mod register_cmd;
pub mod remove_cmd;
pub mod reporting;
pub mod run_cmd;
pub mod runner;
pub mod service_cmd;
pub mod setup_cmd;
pub mod stamp;
pub mod status_cmd;
pub mod strmap;
pub mod text;
pub mod types;
pub mod watch;
pub mod wizard_steps;
