//! Job execution.

pub mod action_exec;
pub mod artifacts;
pub mod cache;
pub mod cgroup_join;
pub mod depth_tracker;
pub mod expressions;
pub mod handlers;
pub mod job_spec;
pub mod oidc;
pub mod output_ref;
pub mod service_auth;
pub mod shadow;
pub mod step_host;
pub mod step_timeout;
pub mod workflow;
