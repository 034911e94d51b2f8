//! The listener: polling the broker for a job and running it.

pub mod execution_loop;
pub mod job_lifecycle;
pub mod log_uploader;
