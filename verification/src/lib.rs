//! Decision logic of a runtime process-execution monitor: severity levels,
//! execution rules, container attribution and report rendering.

pub mod cgroup;
pub mod cli;
pub mod docker;
pub mod event;
pub mod report;
pub mod rules;
pub mod severity;
pub mod text;
