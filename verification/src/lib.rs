//! Maintenance of rclone VFS cache directories: the verified core.
//!
//! The library takes every decision of a maintenance run and performs no I/O. Where a
//! decision depends on the outside world, a step function takes what was observed and
//! returns what to do next; the program around it does that and reports back.
//!
//! - [`startup`], [`cleanup`], [`report`]: the command line and what is printed.
//! - [`config`]: sizes, truth values and the rules for a configuration.
//! - [`run`]: the order of a run, from the configuration to the released locks.
//! - [`cache_lock`], [`cache_check`], [`mount_wait`]: what comes before a cache is touched.
//! - [`dirty_check`], [`cache_ops`], [`resolver`], [`capacity`]: the cache itself.
//! - [`walk`], [`worker`], [`verification`], [`access`], [`warm_log`]: the warming of files.
//! - [`status`]: the live display.
//! - [`native`], [`text`]: paths and strings.

pub mod access;
pub mod cache_check;
pub mod cache_lock;
pub mod cache_ops;
pub mod capacity;
pub mod cleanup;
pub mod config;
pub mod dirty_check;
pub mod mount_wait;
pub mod native;
pub mod report;
pub mod resolver;
pub mod run;
pub mod startup;
pub mod status;
pub mod text;
pub mod verification;
pub mod walk;
pub mod warm_log;
pub mod worker;
