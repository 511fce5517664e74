//! A small container runtime for Linux.
//!
//! The library decides, and asks: it turns options into a configuration, a
//! configuration into a container, and a container into programs of requests to the
//! system, one for each process that takes part. It takes the system's replies and says
//! what comes next. Performing the requests is left to its user.
//!
//! - `text` handles texts, `config` holds configurations, `namespaces` the kernel's
//!   namespaces and their flags, `json` JSON values.
//! - `steps` defines programs, `run` runs them, and `session` follows a container's
//!   processes through their forks.
//! - `container` is the runtime with a network and a firewall, and its command line.
//! - `basic` holds two plainer runtimes.

pub mod basic;
pub mod config;
pub mod container;
pub mod json;
pub mod namespaces;
pub mod run;
pub mod session;
pub mod steps;
pub mod text;
