//! Provisioning of a Zephyr development environment, as rules without
//! side effects.
//!
//! The library decides which external commands to run, in which order and
//! under which environment, how their output becomes log lines, and what
//! their outcome means. It also keeps the inventory of required tools and
//! the record of recent projects. Running the commands and touching the
//! disk is left to the host, which reports back what it observed.

pub mod catalog;
pub mod cmake;
pub mod cmd_west;
pub mod cmd_zephyr;
pub mod config_manager;
pub mod env_manager;
pub mod history;
pub mod history_laws;
pub mod install;
pub mod lines;
pub mod overlay;
pub mod pipeline;
pub mod platform;
pub mod process;
pub mod runner;
pub mod runner_laws;
pub mod session;
pub mod session_laws;
pub mod text;
