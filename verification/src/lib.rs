//! Decisions of the LibreQoS control plane, verified.
//!
//! - `file_lock` decides how the lock on the override files is taken, and `lock_metadata`
//!   reads and writes the text of its lock file. `acquisition_laws` and `lock_text_laws` state
//!   what holds of them as a whole.
//! - `memory_watchdog` decides when memory pressure calls for a warning or a restart.
//! - `remote_commands` decides what a command from Insight leads to, and `command_runner`
//!   records which commands of a batch were run.
//! - `network_tree` decides what the ticker requests and publishes.
//! - `lock_laws`, `lock_content_laws`, `watchdog_laws`, `proc_laws`, `command_laws`,
//!   `ticker_laws`, `size_laws` and `text_laws` state what these are for, as relations between
//!   what goes into their functions and what comes out.
//! - `text`, `decimal`, `byte_size` and `errno` are what these are built on.
//!
//! System calls, clocks, logging and the bus stay with the caller: each decision takes what
//! came of the last action and says what the next one is.

pub mod acquisition_laws;
pub mod byte_size;
pub mod command_laws;
pub mod command_runner;
pub mod decimal;
pub mod errno;
pub mod file_lock;
pub mod lock_content_laws;
pub mod lock_laws;
pub mod lock_metadata;
pub mod lock_text_laws;
pub mod memory_watchdog;
pub mod network_tree;
pub mod proc_laws;
pub mod remote_commands;
pub mod size_laws;
pub mod text;
pub mod text_laws;
pub mod ticker_laws;
pub mod watchdog_laws;
