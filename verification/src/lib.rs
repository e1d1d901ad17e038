//! Library of the cyberdeck SSH key manager: key health audits, SSH config
//! parsing and import, target profiles, remote key exchange decisions, config
//! persistence rules, and the state machine of the terminal interface.
pub mod text;
pub mod models;
pub mod ssh_config;
pub mod health;
pub mod keys;
pub mod ssh_ops;
pub mod storage;
pub mod cli;
pub mod tui;
pub mod tui_state;
pub mod screen;
