//! Omni: a universal package manager's core logic.

pub mod advanced_resolver;
pub mod advanced_resolver_v2;
pub mod appimage;
pub mod audit;
pub mod box_ops;
pub mod boxes;
pub mod brain;
pub mod branding;
pub mod config;
pub mod database;
pub mod discovery;
pub mod distro;
pub mod docker;
pub mod error_handling;
pub mod error_monitor;
pub mod graph;
pub mod hardware;
pub mod history;
pub mod input_validation;
pub mod interactive;
pub mod keyed;
pub mod manifest;
pub mod privilege_manager;
pub mod rate_limiter;
pub mod repos;
pub mod resolver;
pub mod runtime;
pub mod sandboxing;
pub mod search;
pub mod secure_brain;
pub mod secure_executor;
pub mod text;
