//! The host: its service, its session agent and what both decide.

pub mod agent;
pub mod agent_run;
pub mod agent_state;
pub mod chrome;
pub mod control;
pub mod control_loop;
pub mod local_run;
pub mod options;
pub mod platform_capture;
pub mod policy;
pub mod roles;
pub mod service;
pub mod session;
pub mod signal_kind;
pub mod synthetic;
pub mod tray;
pub mod ws_session;
