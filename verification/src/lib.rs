//! RemoteLink: the decision logic of the host, the desktop shell and the developer agents.

pub mod args;
pub mod bug_hunt;
pub mod coverage_gate;
pub mod desktop;
pub mod hex_text;
pub mod host;
pub mod json;
pub mod order;
pub mod paths;
pub mod platform;
pub mod source_tree;
pub mod text;
pub mod text_map;
pub mod unit_test_agent;
