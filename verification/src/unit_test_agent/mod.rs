//! Unit-test agent: public-API inventory and draft coverage reports.
//!
//! Outputs are drafts for people to read: nothing here is merged or executed on its own.

pub mod inventory;
pub mod report;
pub mod syntax;
pub mod types;
pub mod workspace;
