//! Chaos profiles, protocol fuzzing and nightly reports.
//!
//! Profiles use no real network. Outputs are for people to look at; nothing is merged by itself.

pub mod artifact;
pub mod audio_desync;
pub mod cli;
pub mod config;
pub mod drop_packets;
pub mod profiles;
pub mod protocol_fuzz;
pub mod reconnect;
pub mod rng;
pub mod runner;
