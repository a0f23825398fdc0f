//! The systems that the program runs on.

use vstd::prelude::*;

verus! {

/// The system that the host runs on.
#[derive(Debug, Clone, Copy, PartialEq, Eq, Structural)]
pub enum Platform {
    Linux,
    Windows,
    Other,
}

} // verus!
