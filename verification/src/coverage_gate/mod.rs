//! Per-package coverage / test-presence gates.
//!
//! Fail-closed **only** for packages listed in the allowlist. Packages that are not listed are
//! ignored.
//!
//! # Modes
//!
//! - **tests** — require `min_tests` test functions under `src/` / `tests/`
//! - **llvm-cov** — also enforce `min_line_coverage`
//! - **auto** — llvm-cov when the tool is available, else tests

pub mod allowlist;
pub mod gate;
pub mod llvm_cov;
pub mod test_count;
