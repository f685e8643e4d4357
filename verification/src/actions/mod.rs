//! Actions: the single steps of a run, each one agent invocation or one
//! question to the repository.
pub mod agent;
pub mod filesystem;

pub use agent::{feature_review, generate_test_instructions, implement, plan_order, review};
pub use filesystem::detect_repo_slug;
