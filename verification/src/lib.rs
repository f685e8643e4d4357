//! `intern` works through the issues of a repository with a coding agent:
//! it claims an issue, has the agent implement it, reviews the result until
//! the review is clean, asks for test instructions, and opens pull requests
//! as the configured merge strategy says. Every call on the outside world
//! goes through an interface of [`traits`], and a run's calls are kept, as
//! ghost state, in its [`context::Context`], so that the contracts and the
//! rules of [`laws`] speak of what a run did.
pub mod actions;
pub mod behaviors;
pub mod cli;
pub mod config;
pub mod context;
pub mod git;
pub mod github;
pub mod laws;
pub mod orchestrator;
pub mod runner;
pub mod scaffold;
pub mod text;
pub mod traits;
pub mod wizard;
pub mod workflows;
