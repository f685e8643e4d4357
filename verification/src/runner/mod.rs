//! Agent runners: how the agent is invoked.
pub mod local;

pub use local::LocalRunner;
