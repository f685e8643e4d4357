//! An issue as the GitHub CLI describes it.
use vstd::prelude::*;

verus! {

/// The raw shape of an issue that `gh issue view --json` prints.
#[derive(Debug, Clone)]
pub struct GhIssue {
    pub number: u64,
    pub title: String,
    pub body: String,
    pub labels: Vec<GhLabel>,
}

/// A label of a [`GhIssue`].
#[derive(Debug, Clone)]
pub struct GhLabel {
    pub name: String,
}

} // verus!
