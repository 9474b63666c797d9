//! What a run was asked to do.

use vstd::prelude::*;

verus! {

/// The options of a run.
#[derive(Debug, Clone, PartialEq, Eq)]
pub struct Args {
    /// Update all package
    pub all: bool,
    /// Update git packages
    pub git: bool,
    /// Only list outdated packages
    pub list: bool,
    /// Package names to update
    pub names: Option<Vec<String>>,
}

} // verus!
