//! Orphans, dependency structure and cleanup recommendations.
pub mod orphans;
pub mod recommendations;

use vstd::prelude::*;

verus! {

/// Items that nothing depends on, and items that no installed item requires.
pub struct DependencyAnalysis {
    pub leaves: Vec<String>,
    pub orphans: Vec<String>,
}

/// The dependency structure of the items. No dependency graph is built yet:
/// the analysis names no leaves and no orphans.
pub fn analyze_dependency_tree(packages: &Vec<crate::scanner::Package>) -> (r: DependencyAnalysis)
    ensures
        r.leaves@.len() == 0,
        r.orphans@.len() == 0,
{
    DependencyAnalysis { leaves: Vec::new(), orphans: Vec::new() }
}

} // verus!
