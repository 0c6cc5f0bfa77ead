//! A fully resolved step: a command sequence plus the metadata that controls
//! dependency dispatch, ordering, output suppression, and staleness. Every
//! dependency is itself an owned, fully resolved step, so a resolved step is
//! a finite tree.

use vstd::prelude::*;

verus! {

/// A step with all dependency references recursively expanded.
pub struct Step {
    /// Command lines, run in order, each as one shell invocation.
    pub command: Vec<String>,
    /// Environment entries carried from the configuration, in file order.
    pub env: Vec<(String, String)>,
    /// Canonical path of the configuration file that declared the step.
    pub dir: String,
    /// May this step be dispatched concurrently when it is a dependency?
    pub asynch: bool,
    /// Fully resolved dependencies, in declared order.
    pub dependencies: Vec<Step>,
    /// Forces strictly sequential execution of this step's dependencies.
    pub in_order: bool,
    /// Suppresses the step's command output.
    pub quiet: bool,
    /// Paths whose modification decides staleness, relative to the directory
    /// of the declaring configuration file; `None` means always stale.
    pub watch: Option<Vec<String>>,
}

/// The mathematical image of a resolved step: the same tree over character
/// sequences.
pub struct StepModel {
    pub command: Seq<Seq<char>>,
    pub env: Seq<(Seq<char>, Seq<char>)>,
    pub dir: Seq<char>,
    pub asynch: bool,
    pub dependencies: Seq<StepModel>,
    pub in_order: bool,
    pub quiet: bool,
    pub watch: Option<Seq<Seq<char>>>,
}

/// Does the executable step carry exactly the contents of the model,
/// dependency subtrees included?
pub open spec fn step_models(s: Step, m: StepModel) -> bool
    decreases m,
{
    &&& s.command.deep_view() == m.command
    &&& s.env.deep_view() == m.env
    &&& s.dir@ == m.dir
    &&& s.asynch == m.asynch
    &&& s.dependencies.len() == m.dependencies.len()
    &&& (forall|i: int|
        0 <= i < m.dependencies.len() ==> step_models(
            #[trigger] s.dependencies[i],
            m.dependencies[i],
        ))
    &&& s.in_order == m.in_order
    &&& s.quiet == m.quiet
    &&& match (s.watch, m.watch) {
        (Option::None, Option::None) => true,
        (Option::Some(v), Option::Some(w)) => v.deep_view() == w,
        _ => false,
    }
}

} // verus!
