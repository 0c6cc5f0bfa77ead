//! Decision logic of the execution engine: how each dependency of a step is
//! dispatched, whether a step may be skipped as unchanged, and the staleness
//! comparison of watched files against the previous-run timestamp. The engine
//! loop itself performs the process spawning and task joining; every choice
//! it makes comes from a function here.

use vstd::prelude::*;

use crate::step::Step;

verus! {

/// A snapshot of one watched filesystem entry: either a single file with its
/// modification time (epoch seconds), or a directory with the snapshots of
/// everything beneath it.
pub enum FsNode {
    File { path: String, mtime: u64 },
    Dir { path: String, entries: Vec<FsNode> },
}

/// All files beneath a node, depth-first, as (path, modification time) pairs.
pub open spec fn flat_files(n: FsNode) -> Seq<(Seq<char>, u64)>
    decreases n, 1int,
{
    match n {
        FsNode::File { path, mtime } => seq![(path@, mtime)],
        FsNode::Dir { path: _, entries } => flat_files_seq(entries@),
    }
}

/// All files beneath a sequence of nodes, in order, depth-first.
pub open spec fn flat_files_seq(s: Seq<FsNode>) -> Seq<(Seq<char>, u64)>
    decreases s, 0int,
{
    if s.len() == 0 {
        Seq::empty()
    } else {
        flat_files(s[0]) + flat_files_seq(s.drop_first())
    }
}

/// Depth-first file enumeration beneath one filesystem snapshot node: a file
/// stands for itself, a directory for every file beneath it, in order.
#[verifier::loop_isolation(false)]
pub fn get_files_in_dir(dir: &FsNode) -> (files: Vec<(String, u64)>)
    ensures
        files.deep_view() == flat_files(*dir),
    decreases *dir,
{
    match dir {
        FsNode::File { path, mtime } => {
            let mut files: Vec<(String, u64)> = Vec::new();
            files.push((path.clone(), *mtime));
            proof {
                assert(files.deep_view() =~= flat_files(*dir));
            }
            files
        },
        FsNode::Dir { path: _, entries } => {
            let mut files: Vec<(String, u64)> = Vec::new();
            let mut i: usize = 0;
            proof {
                assert(entries@.skip(0) =~= entries@);
            }
            while i < entries.len()
                invariant
                    i <= entries.len(),
                    flat_files(*dir) == files.deep_view() + flat_files_seq(entries@.skip(i as int)),
                decreases entries.len() - i,
            {
                proof {
                    vstd::std_specs::vec::axiom_vec_index_decreases(*entries, i as int);
                    assert(decreases_to!(*dir => dir->Dir_entries));
                }
                let mut sub = get_files_in_dir(&entries[i]);
                proof {
                    assert(entries@.skip(i as int)[0] == entries@[i as int]);
                    assert(entries@.skip(i as int).drop_first() =~= entries@.skip(i as int + 1));
                    assert(files.deep_view() + sub.deep_view() =~= (files@ + sub@).map(
                        |j: int, p: (String, u64)| p.deep_view(),
                    ));
                }
                files.append(&mut sub);
                proof {
                    assert(files.deep_view() =~= files@.map(
                        |j: int, p: (String, u64)| p.deep_view(),
                    ));
                }
                i = i + 1;
            }
            proof {
                assert(entries@.skip(entries@.len() as int) =~= Seq::<FsNode>::empty());
                assert(flat_files(*dir) =~= files.deep_view());
            }
            files
        },
    }
}

/// Is the step stale against the snapshots of its watched entries? A missing
/// previous-run timestamp means "always stale"; otherwise the step is stale
/// exactly when some file beneath some watched entry was modified strictly
/// after the previous run.
pub open spec fn spec_stale(entries: Seq<FsNode>, last_run: Option<u64>) -> bool {
    match last_run {
        Option::None => true,
        Option::Some(t) => exists|i: int, j: int|
            0 <= i < entries.len() && 0 <= j < flat_files(entries[i]).len() && (#[trigger] flat_files(
                entries[i],
            )[j]).1 > t,
    }
}

/// The staleness check of the engine: given the snapshots of a step's watched
/// entries and the previous-run timestamp, decide whether any watched file
/// changed since that run. With no previous run every step is stale.
#[verifier::loop_isolation(false)]
pub fn watch(entries: &Vec<FsNode>, last_run: Option<u64>) -> (stale: bool)
    ensures
        stale == spec_stale(entries@, last_run),
{
    let t: u64 = match last_run {
        Option::None => { return true },
        Option::Some(t) => t,
    };
    let mut i: usize = 0;
    while i < entries.len()
        invariant
            i <= entries.len(),
            last_run == Option::Some(t),
            !spec_stale(entries@.take(i as int), last_run),
        decreases entries.len() - i,
    {
        let files = get_files_in_dir(&entries[i]);
        let mut j: usize = 0;
        while j < files.len()
            invariant
                j <= files.len(),
                files.deep_view() == flat_files(entries@[i as int]),
                i < entries.len(),
                last_run == Option::Some(t),
                !spec_stale(entries@.take(i as int), last_run),
                forall|k: int| 0 <= k < j ==> (#[trigger] files.deep_view()[k]).1 <= t,
            decreases files.len() - j,
        {
            if files[j].1 > t {
                proof {
                    assert(flat_files(entries@[i as int])[j as int].1 > t);
                }
                return true;
            }
            j = j + 1;
        }
        proof {
            assert forall|a: int, b: int|
                0 <= a < i as int + 1 && 0 <= b < flat_files(
                    entries@.take(i as int + 1)[a],
                ).len() implies !((#[trigger] flat_files(entries@.take(i as int + 1)[a])[b]).1
                > t) by {
                if a < i as int {
                    assert(entries@.take(i as int + 1)[a] == entries@.take(i as int)[a]);
                    assert(!spec_stale(entries@.take(i as int), last_run));
                } else {
                    assert(entries@.take(i as int + 1)[a] == entries@[i as int]);
                    assert(flat_files(entries@[i as int])[b] == files.deep_view()[b]);
                }
            }
        }
        i = i + 1;
    }
    proof {
        assert(entries@.take(entries@.len() as int) =~= entries@);
    }
    false
}

/// Is the dependency at position `i` of this step dispatched concurrently?
/// Only a dependency marked `async` under a parent not marked `in_order` is.
pub open spec fn spec_dispatch_concurrent(parent: Step, i: int) -> bool {
    parent.dependencies[i].asynch && !parent.in_order
}

/// The dependency dispatch plan of a step: one flag per dependency, in
/// declared order; `true` means "dispatch as a concurrently-running task and
/// join later", `false` means "execute immediately and wait".
#[verifier::loop_isolation(false)]
pub fn dependency_dispatch(parent: &Step) -> (plan: Vec<bool>)
    ensures
        plan.len() == parent.dependencies.len(),
        forall|i: int| 0 <= i < plan.len() ==> plan[i] == spec_dispatch_concurrent(*parent, i),
{
    let mut plan: Vec<bool> = Vec::new();
    let mut i: usize = 0;
    while i < parent.dependencies.len()
        invariant
            i <= parent.dependencies.len(),
            plan.len() == i,
            forall|k: int| 0 <= k < i ==> plan[k] == spec_dispatch_concurrent(*parent, k),
        decreases parent.dependencies.len() - i,
    {
        plan.push(parent.dependencies[i].asynch && !parent.in_order);
        i = i + 1;
    }
    plan
}

/// A step marked `in_order` never dispatches a dependency concurrently,
/// whatever the dependencies' own `async` flags say: its dependencies run
/// strictly sequentially, in declared order.
pub proof fn lemma_in_order_forces_sequential(parent: Step)
    requires
        parent.in_order,
    ensures
        forall|i: int| !spec_dispatch_concurrent(parent, i),
{
}

/// Under a parent not marked `in_order`, every dependency marked `async` is
/// dispatched concurrently, so such siblings may run at the same time.
pub proof fn lemma_async_deps_run_concurrently(parent: Step)
    requires
        !parent.in_order,
    ensures
        forall|i: int|
            0 <= i < parent.dependencies.len() && (#[trigger] parent.dependencies[i]).asynch
                ==> spec_dispatch_concurrent(parent, i),
{
}

/// Did every dependency report "skipped as unchanged"? True as well when
/// there were no dependencies at all.
#[verifier::loop_isolation(false)]
pub fn all_dependencies_skipped(ran: &Vec<bool>) -> (r: bool)
    ensures
        r == (forall|i: int| 0 <= i < ran.len() ==> !ran[i]),
{
    let mut i: usize = 0;
    while i < ran.len()
        invariant
            i <= ran.len(),
            forall|k: int| 0 <= k < i ==> !ran[k],
        decreases ran.len() - i,
    {
        if ran[i] {
            return false;
        }
        i = i + 1;
    }
    true
}

/// Does the step declare a watch list with at least one entry? Only such a
/// step can be skipped as unchanged.
pub fn declares_watch(watch: &Option<Vec<String>>) -> (r: bool)
    ensures
        r == match watch {
            Option::Some(list) => list@.len() > 0,
            Option::None => false,
        },
{
    match watch {
        Option::Some(list) => list.len() > 0,
        Option::None => false,
    }
}

/// The skip decision of the engine: a step runs its commands unless every
/// dependency was skipped, the step declares a watch list, and the staleness
/// check found nothing modified.
pub fn should_run_commands(all_deps_skipped: bool, has_watch: bool, stale: bool) -> (run: bool)
    ensures
        run == !(all_deps_skipped && has_watch && !stale),
{
    !(all_deps_skipped && has_watch && !stale)
}

/// The output policy of one command: output is suppressed when the engine
/// runs quietly or the step itself is marked quiet.
pub fn suppress_output(global_quiet: bool, step: &Step) -> (suppress: bool)
    ensures
        suppress == (global_quiet || step.quiet),
{
    global_quiet || step.quiet
}

/// A step with a previous-run timestamp strictly newer than the modification
/// time of every file beneath every watched entry is not stale, so once all
/// its dependencies were skipped it does not run its commands.
pub proof fn lemma_unmodified_watch_skips(entries: Seq<FsNode>, t: u64)
    requires
        forall|i: int, j: int|
            0 <= i < entries.len() && 0 <= j < flat_files(entries[i]).len()
                ==> (#[trigger] flat_files(entries[i])[j]).1 < t,
    ensures
        !spec_stale(entries, Option::Some(t)),
{
}

/// A step with no previous-run timestamp is always stale, so it always runs,
/// whatever its watch list holds.
pub proof fn lemma_no_previous_run_always_stale(entries: Seq<FsNode>)
    ensures
        spec_stale(entries, Option::None),
{
}

} // verus!
