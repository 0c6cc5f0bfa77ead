use doer::exec::{
    all_dependencies_skipped, dependency_dispatch, get_files_in_dir, should_run_commands,
    suppress_output, watch, FsNode,
};
use doer::step::Step;

fn leaf(command: &str, asynch: bool) -> Step {
    Step {
        command: vec![command.to_string()],
        env: Vec::new(),
        dir: "/r/build.toml".to_string(),
        asynch,
        dependencies: Vec::new(),
        in_order: false,
        quiet: false,
        watch: None,
    }
}

fn parent(in_order: bool, dependencies: Vec<Step>) -> Step {
    Step {
        command: Vec::new(),
        env: Vec::new(),
        dir: "/r/build.toml".to_string(),
        asynch: false,
        dependencies,
        in_order,
        quiet: false,
        watch: None,
    }
}

#[test]
fn in_order_parent_dispatches_every_dependency_sequentially() {
    let step = parent(true, vec![leaf("echo a", true), leaf("echo b", true)]);
    let plan = dependency_dispatch(&step);
    assert_eq!(plan, vec![false, false]);
}

#[test]
fn async_dependencies_of_unordered_parent_are_dispatched_concurrently() {
    let step = parent(false, vec![leaf("echo a", true), leaf("echo b", true)]);
    let plan = dependency_dispatch(&step);
    assert_eq!(plan, vec![true, true]);
}

#[test]
fn synchronous_dependencies_stay_sequential_among_concurrent_siblings() {
    let step = parent(false, vec![leaf("echo a", true), leaf("echo b", false)]);
    let plan = dependency_dispatch(&step);
    assert_eq!(plan, vec![true, false]);
}

#[test]
fn all_skipped_is_true_for_no_dependencies() {
    assert!(all_dependencies_skipped(&Vec::new()));
    assert!(all_dependencies_skipped(&vec![false, false]));
    assert!(!all_dependencies_skipped(&vec![false, true]));
}

#[test]
fn files_are_enumerated_depth_first() {
    let tree = FsNode::Dir {
        path: "/w".to_string(),
        entries: vec![
            FsNode::File { path: "/w/a".to_string(), mtime: 1 },
            FsNode::Dir {
                path: "/w/d".to_string(),
                entries: vec![FsNode::File { path: "/w/d/b".to_string(), mtime: 2 }],
            },
            FsNode::File { path: "/w/c".to_string(), mtime: 3 },
        ],
    };
    let files = get_files_in_dir(&tree);
    assert_eq!(
        files,
        vec![
            ("/w/a".to_string(), 1),
            ("/w/d/b".to_string(), 2),
            ("/w/c".to_string(), 3),
        ]
    );
}

#[test]
fn untouched_watch_entries_are_not_stale() {
    let entries = vec![
        FsNode::File { path: "/w/a".to_string(), mtime: 10 },
        FsNode::Dir {
            path: "/w/d".to_string(),
            entries: vec![FsNode::File { path: "/w/d/b".to_string(), mtime: 20 }],
        },
    ];
    // The previous run is strictly newer than every watched file.
    assert!(!watch(&entries, Some(21)));
    // A file modified at the previous-run instant is not strictly later.
    assert!(!watch(&entries, Some(20)));
    // One file strictly newer makes the step stale.
    assert!(watch(&entries, Some(19)));
}

#[test]
fn missing_previous_run_is_always_stale() {
    assert!(watch(&Vec::new(), None));
    let entries = vec![FsNode::File { path: "/w/a".to_string(), mtime: 0 }];
    assert!(watch(&entries, None));
}

#[test]
fn skip_needs_skipped_dependencies_and_a_watch_list_and_freshness() {
    // Fresh watched step with skipped dependencies: skipped.
    assert!(!should_run_commands(true, true, false));
    // Stale: runs.
    assert!(should_run_commands(true, true, true));
    // No watch list: runs.
    assert!(should_run_commands(true, false, false));
    // A dependency ran: runs.
    assert!(should_run_commands(false, true, false));
}

#[test]
fn output_is_suppressed_by_either_quiet_flag() {
    let mut step = leaf("echo", false);
    assert!(!suppress_output(false, &step));
    assert!(suppress_output(true, &step));
    step.quiet = true;
    assert!(suppress_output(false, &step));
}

#[test]
fn only_a_non_empty_watch_list_counts_as_watching() {
    assert!(!doer::exec::declares_watch(&None));
    assert!(!doer::exec::declares_watch(&Some(Vec::new())));
    assert!(doer::exec::declares_watch(&Some(vec!["src".to_string()])));
}
