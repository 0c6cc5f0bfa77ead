use doer::doc::{Document, OneOrMany, RawStep};
use doer::errors::BuildError;
use doer::resolve::{get_step_inner, Resolution, Workspace};

fn raw_step(command: OneOrMany, depends: OneOrMany) -> RawStep {
    RawStep {
        command,
        env: Vec::new(),
        asynch: None,
        depends,
        in_order: None,
        quiet: None,
        watch: None,
    }
}

fn doc(default: Option<&str>, steps: Vec<(&str, RawStep)>) -> Document {
    Document {
        default: default.map(|s| s.to_string()),
        steps: steps.into_iter().map(|(n, s)| (n.to_string(), s)).collect(),
    }
}

const FUEL: u64 = 64;

#[test]
fn missing_default_fails_with_missing_step() {
    let mut ws = Workspace::new();
    ws.record_file(
        "/r/build.toml".to_string(),
        doc(None, vec![("build", raw_step(OneOrMany::One("cc main.c".to_string()), OneOrMany::Missing))]),
    );
    match get_step_inner(None, "/r/build.toml", &ws, FUEL) {
        Resolution::Fail(BuildError::MissingStep(name)) => assert_eq!(name, "default"),
        _ => panic!("expected a missing step"),
    }
}

#[test]
fn declared_default_is_used() {
    let mut ws = Workspace::new();
    ws.record_file(
        "/r/build.toml".to_string(),
        doc(Some("build"), vec![("build", raw_step(OneOrMany::One("make".to_string()), OneOrMany::Missing))]),
    );
    match get_step_inner(None, "/r/build.toml", &ws, FUEL) {
        Resolution::Done(step) => assert_eq!(step.command, vec!["make".to_string()]),
        _ => panic!("expected the declared default step"),
    }
}

#[test]
fn step_literally_named_default_is_used() {
    let mut ws = Workspace::new();
    ws.record_file(
        "/r/build.toml".to_string(),
        doc(None, vec![("default", raw_step(OneOrMany::One("make all".to_string()), OneOrMany::Missing))]),
    );
    match get_step_inner(None, "/r/build.toml", &ws, FUEL) {
        Resolution::Done(step) => assert_eq!(step.command, vec!["make all".to_string()]),
        _ => panic!("expected the step named default"),
    }
}

#[test]
fn cross_file_name_resolves_in_child() {
    let mut ws = Workspace::new();
    ws.record_file("/r/build.toml".to_string(), doc(None, vec![]));
    ws.record_child(
        "/r/build.toml".to_string(),
        "a".to_string(),
        Some("/r/a/build.toml".to_string()),
    );
    ws.record_file(
        "/r/a/build.toml".to_string(),
        doc(None, vec![("b", raw_step(OneOrMany::One("echo b".to_string()), OneOrMany::Missing))]),
    );
    match get_step_inner(Some("a::b".to_string()), "/r/build.toml", &ws, FUEL) {
        Resolution::Done(step) => {
            assert_eq!(step.dir, "/r/a/build.toml");
            assert_eq!(step.command, vec!["echo b".to_string()]);
        }
        _ => panic!("expected the child step"),
    }
}

#[test]
fn delimiters_only_name_is_invalid_step() {
    let mut ws = Workspace::new();
    ws.record_file("/r/build.toml".to_string(), doc(None, vec![]));
    match get_step_inner(Some("::".to_string()), "/r/build.toml", &ws, FUEL) {
        Resolution::Fail(BuildError::InvalidStep(name)) => assert_eq!(name, "::"),
        _ => panic!("expected an invalid step"),
    }
}

#[test]
fn unresolvable_child_in_cross_file_name_is_invalid_path() {
    let mut ws = Workspace::new();
    ws.record_file("/r/build.toml".to_string(), doc(None, vec![]));
    ws.record_child("/r/build.toml".to_string(), "a".to_string(), None);
    match get_step_inner(Some("a::b".to_string()), "/r/build.toml", &ws, FUEL) {
        Resolution::Fail(BuildError::InvalidPath(p)) => assert_eq!(p, "a"),
        _ => panic!("expected an invalid path"),
    }
}

#[test]
fn unknown_single_name_falls_back_to_child_then_missing_step() {
    let mut ws = Workspace::new();
    ws.record_file("/r/build.toml".to_string(), doc(None, vec![]));
    // The child location was asked for and does not resolve: the original
    // name is reported missing.
    ws.record_child("/r/build.toml".to_string(), "ghost".to_string(), None);
    match get_step_inner(Some("ghost".to_string()), "/r/build.toml", &ws, FUEL) {
        Resolution::Fail(BuildError::MissingStep(name)) => assert_eq!(name, "ghost"),
        _ => panic!("expected a missing step"),
    }
}

#[test]
fn unknown_single_name_descends_into_existing_child_default() {
    let mut ws = Workspace::new();
    ws.record_file("/r/build.toml".to_string(), doc(None, vec![]));
    ws.record_child(
        "/r/build.toml".to_string(),
        "sub".to_string(),
        Some("/r/sub/build.toml".to_string()),
    );
    ws.record_file(
        "/r/sub/build.toml".to_string(),
        doc(Some("go"), vec![("go", raw_step(OneOrMany::One("echo sub".to_string()), OneOrMany::Missing))]),
    );
    match get_step_inner(Some("sub".to_string()), "/r/build.toml", &ws, FUEL) {
        Resolution::Done(step) => assert_eq!(step.dir, "/r/sub/build.toml"),
        _ => panic!("expected the child's default step"),
    }
}

#[test]
fn single_string_command_becomes_one_element_sequence() {
    let mut ws = Workspace::new();
    ws.record_file(
        "/r/build.toml".to_string(),
        doc(None, vec![("hi", raw_step(OneOrMany::One("echo hi".to_string()), OneOrMany::Missing))]),
    );
    match get_step_inner(Some("hi".to_string()), "/r/build.toml", &ws, FUEL) {
        Resolution::Done(step) => assert_eq!(step.command, vec!["echo hi".to_string()]),
        _ => panic!("expected the step"),
    }
}

#[test]
fn list_command_is_kept_unchanged() {
    let lines = vec!["echo one".to_string(), "echo two".to_string()];
    let mut ws = Workspace::new();
    ws.record_file(
        "/r/build.toml".to_string(),
        doc(None, vec![("two", raw_step(OneOrMany::Many(lines.clone()), OneOrMany::Missing))]),
    );
    match get_step_inner(Some("two".to_string()), "/r/build.toml", &ws, FUEL) {
        Resolution::Done(step) => assert_eq!(step.command, lines),
        _ => panic!("expected the step"),
    }
}

#[test]
fn dependencies_resolve_in_declared_order_and_empty_refs_are_ignored() {
    let mut ws = Workspace::new();
    ws.record_file(
        "/r/build.toml".to_string(),
        doc(
            None,
            vec![
                ("one", raw_step(OneOrMany::One("echo 1".to_string()), OneOrMany::Missing)),
                ("two", raw_step(OneOrMany::One("echo 2".to_string()), OneOrMany::Missing)),
                (
                    "all",
                    raw_step(
                        OneOrMany::Missing,
                        OneOrMany::Many(vec![
                            "one".to_string(),
                            "".to_string(),
                            "two".to_string(),
                        ]),
                    ),
                ),
            ],
        ),
    );
    match get_step_inner(Some("all".to_string()), "/r/build.toml", &ws, FUEL) {
        Resolution::Done(step) => {
            assert_eq!(step.dependencies.len(), 2);
            assert_eq!(step.dependencies[0].command, vec!["echo 1".to_string()]);
            assert_eq!(step.dependencies[1].command, vec!["echo 2".to_string()]);
        }
        _ => panic!("expected the step with two dependencies"),
    }
}

#[test]
fn cross_file_dependency_uses_only_its_second_segment() {
    let mut ws = Workspace::new();
    ws.record_file(
        "/r/build.toml".to_string(),
        doc(
            None,
            vec![("top", raw_step(OneOrMany::Missing, OneOrMany::One("a::b::ignored".to_string())))],
        ),
    );
    ws.record_child(
        "/r/build.toml".to_string(),
        "a".to_string(),
        Some("/r/a/build.toml".to_string()),
    );
    ws.record_file(
        "/r/a/build.toml".to_string(),
        doc(None, vec![("b", raw_step(OneOrMany::One("echo b".to_string()), OneOrMany::Missing))]),
    );
    match get_step_inner(Some("top".to_string()), "/r/build.toml", &ws, FUEL) {
        Resolution::Done(step) => {
            assert_eq!(step.dependencies.len(), 1);
            assert_eq!(step.dependencies[0].dir, "/r/a/build.toml");
            assert_eq!(step.dependencies[0].command, vec!["echo b".to_string()]);
        }
        _ => panic!("expected the cross-file dependency"),
    }
}

#[test]
fn missing_file_is_requested_once_and_never_again() {
    let mut ws = Workspace::new();
    // Nothing recorded: the resolver asks for the file.
    match get_step_inner(Some("x".to_string()), "/r/build.toml", &ws, FUEL) {
        Resolution::NeedFile(p) => assert_eq!(p, "/r/build.toml"),
        _ => panic!("expected a file request"),
    }
    // Once recorded, the same resolution never asks for that file again.
    ws.record_file(
        "/r/build.toml".to_string(),
        doc(None, vec![("x", raw_step(OneOrMany::One("echo x".to_string()), OneOrMany::Missing))]),
    );
    match get_step_inner(Some("x".to_string()), "/r/build.toml", &ws, FUEL) {
        Resolution::Done(step) => assert_eq!(step.dir, "/r/build.toml"),
        other => {
            if let Resolution::NeedFile(_) = other {
                panic!("the recorded file was requested again");
            }
            panic!("expected the step");
        }
    }
}

#[test]
fn resolution_is_deterministic_for_one_workspace() {
    let mut ws = Workspace::new();
    ws.record_file(
        "/r/build.toml".to_string(),
        doc(Some("go"), vec![("go", raw_step(OneOrMany::One("echo go".to_string()), OneOrMany::Missing))]),
    );
    let first = match get_step_inner(None, "/r/build.toml", &ws, FUEL) {
        Resolution::Done(step) => step.command,
        _ => panic!("expected the step"),
    };
    let second = match get_step_inner(None, "/r/build.toml", &ws, FUEL) {
        Resolution::Done(step) => step.command,
        _ => panic!("expected the step"),
    };
    assert_eq!(first, second);
}

#[test]
fn cyclic_references_exhaust_the_budget() {
    let mut ws = Workspace::new();
    ws.record_file(
        "/r/build.toml".to_string(),
        doc(None, vec![("loop", raw_step(OneOrMany::Missing, OneOrMany::One("loop".to_string())))]),
    );
    match get_step_inner(Some("loop".to_string()), "/r/build.toml", &ws, FUEL) {
        Resolution::Fail(BuildError::Cycle(_)) => {}
        _ => panic!("expected the cycle error"),
    }
}

#[test]
fn flags_and_env_and_watch_are_carried() {
    let mut ws = Workspace::new();
    let raw = RawStep {
        command: OneOrMany::One("cargo build".to_string()),
        env: vec![("K".to_string(), "V".to_string())],
        asynch: Some(true),
        depends: OneOrMany::Missing,
        in_order: Some(true),
        quiet: Some(true),
        watch: Some(vec!["src".to_string()]),
    };
    ws.record_file("/r/build.toml".to_string(), doc(None, vec![("b", raw)]));
    match get_step_inner(Some("b".to_string()), "/r/build.toml", &ws, FUEL) {
        Resolution::Done(step) => {
            assert!(step.asynch);
            assert!(step.in_order);
            assert!(step.quiet);
            assert_eq!(step.env, vec![("K".to_string(), "V".to_string())]);
            assert_eq!(step.watch, Some(vec!["src".to_string()]));
        }
        _ => panic!("expected the step"),
    }
}

#[test]
fn first_entry_wins_among_equal_step_names() {
    let mut ws = Workspace::new();
    ws.record_file(
        "/r/build.toml".to_string(),
        doc(
            None,
            vec![
                ("dup", raw_step(OneOrMany::One("echo first".to_string()), OneOrMany::Missing)),
                ("dup", raw_step(OneOrMany::One("echo second".to_string()), OneOrMany::Missing)),
            ],
        ),
    );
    match get_step_inner(Some("dup".to_string()), "/r/build.toml", &ws, FUEL) {
        Resolution::Done(step) => assert_eq!(step.command, vec!["echo first".to_string()]),
        _ => panic!("expected the first entry"),
    }
}

#[test]
fn resolved_in_order_step_gets_a_sequential_plan() {
    let mut ws = Workspace::new();
    let mut dep_a = raw_step(OneOrMany::One("echo a".to_string()), OneOrMany::Missing);
    dep_a.asynch = Some(true);
    let mut dep_b = raw_step(OneOrMany::One("echo b".to_string()), OneOrMany::Missing);
    dep_b.asynch = Some(true);
    let mut top = raw_step(
        OneOrMany::Missing,
        OneOrMany::Many(vec!["a".to_string(), "b".to_string()]),
    );
    top.in_order = Some(true);
    ws.record_file(
        "/r/build.toml".to_string(),
        doc(None, vec![("a", dep_a), ("b", dep_b), ("top", top)]),
    );
    match get_step_inner(Some("top".to_string()), "/r/build.toml", &ws, FUEL) {
        Resolution::Done(step) => {
            assert!(step.dependencies.iter().all(|d| d.asynch));
            assert_eq!(doer::exec::dependency_dispatch(&step), vec![false, false]);
        }
        _ => panic!("expected the ordered step"),
    }
}
