use doer::cache::{cache_file_name, parse_last_run, Cache};
use doer::paths::{full_path, parent_dir};
use doer::text::{find_delim, str_ends_with, str_eq};

#[test]
fn decimal_record_text_parses() {
    assert_eq!(parse_last_run("0"), Some(0));
    assert_eq!(parse_last_run("1699999999"), Some(1699999999));
    assert_eq!(parse_last_run("+42"), Some(42));
    assert_eq!(parse_last_run("18446744073709551615"), Some(u64::MAX));
}

#[test]
fn non_decimal_record_text_means_no_previous_run() {
    assert_eq!(parse_last_run(""), None);
    assert_eq!(parse_last_run("+"), None);
    assert_eq!(parse_last_run(" 12"), None);
    assert_eq!(parse_last_run("12 "), None);
    assert_eq!(parse_last_run("12a"), None);
    assert_eq!(parse_last_run("-3"), None);
    // One past the largest 64-bit value overflows.
    assert_eq!(parse_last_run("18446744073709551616"), None);
    assert_eq!(parse_last_run("99999999999999999999999"), None);
}

#[test]
fn record_location_is_named_after_the_step() {
    assert_eq!(cache_file_name(&Some("build".to_string())), ".doer/last_run/build");
    assert_eq!(cache_file_name(&None), ".doer/last_run/default");
}

#[test]
fn absent_record_means_no_previous_run() {
    let cache = Cache { last_run: None };
    assert!(cache.last_run.is_none());
    let cache = Cache { last_run: parse_last_run("77") };
    assert_eq!(cache.last_run, Some(77));
}

#[test]
fn bare_directory_gets_the_default_file_name() {
    assert_eq!(full_path("."), "./build.toml");
    assert_eq!(full_path("/srv/proj"), "/srv/proj/build.toml");
}

#[test]
fn explicit_configuration_file_is_kept() {
    assert_eq!(full_path("/srv/proj/build.toml"), "/srv/proj/build.toml");
    assert_eq!(full_path("/srv/proj/other.toml"), "/srv/proj/other.toml");
}

#[test]
fn owning_directory_is_everything_before_the_last_slash() {
    assert_eq!(parent_dir("/srv/proj/build.toml"), Some("/srv/proj".to_string()));
    assert_eq!(parent_dir("/build.toml"), Some("/".to_string()));
    assert_eq!(parent_dir("build.toml"), None);
}

#[test]
fn delimiter_search_finds_the_first_occurrence() {
    assert_eq!(find_delim("a::b"), Some(1));
    assert_eq!(find_delim("a::b::c"), Some(1));
    assert_eq!(find_delim("::"), Some(0));
    assert_eq!(find_delim("plain"), None);
    assert_eq!(find_delim(":"), None);
}

#[test]
fn text_helpers_compare_by_characters() {
    assert!(str_eq("a::b", "a::b"));
    assert!(!str_eq("a", "b"));
    assert!(!str_eq("a", "ab"));
    assert!(str_ends_with("dir/build.toml", ".toml"));
    assert!(!str_ends_with("dir/build.tomlx", ".toml"));
    assert!(!str_ends_with("ml", ".toml"));
}
