use std::collections::HashSet;

use leave::path::components;
use leave::preflight::{preflight, PreflightError, RunConfig};
use leave::removal::{plan_entry, plan_listed_directory, EntryAction, EntryKind, FailureCause, RunReport};

const CWD: &str = "/tmp/tree";

struct Outcome {
    exit_code: u8,
    contents: HashSet<String>,
    error: Option<PreflightError>,
    report: RunReport,
}

fn config(targets: &[&str], recursive: bool, dirs: bool, force: bool) -> RunConfig {
    RunConfig {
        cwd: CWD.to_string(),
        targets: targets.iter().map(|t| t.to_string()).collect(),
        recursive,
        dirs,
        force,
    }
}

/// Whether `target` names an entry of `listing`, read from the working directory.
fn exists_in(listing: &[(&str, EntryKind, bool)], target: &str) -> bool {
    let comps = components(target);
    comps.len() == 1 && listing.iter().any(|(n, _, _)| *n == comps[0])
}

/// Runs the library's decisions over a directory with the given entries,
/// where every removal succeeds.
fn run_with(cfg: &RunConfig, listing: &[(&str, EntryKind, bool)], found: Vec<bool>) -> Outcome {
    let mut contents: HashSet<String> = listing.iter().map(|(n, _, _)| n.to_string()).collect();
    let found = if cfg.force { Vec::new() } else { found };
    let keep = match preflight(cfg, &found) {
        Ok(keep) => keep,
        Err(e) => {
            return Outcome { exit_code: 1, contents, error: Some(e), report: RunReport::new() };
        }
    };
    let mut report = RunReport::new();
    for (name, kind, empty) in listing {
        let mut action = plan_entry(cfg, &keep, name, *kind);
        if action == EntryAction::ListDirectory {
            action = plan_listed_directory(*empty);
        }
        match action {
            EntryAction::Keep => {}
            EntryAction::RemoveFile | EntryAction::RemoveTree | EntryAction::RemoveEmptyDirectory => {
                contents.remove(*name);
            }
            EntryAction::Refuse(e) => report.record(format!("./{name}"), FailureCause::Policy(e)),
            EntryAction::ListDirectory => panic!("a listed directory is decided"),
        }
    }
    Outcome { exit_code: report.exit_code(), contents, error: None, report }
}

fn run(cfg: &RunConfig, listing: &[(&str, EntryKind, bool)]) -> Outcome {
    let found = cfg.targets.iter().map(|t| exists_in(listing, t)).collect();
    run_with(cfg, listing, found)
}

fn set(names: &[&str]) -> HashSet<String> {
    names.iter().map(|n| n.to_string()).collect()
}

use EntryKind::{Directory, File};

const THREE_FILES: [(&str, EntryKind, bool); 3] =
    [("file1", File, true), ("file2", File, true), ("file3", File, true)];

const FILES_AND_DIRS: [(&str, EntryKind, bool); 5] = [
    ("file1", File, true),
    ("file2", File, true),
    ("file3", File, true),
    ("dir1", Directory, true),
    ("dir2", Directory, true),
];

#[test]
fn just_files() {
    let out = run(&config(&["file1"], false, false, false), &THREE_FILES);
    assert_eq!(out.exit_code, 0);
    assert_eq!(set(&["file1"]), out.contents);
}

#[test]
fn chdir() {
    let mut cfg = config(&["file1"], false, false, false);
    cfg.cwd = "/tmp/other/tree".to_string();
    let mut contents: HashSet<String> = set(&["file1", "file2", "file3"]);
    let keep = preflight(&cfg, &vec![true]).unwrap();
    for (name, kind, _) in THREE_FILES {
        if plan_entry(&cfg, &keep, name, kind) == EntryAction::RemoveFile {
            contents.remove(name);
        }
    }
    assert_eq!(set(&["file1"]), contents);
}

#[test]
fn dirs() {
    let out = run(&config(&["file1", "dir2"], false, true, false), &FILES_AND_DIRS);
    assert_eq!(out.exit_code, 0);
    assert_eq!(set(&["file1", "dir2"]), out.contents);
}

#[test]
fn relative_paths() {
    let out = run(&config(&["./file1", "./././dir1"], false, true, false), &FILES_AND_DIRS);
    assert_eq!(out.exit_code, 0);
    assert_eq!(set(&["file1", "dir1"]), out.contents);
}

#[test]
fn recursive() {
    let listing = [
        ("file1", File, true),
        ("file2", File, true),
        ("file3", File, true),
        ("dir1", Directory, false),
    ];
    let out = run(&config(&["file1"], true, false, false), &listing);
    assert_eq!(out.exit_code, 0);
    assert_eq!(set(&["file1"]), out.contents);
}

#[test]
fn recursive_without_flag() {
    let listing = [
        ("file1", File, true),
        ("file2", File, true),
        ("file3", File, true),
        ("dir1", Directory, false),
        ("dir3", Directory, true),
    ];
    let out = run(&config(&["file1"], false, true, false), &listing);
    assert_eq!(out.exit_code, 1);
    assert_eq!(set(&["file1", "dir1"]), out.contents);
}

#[test]
fn dirs_fail() {
    let listing = [
        ("file1", File, true),
        ("file2", File, true),
        ("file3", File, true),
        ("dir1", Directory, true),
        ("dir2", Directory, false),
    ];
    let out = run(&config(&["file1", "dir2"], false, false, false), &listing);
    assert_eq!(out.exit_code, 1);
    assert!(out.contents.contains("dir1"));
    assert!(out.contents.contains("dir2"));
}

#[test]
fn nonexistent_args() {
    let out = run(&config(&["file2"], false, false, false), &[("file1", File, true)]);
    assert_eq!(out.exit_code, 1);
    assert_eq!(set(&["file1"]), out.contents);
}

#[test]
fn nonexistent_args_force() {
    let out = run(&config(&["file2"], false, false, true), &[("file1", File, true)]);
    assert_eq!(out.exit_code, 0);
    assert!(out.contents.is_empty());
}

#[test]
fn continue_on_error() {
    let listing = [
        ("a", File, true),
        ("b", File, true),
        ("c", Directory, true),
        ("d", File, true),
        ("e", File, true),
        ("f", File, true),
    ];
    let out = run(&config(&[], false, false, true), &listing);
    assert_eq!(out.exit_code, 1);
    assert_eq!(set(&["c"]), out.contents);
}

#[test]
fn bail_on_nested_file() {
    let listing = [("dir", Directory, false)];
    let out = run_with(&config(&["dir/file"], false, false, false), &listing, vec![true]);
    assert_eq!(out.exit_code, 1);
    assert_eq!(set(&["dir"]), out.contents);
    assert!(matches!(out.error, Some(PreflightError::OutsideWorkingDirectory { index: 0 })));
}

#[test]
fn continue_on_error_records_only_the_directory() {
    let listing = [
        ("a", File, true),
        ("b", File, true),
        ("c", Directory, false),
        ("d", File, true),
    ];
    let out = run(&config(&[], false, false, true), &listing);
    assert_eq!(out.report.failure_count(), 1);
    assert_eq!(set(&["c"]), out.contents);
}

#[test]
fn no_errors_leaves_exactly_the_preserved() {
    let out = run(&config(&["dir1", "file3"], true, false, false), &FILES_AND_DIRS);
    assert_eq!(out.exit_code, 0);
    assert!(out.report.succeeded());
    assert_eq!(set(&["dir1", "file3"]), out.contents);
}

#[test]
fn aborted_run_deletes_nothing() {
    let out = run(&config(&[], true, true, false), &FILES_AND_DIRS);
    assert_eq!(out.exit_code, 1);
    assert!(matches!(out.error, Some(PreflightError::EmptyTargetList)));
    assert_eq!(set(&["file1", "file2", "file3", "dir1", "dir2"]), out.contents);
}
