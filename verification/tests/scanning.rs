use reatler::dir::{scan_dir, DirEntry, DirTree, ScanError, ScanParams};

fn strings(v: &[&str]) -> Vec<String> {
    v.iter().map(|s| s.to_string()).collect()
}

fn file(name: &str) -> DirEntry {
    DirEntry::File { name: name.to_string() }
}

fn dir(name: &str, entries: Vec<DirEntry>) -> DirEntry {
    DirEntry::Dir { name: name.to_string(), tree: DirTree::Listing { entries } }
}

fn unreadable_dir(name: &str) -> DirEntry {
    DirEntry::Dir { name: name.to_string(), tree: DirTree::Unreadable }
}

fn params(included: &[&str], ignore: &[&str]) -> ScanParams {
    ScanParams { included: strings(included), ignore: strings(ignore) }
}

/// root/{a.rs, b.txt, target/{c.rs}} with rules picking `.rs` files and
/// ignoring `target` yields exactly root/a.rs.
#[test]
fn scan_scenario_rs_under_target() {
    let tree = DirTree::Listing {
        entries: vec![file("a.rs"), file("b.txt"), dir("target", vec![file("c.rs")])],
    };
    let got = scan_dir("root", &tree, params(&[".rs"], &["target"]), true).unwrap();
    assert_eq!(got, strings(&["root/a.rs"]));
}

#[test]
fn scan_prunes_ignored_directory_entirely() {
    // Files beneath an ignored directory never appear, however well they
    // match the inclusion patterns.
    let tree = DirTree::Listing {
        entries: vec![
            dir("build", vec![file("x.rs"), dir("deep", vec![file("y.rs")])]),
            file("z.rs"),
        ],
    };
    let got = scan_dir("p", &tree, params(&[".rs"], &["build"]), true).unwrap();
    assert_eq!(got, strings(&["p/z.rs"]));
}

#[test]
fn scan_collects_depth_first_in_listing_order() {
    let tree = DirTree::Listing {
        entries: vec![
            file("b.rs"),
            dir("sub", vec![file("d.rs"), file("c.rs")]),
            file("a.rs"),
        ],
    };
    let got = scan_dir("r", &tree, params(&[".rs"], &[]), true).unwrap();
    assert_eq!(got, strings(&["r/b.rs", "r/sub/d.rs", "r/sub/c.rs", "r/a.rs"]));
}

#[test]
fn scan_non_recursive_skips_directories() {
    let tree = DirTree::Listing {
        entries: vec![file("a.rs"), dir("sub", vec![file("b.rs")])],
    };
    let got = scan_dir("r", &tree, params(&[".rs"], &[]), false).unwrap();
    assert_eq!(got, strings(&["r/a.rs"]));
}

#[test]
fn scan_two_runs_agree() {
    // Same tree, same rules: identical results, run after run.
    let tree = DirTree::Listing {
        entries: vec![file("m.go"), dir("vendor", vec![file("v.go")]), file("n.go")],
    };
    let first = scan_dir("g", &tree, params(&[".go"], &["vendor"]), true).unwrap();
    let second = scan_dir("g", &tree, params(&[".go"], &["vendor"]), true).unwrap();
    assert_eq!(first, second);
    assert_eq!(first, strings(&["g/m.go", "g/n.go"]));
}

#[test]
fn scan_unreadable_root_fails() {
    let tree = DirTree::Unreadable;
    let err = scan_dir("root", &tree, params(&[".rs"], &[]), true).unwrap_err();
    let ScanError::ScanFailed { path } = err;
    assert_eq!(path, "root");
}

#[test]
fn scan_unreadable_subdirectory_aborts_with_its_path() {
    let tree = DirTree::Listing {
        entries: vec![file("a.rs"), unreadable_dir("locked"), file("b.rs")],
    };
    let err = scan_dir("root", &tree, params(&[".rs"], &[]), true).unwrap_err();
    let ScanError::ScanFailed { path } = err;
    assert_eq!(path, "root/locked");
}

#[test]
fn scan_ignored_unreadable_directory_is_no_error() {
    // Pruning happens before descent, so an ignored unreadable directory
    // never aborts the scan.
    let tree = DirTree::Listing {
        entries: vec![file("a.rs"), unreadable_dir("locked")],
    };
    let got = scan_dir("root", &tree, params(&[".rs"], &["locked"]), true).unwrap();
    assert_eq!(got, strings(&["root/a.rs"]));
}

#[test]
fn scan_non_recursive_skips_unreadable_directories() {
    let tree = DirTree::Listing {
        entries: vec![unreadable_dir("locked"), file("a.txt")],
    };
    let got = scan_dir("root", &tree, params(&[""], &[]), false).unwrap();
    assert_eq!(got, strings(&["root/a.txt"]));
}

#[test]
fn scan_joins_paths_with_separator() {
    let tree = DirTree::Listing { entries: vec![file("x.c")] };
    let got = scan_dir("a/", &tree, params(&[".c"], &[]), true).unwrap();
    assert_eq!(got, strings(&["a/x.c"]));
    let got = scan_dir("", &tree, params(&[".c"], &[]), true).unwrap();
    assert_eq!(got, strings(&["x.c"]));
}

#[test]
fn scan_empty_rules_collect_nothing() {
    let tree = DirTree::Listing {
        entries: vec![file("a.rs"), dir("sub", vec![file("b.rs")])],
    };
    let got = scan_dir("r", &tree, ScanParams::default(), true).unwrap();
    assert_eq!(got, Vec::<String>::new());
}
