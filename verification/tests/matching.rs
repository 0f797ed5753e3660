use reatler::pattern::{is_ignored, is_included, normalize_pattern};
use reatler::choice::{get_scan_type, type_token, ScanType};

fn strings(v: &[&str]) -> Vec<String> {
    v.iter().map(|s| s.to_string()).collect()
}

#[test]
fn normalize_trims_whitespace() {
    assert_eq!(normalize_pattern("  target  "), "target");
    assert_eq!(normalize_pattern("\t.rs\n"), ".rs");
}

#[test]
fn normalize_strips_dot_slash() {
    assert_eq!(normalize_pattern("./src"), "src");
    assert_eq!(normalize_pattern("/dist"), "dist");
    assert_eq!(normalize_pattern("./.git"), ".git");
}

#[test]
fn normalize_strips_dot_slash_then_slash() {
    assert_eq!(normalize_pattern(".//x"), "x");
}

#[test]
fn normalize_plain_pattern_unchanged() {
    assert_eq!(normalize_pattern("target"), "target");
    assert_eq!(normalize_pattern(".rs"), ".rs");
}

#[test]
fn normalize_idempotent_on_common_patterns() {
    for p in ["  ./src ", "/dist", "target", ".rs", "  .git", "./a/b.c"] {
        let once = normalize_pattern(p);
        let twice = normalize_pattern(&once);
        assert_eq!(twice, once);
    }
}

#[test]
fn is_ignored_empty_list_is_false() {
    assert!(!is_ignored("anything", &strings(&[])));
    assert!(!is_ignored("a/b/c.rs", &strings(&[])));
    assert!(!is_ignored("", &strings(&[])));
}

#[test]
fn is_ignored_matches_substring_of_path() {
    let pats = strings(&["target"]);
    assert!(is_ignored("root/target", &pats));
    assert!(is_ignored("root/target/deep/file.rs", &pats));
    assert!(!is_ignored("root/src/main.rs", &pats));
}

#[test]
fn is_ignored_substring_semantics_overmatch() {
    // Containment is a plain substring test, so a pattern also matches a
    // longer name that merely embeds it.
    let pats = strings(&["target"]);
    assert!(is_ignored("root/targetless.rs", &pats));
}

#[test]
fn is_ignored_normalizes_patterns_first() {
    assert!(is_ignored("root/dist/x.js", &strings(&["./dist"])));
    assert!(is_ignored("root/dist/x.js", &strings(&["  dist  "])));
    assert!(is_ignored("root/dist/x.js", &strings(&["/dist"])));
}

#[test]
fn is_included_empty_list_is_false() {
    assert!(!is_included("anything", &strings(&[])));
    assert!(!is_included("a/b/c.rs", &strings(&[])));
}

#[test]
fn is_included_matches_filename_suffix() {
    let pats = strings(&[".rs", ".toml"]);
    assert!(is_included("root/src/main.rs", &pats));
    assert!(is_included("Cargo.toml", &pats));
    assert!(!is_included("root/src/main.js", &pats));
}

#[test]
fn is_included_exact_filename() {
    let pats = strings(&["Makefile"]);
    assert!(is_included("proj/Makefile", &pats));
    assert!(!is_included("proj/Makefile.bak", &pats));
}

#[test]
fn is_included_sentinel_includes_everything() {
    let sentinel = strings(&[""]);
    assert!(is_included("a", &sentinel));
    assert!(is_included("root/notes.txt", &sentinel));
    assert!(is_included("root/no_extension", &sentinel));
}

#[test]
fn is_included_looks_at_basename_only() {
    // The directory part never matches an inclusion pattern.
    let pats = strings(&[".rs"]);
    assert!(!is_included("dir.rs/readme.md", &pats));
}

#[test]
fn type_token_adds_leading_dot() {
    assert_eq!(type_token("rs"), ".rs");
    assert_eq!(type_token(" toml "), ".toml");
}

#[test]
fn type_token_keeps_leading_dot() {
    assert_eq!(type_token(".rs"), ".rs");
    assert_eq!(type_token("  .d.ts"), ".d.ts");
}

#[test]
fn scan_type_manual_flag() {
    let args = strings(&["prog", "--manual"]);
    assert!(matches!(get_scan_type(&args), ScanType::Manual));
    let args = strings(&["prog", "somedir"]);
    assert!(matches!(get_scan_type(&args), ScanType::Auto));
    let args = strings(&[]);
    assert!(matches!(get_scan_type(&args), ScanType::Auto));
}
