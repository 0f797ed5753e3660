use reatler::dir::{scan_dir, DirEntry, DirTree, ScanParams};
use reatler::plan::{
    get_project_types, get_scan_params_auto, get_scan_params_manual, parse_args,
    parse_gitignore_lines,
};
use reatler::project_type::{expand_types, ProjectType};

fn strings(v: &[&str]) -> Vec<String> {
    v.iter().map(|s| s.to_string()).collect()
}

fn file(name: &str) -> DirEntry {
    DirEntry::File { name: name.to_string() }
}

#[test]
fn infer_go_markers_yield_one_go_tag() {
    let got = get_project_types(&strings(&["go.mod", "main.go"]));
    assert_eq!(got, Some(vec![ProjectType::Go]));
}

#[test]
fn infer_unknown_files_yield_none() {
    assert_eq!(get_project_types(&strings(&["README.md"])), None);
    assert_eq!(get_project_types(&strings(&[])), None);
}

#[test]
fn infer_deduplicates_across_interleaved_markers() {
    let got = get_project_types(&strings(&["go.mod", "package.json", "go.sum"]));
    assert_eq!(got, Some(vec![ProjectType::Go, ProjectType::Javascript]));
}

#[test]
fn infer_uses_basename_of_paths() {
    let got = get_project_types(&strings(&["proj/sub/Cargo.toml"]));
    assert_eq!(got, Some(vec![ProjectType::Rust]));
}

#[test]
fn infer_cmake_marker_names_cpp_and_c() {
    let got = get_project_types(&strings(&["CMakeLists.txt"]));
    assert_eq!(got, Some(vec![ProjectType::Cpp, ProjectType::C]));
}

#[test]
fn marker_lookup_exact_values() {
    assert_eq!(ProjectType::from("go.mod"), vec![ProjectType::Go]);
    assert_eq!(ProjectType::from("main.go"), Vec::<ProjectType>::new());
    assert_eq!(ProjectType::from("pom.xml"), vec![ProjectType::Java]);
    assert_eq!(
        ProjectType::from("CMakeLists.txt"),
        vec![ProjectType::Cpp, ProjectType::C]
    );
    assert_eq!(ProjectType::from("build.gradle.kts"), vec![ProjectType::Kotlin]);
}

#[test]
fn suffix_table_exact_values() {
    assert_eq!(
        ProjectType::Go.get_files(),
        vec![".go", "go.mod", "go.sum", ".golangci.yaml", "Makefile", "Dockerfile"]
    );
    assert_eq!(ProjectType::FSharp.get_files(), vec![".fs", ".fsproj"]);
}

#[test]
fn every_type_has_a_non_empty_suffix_list() {
    let all = [
        ProjectType::Javascript,
        ProjectType::Rust,
        ProjectType::Go,
        ProjectType::C,
        ProjectType::Cpp,
        ProjectType::Python,
        ProjectType::Java,
        ProjectType::Kotlin,
        ProjectType::Swift,
        ProjectType::Php,
        ProjectType::Ruby,
        ProjectType::Shell,
        ProjectType::Dart,
        ProjectType::Haskell,
        ProjectType::Scala,
        ProjectType::Perl,
        ProjectType::R,
        ProjectType::Elixir,
        ProjectType::CSharp,
        ProjectType::FSharp,
        ProjectType::Lua,
    ];
    for t in all {
        assert!(!t.get_files().is_empty());
        assert!(!t.name().is_empty());
    }
}

#[test]
fn type_names() {
    assert_eq!(ProjectType::Cpp.name(), "C++");
    assert_eq!(ProjectType::CSharp.name(), "C#");
    assert_eq!(ProjectType::Go.name(), "Go");
}

#[test]
fn expand_concatenates_in_tag_order() {
    let got = expand_types(&vec![ProjectType::FSharp, ProjectType::Scala]);
    assert_eq!(got, strings(&[".fs", ".fsproj", ".scala", "build.sbt", ".sc"]));
}

#[test]
fn gitignore_lines_keep_non_empty_lines() {
    let got = parse_gitignore_lines("target\n\nnode_modules\r\n.git\n");
    assert_eq!(got, strings(&["target", "node_modules", ".git"]));
}

#[test]
fn gitignore_lines_final_unterminated_line_counts() {
    assert_eq!(parse_gitignore_lines("dist"), strings(&["dist"]));
    assert_eq!(parse_gitignore_lines(""), Vec::<String>::new());
    assert_eq!(parse_gitignore_lines("\n\r\n"), Vec::<String>::new());
}

#[test]
fn parse_args_takes_first_argument_or_current_dir() {
    assert_eq!(parse_args(&strings(&["prog", "somedir"])), "somedir");
    assert_eq!(parse_args(&strings(&["prog"])), "./");
    assert_eq!(parse_args(&strings(&[])), "./");
}

#[test]
fn manual_params_are_pure_construction() {
    let p = get_scan_params_manual(strings(&[".txt"]), strings(&["ignored"]));
    assert_eq!(p.included, strings(&[".txt"]));
    assert_eq!(p.ignore, strings(&["ignored"]));
}

/// Auto-detection on a directory with no marker yields `None`; the manual
/// fallback rule set then drives a scan that picks exactly notes.txt.
#[test]
fn fallback_scenario_manual_rules_after_failed_inference() {
    let plain = DirTree::Listing { entries: vec![file("notes.txt")] };
    assert!(get_scan_params_auto(".", &plain, strings(&[])).is_none());

    let tree = DirTree::Listing {
        entries: vec![
            file("notes.txt"),
            DirEntry::Dir {
                name: "ignored".to_string(),
                tree: DirTree::Listing { entries: vec![file("old.txt")] },
            },
        ],
    };
    let params = get_scan_params_manual(strings(&[".txt"]), strings(&["ignored"]));
    let got = scan_dir("", &tree, params, true).unwrap();
    assert_eq!(got, strings(&["notes.txt"]));
}

#[test]
fn auto_params_from_detected_project() {
    let tree = DirTree::Listing {
        entries: vec![file("Cargo.toml"), file("src")],
    };
    let params = get_scan_params_auto(".", &tree, strings(&[".git"])).unwrap();
    assert_eq!(
        params.included,
        strings(&[".rs", "Cargo.toml", "build.rs", ".rustfmt.toml", ".clippy.toml"])
    );
    assert_eq!(params.ignore, strings(&[".git"]));
}

#[test]
fn auto_params_dry_scan_honors_baseline_ignore() {
    // The only marker matches a baseline ignore pattern, so the dry scan
    // never lists it and inference finds nothing.
    let tree = DirTree::Listing {
        entries: vec![file("Cargo.toml")],
    };
    assert!(get_scan_params_auto(".", &tree, strings(&["Cargo"])).is_none());
    assert!(get_scan_params_auto(".", &tree, strings(&[])).is_some());
}

#[test]
fn auto_params_failed_dry_scan_degrades_to_none() {
    assert!(get_scan_params_auto(".", &DirTree::Unreadable, strings(&[])).is_none());
}

#[test]
fn auto_then_full_scan_end_to_end() {
    let tree = DirTree::Listing {
        entries: vec![
            file("go.mod"),
            file("main.go"),
            file("README.md"),
            DirEntry::Dir {
                name: "vendor".to_string(),
                tree: DirTree::Listing { entries: vec![file("dep.go")] },
            },
        ],
    };
    let params = get_scan_params_auto(".", &tree, strings(&["vendor"])).unwrap();
    let got = scan_dir(".", &tree, params, true).unwrap();
    assert_eq!(got, strings(&["./go.mod", "./main.go"]));
}
