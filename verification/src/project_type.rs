//! The closed set of recognized project ecosystems.
//!
//! Two static tables drive inference: a marker table from exact filenames
//! (manifests, lock files, build descriptors) to the project types they
//! betray, and a suffix table from each project type to the file suffixes
//! and filenames worth collecting for it. Every type reachable through a
//! marker has a non-empty suffix list, so a detected project always yields
//! a usable rule set.

use vstd::prelude::*;
use crate::text::str_eq;

verus! {

#[derive(Clone, Copy, Debug, PartialEq, Eq, Structural)]
pub enum ProjectType {
    Javascript,
    Rust,
    Go,
    C,
    Cpp,
    Python,
    Java,
    Kotlin,
    Swift,
    Php,
    Ruby,
    Shell,
    Dart,
    Haskell,
    Scala,
    Perl,
    R,
    Elixir,
    CSharp,
    FSharp,
    Lua,
}

/// The marker table: the project types that an exact filename betrays.
/// Most markers name one ecosystem; a C++ build descriptor also names C.
/// A name that is no marker yields the empty sequence.
pub open spec fn spec_marker_tags(name: Seq<char>) -> Seq<ProjectType> {
    if name == "package.json"@ || name == "yarn.lock"@ || name == "pnpm-lock.yaml"@ || name
        == "vite.config.js"@ || name == "webpack.config.js"@ {
        seq![ProjectType::Javascript]
    } else if name == "Cargo.toml"@ || name == "Cargo.lock"@ || name == "build.rs"@ {
        seq![ProjectType::Rust]
    } else if name == "go.mod"@ || name == "go.sum"@ {
        seq![ProjectType::Go]
    } else if name == "Makefile"@ || name == "config.h"@ {
        seq![ProjectType::C]
    } else if name == "CMakeLists.txt"@ || name == ".clang-format"@ || name == ".clang-tidy"@ {
        seq![ProjectType::Cpp, ProjectType::C]
    } else if name == "requirements.txt"@ || name == "Pipfile"@ || name == "pyproject.toml"@
        || name == "setup.py"@ || name == "tox.ini"@ {
        seq![ProjectType::Python]
    } else if name == "pom.xml"@ || name == "build.gradle"@ || name == "settings.gradle"@ {
        seq![ProjectType::Java]
    } else if name == "build.gradle.kts"@ || name == "settings.gradle.kts"@ {
        seq![ProjectType::Kotlin]
    } else if name == "Package.swift"@ || name == "Info.plist"@ || name == ".xcodeproj"@ || name
        == ".xcworkspace"@ {
        seq![ProjectType::Swift]
    } else if name == "composer.json"@ || name == "composer.lock"@ {
        seq![ProjectType::Php]
    } else if name == "Gemfile"@ || name == "Gemfile.lock"@ || name == "Rakefile"@ {
        seq![ProjectType::Ruby]
    } else if name == ".sh"@ || name == ".bashrc"@ || name == ".zshrc"@ || name == ".profile"@ {
        seq![ProjectType::Shell]
    } else if name == "pubspec.yaml"@ || name == ".packages"@ {
        seq![ProjectType::Dart]
    } else if name == "stack.yaml"@ || name == "cabal.project"@ || name == ".ghci"@ {
        seq![ProjectType::Haskell]
    } else if name == "build.sbt"@ {
        seq![ProjectType::Scala]
    } else if name == "Makefile.PL"@ {
        seq![ProjectType::Perl]
    } else if name == "DESCRIPTION"@ || name == "NAMESPACE"@ {
        seq![ProjectType::R]
    } else if name == "mix.exs"@ {
        seq![ProjectType::Elixir]
    } else if name == ".csproj"@ || name == ".sln"@ || name == "app.config"@ {
        seq![ProjectType::CSharp]
    } else if name == ".fsproj"@ {
        seq![ProjectType::FSharp]
    } else if name == "init.lua"@ || name == ".luacheckrc"@ {
        seq![ProjectType::Lua]
    } else {
        Seq::empty()
    }
}

/// The suffix table: the file suffixes and exact filenames collected for a
/// project type. Every type has at least one entry.
pub open spec fn spec_tag_files(t: ProjectType) -> Seq<Seq<char>> {
    match t {
        ProjectType::Javascript => seq![
            ".ts"@,
            ".js"@,
            ".jsx"@,
            ".tsx"@,
            ".json"@,
            "package.json"@,
            "yarn.lock"@,
            "pnpm-lock.yaml"@,
            "vite.config.js"@,
            "webpack.config.js"@,
            ".eslintrc"@,
            ".prettierrc"@,
            ".babelrc"@,
            ".svelte"@,
            ".vue"@,
            ".nuxt"@,
            ".astro"@,
        ],
        ProjectType::Rust => seq![
            ".rs"@,
            "Cargo.toml"@,
            "build.rs"@,
            ".rustfmt.toml"@,
            ".clippy.toml"@,
        ],
        ProjectType::Go => seq![
            ".go"@,
            "go.mod"@,
            "go.sum"@,
            ".golangci.yaml"@,
            "Makefile"@,
            "Dockerfile"@,
        ],
        ProjectType::C => seq![".c"@, ".h"@, ".o"@, "Makefile"@, "config.h"@, "CMakeLists.txt"@],
        ProjectType::Cpp => seq![
            ".cpp"@,
            ".hpp"@,
            ".hxx"@,
            ".cxx"@,
            ".cc"@,
            ".o"@,
            "Makefile"@,
            "CMakeLists.txt"@,
            ".clang-format"@,
            ".clang-tidy"@,
        ],
        ProjectType::Python => seq![
            ".py"@,
            "requirements.txt"@,
            "Pipfile"@,
            "pyproject.toml"@,
            "setup.py"@,
            ".pylintrc"@,
            "tox.ini"@,
            "Dockerfile"@,
        ],
        ProjectType::Java => seq![
            ".java"@,
            "pom.xml"@,
            "build.gradle"@,
            "settings.gradle"@,
            ".classpath"@,
            ".project"@,
        ],
        ProjectType::Kotlin => seq![".kt"@, ".kts"@, "build.gradle.kts"@, "settings.gradle.kts"@],
        ProjectType::Swift => seq![
            ".swift"@,
            "Package.swift"@,
            "Info.plist"@,
            ".xcodeproj"@,
            ".xcworkspace"@,
        ],
        ProjectType::Php => seq![".php"@, "composer.json"@, "composer.lock"@, ".env"@],
        ProjectType::Ruby => seq![".rb"@, "Gemfile"@, "Gemfile.lock"@, "Rakefile"@],
        ProjectType::Shell => seq![".sh"@, ".bashrc"@, ".zshrc"@, ".profile"@],
        ProjectType::Dart => seq![".dart"@, "pubspec.yaml"@, ".packages"@],
        ProjectType::Haskell => seq![".hs"@, "stack.yaml"@, "cabal.project"@, ".ghci"@],
        ProjectType::Scala => seq![".scala"@, "build.sbt"@, ".sc"@],
        ProjectType::Perl => seq![".pl"@, ".pm"@, "Makefile.PL"@],
        ProjectType::R => seq![".R"@, "DESCRIPTION"@, "NAMESPACE"@],
        ProjectType::Elixir => seq![".ex"@, ".exs"@, "mix.exs"@],
        ProjectType::CSharp => seq![".cs"@, ".csproj"@, ".sln"@, "app.config"@],
        ProjectType::FSharp => seq![".fs"@, ".fsproj"@],
        ProjectType::Lua => seq![".lua"@, "init.lua"@, ".luacheckrc"@],
    }
}

impl ProjectType {
    /// The project types that the exact filename `file` betrays, per the
    /// marker table; empty when `file` is no known marker.
    pub fn from(file: &str) -> (r: Vec<ProjectType>)
        ensures
            r@ == spec_marker_tags(file@),
    {
        if str_eq(file, "package.json") || str_eq(file, "yarn.lock") || str_eq(
            file,
            "pnpm-lock.yaml",
        ) || str_eq(file, "vite.config.js") || str_eq(file, "webpack.config.js") {
            vec![ProjectType::Javascript]
        } else if str_eq(file, "Cargo.toml") || str_eq(file, "Cargo.lock") || str_eq(
            file,
            "build.rs",
        ) {
            vec![ProjectType::Rust]
        } else if str_eq(file, "go.mod") || str_eq(file, "go.sum") {
            vec![ProjectType::Go]
        } else if str_eq(file, "Makefile") || str_eq(file, "config.h") {
            vec![ProjectType::C]
        } else if str_eq(file, "CMakeLists.txt") || str_eq(file, ".clang-format") || str_eq(
            file,
            ".clang-tidy",
        ) {
            vec![ProjectType::Cpp, ProjectType::C]
        } else if str_eq(file, "requirements.txt") || str_eq(file, "Pipfile") || str_eq(
            file,
            "pyproject.toml",
        ) || str_eq(file, "setup.py") || str_eq(file, "tox.ini") {
            vec![ProjectType::Python]
        } else if str_eq(file, "pom.xml") || str_eq(file, "build.gradle") || str_eq(
            file,
            "settings.gradle",
        ) {
            vec![ProjectType::Java]
        } else if str_eq(file, "build.gradle.kts") || str_eq(file, "settings.gradle.kts") {
            vec![ProjectType::Kotlin]
        } else if str_eq(file, "Package.swift") || str_eq(file, "Info.plist") || str_eq(
            file,
            ".xcodeproj",
        ) || str_eq(file, ".xcworkspace") {
            vec![ProjectType::Swift]
        } else if str_eq(file, "composer.json") || str_eq(file, "composer.lock") {
            vec![ProjectType::Php]
        } else if str_eq(file, "Gemfile") || str_eq(file, "Gemfile.lock") || str_eq(
            file,
            "Rakefile",
        ) {
            vec![ProjectType::Ruby]
        } else if str_eq(file, ".sh") || str_eq(file, ".bashrc") || str_eq(file, ".zshrc")
            || str_eq(file, ".profile") {
            vec![ProjectType::Shell]
        } else if str_eq(file, "pubspec.yaml") || str_eq(file, ".packages") {
            vec![ProjectType::Dart]
        } else if str_eq(file, "stack.yaml") || str_eq(file, "cabal.project") || str_eq(
            file,
            ".ghci",
        ) {
            vec![ProjectType::Haskell]
        } else if str_eq(file, "build.sbt") {
            vec![ProjectType::Scala]
        } else if str_eq(file, "Makefile.PL") {
            vec![ProjectType::Perl]
        } else if str_eq(file, "DESCRIPTION") || str_eq(file, "NAMESPACE") {
            vec![ProjectType::R]
        } else if str_eq(file, "mix.exs") {
            vec![ProjectType::Elixir]
        } else if str_eq(file, ".csproj") || str_eq(file, ".sln") || str_eq(file, "app.config") {
            vec![ProjectType::CSharp]
        } else if str_eq(file, ".fsproj") {
            vec![ProjectType::FSharp]
        } else if str_eq(file, "init.lua") || str_eq(file, ".luacheckrc") {
            vec![ProjectType::Lua]
        } else {
            Vec::new()
        }
    }

    /// The suffixes and filenames collected for this project type, per the
    /// suffix table.
    pub fn get_files(&self) -> (r: Vec<&'static str>)
        ensures
            r.deep_view() == spec_tag_files(*self),
    {
        let r: Vec<&'static str> = match self {
            ProjectType::Javascript => vec![
                ".ts",
                ".js",
                ".jsx",
                ".tsx",
                ".json",
                "package.json",
                "yarn.lock",
                "pnpm-lock.yaml",
                "vite.config.js",
                "webpack.config.js",
                ".eslintrc",
                ".prettierrc",
                ".babelrc",
                ".svelte",
                ".vue",
                ".nuxt",
                ".astro",
            ],
            ProjectType::Rust => vec![
                ".rs",
                "Cargo.toml",
                "build.rs",
                ".rustfmt.toml",
                ".clippy.toml",
            ],
            ProjectType::Go => vec![
                ".go",
                "go.mod",
                "go.sum",
                ".golangci.yaml",
                "Makefile",
                "Dockerfile",
            ],
            ProjectType::C => vec![".c", ".h", ".o", "Makefile", "config.h", "CMakeLists.txt"],
            ProjectType::Cpp => vec![
                ".cpp",
                ".hpp",
                ".hxx",
                ".cxx",
                ".cc",
                ".o",
                "Makefile",
                "CMakeLists.txt",
                ".clang-format",
                ".clang-tidy",
            ],
            ProjectType::Python => vec![
                ".py",
                "requirements.txt",
                "Pipfile",
                "pyproject.toml",
                "setup.py",
                ".pylintrc",
                "tox.ini",
                "Dockerfile",
            ],
            ProjectType::Java => vec![
                ".java",
                "pom.xml",
                "build.gradle",
                "settings.gradle",
                ".classpath",
                ".project",
            ],
            ProjectType::Kotlin => vec![".kt", ".kts", "build.gradle.kts", "settings.gradle.kts"],
            ProjectType::Swift => vec![
                ".swift",
                "Package.swift",
                "Info.plist",
                ".xcodeproj",
                ".xcworkspace",
            ],
            ProjectType::Php => vec![".php", "composer.json", "composer.lock", ".env"],
            ProjectType::Ruby => vec![".rb", "Gemfile", "Gemfile.lock", "Rakefile"],
            ProjectType::Shell => vec![".sh", ".bashrc", ".zshrc", ".profile"],
            ProjectType::Dart => vec![".dart", "pubspec.yaml", ".packages"],
            ProjectType::Haskell => vec![".hs", "stack.yaml", "cabal.project", ".ghci"],
            ProjectType::Scala => vec![".scala", "build.sbt", ".sc"],
            ProjectType::Perl => vec![".pl", ".pm", "Makefile.PL"],
            ProjectType::R => vec![".R", "DESCRIPTION", "NAMESPACE"],
            ProjectType::Elixir => vec![".ex", ".exs", "mix.exs"],
            ProjectType::CSharp => vec![".cs", ".csproj", ".sln", "app.config"],
            ProjectType::FSharp => vec![".fs", ".fsproj"],
            ProjectType::Lua => vec![".lua", "init.lua", ".luacheckrc"],
        };
        proof {
            assert(r.deep_view() =~= spec_tag_files(*self));
        }
        r
    }

    /// The display name of this project type.
    pub fn name(&self) -> (r: &'static str)
        ensures
            r@ == spec_type_name(*self),
    {
        match self {
            ProjectType::Javascript => "Javascript",
            ProjectType::Rust => "Rust",
            ProjectType::Go => "Go",
            ProjectType::C => "C",
            ProjectType::Cpp => "C++",
            ProjectType::Python => "Python",
            ProjectType::Java => "Java",
            ProjectType::Kotlin => "Kotlin",
            ProjectType::Swift => "Swift",
            ProjectType::Php => "PHP",
            ProjectType::Ruby => "Ruby",
            ProjectType::Shell => "Shell",
            ProjectType::Dart => "Dart",
            ProjectType::Haskell => "Haskell",
            ProjectType::Scala => "Scala",
            ProjectType::Perl => "Perl",
            ProjectType::R => "R",
            ProjectType::Elixir => "Elixir",
            ProjectType::CSharp => "C#",
            ProjectType::FSharp => "F#",
            ProjectType::Lua => "Lua",
        }
    }
}

/// Every project type owns at least one suffix-table entry; in particular,
/// every type reachable through a marker expands to a non-empty inclusion
/// list, so a detected project never yields an empty rule set.
pub proof fn lemma_every_type_has_suffixes(t: ProjectType)
    ensures
        spec_tag_files(t).len() > 0,
{
}

/// The expansion of the first `n` project types of `tags` into one ordered
/// pattern list: each type's suffix-table entries, concatenated in tag
/// order.
pub open spec fn spec_expand(tags: Seq<ProjectType>, n: int) -> Seq<Seq<char>>
    decreases n,
{
    if n <= 0 || n > tags.len() {
        Seq::empty()
    } else {
        spec_expand(tags, n - 1) + spec_tag_files(tags[n - 1])
    }
}

/// Expanding at least one project type yields at least one inclusion
/// pattern: "detected, but with an empty rule set" cannot occur.
pub proof fn lemma_expand_nonempty(tags: Seq<ProjectType>, n: int)
    requires
        0 < n <= tags.len(),
    ensures
        spec_expand(tags, n).len() > 0,
{
    lemma_every_type_has_suffixes(tags[n - 1]);
}

/// Expands project types into the concrete inclusion patterns to collect,
/// concatenated in tag order. Duplicates across types are kept: matching is
/// a pure membership test, so they are harmless.
pub fn expand_types(types: &Vec<ProjectType>) -> (r: Vec<String>)
    ensures
        r.deep_view() == spec_expand(types@, types@.len() as int),
{
    let mut r: Vec<String> = Vec::new();
    let n = types.len();
    proof {
        assert(r.deep_view() =~= spec_expand(types@, 0));
    }
    for i in 0..n
        invariant
            n == types@.len(),
            r.deep_view() == spec_expand(types@, i as int),
    {
        let files = types[i].get_files();
        let m = files.len();
        proof {
            assert(spec_expand(types@, i as int) + spec_tag_files(types@[i as int]).subrange(0, 0)
                =~= spec_expand(types@, i as int));
        }
        for j in 0..m
            invariant
                n == types@.len(),
                m == files@.len(),
                i < n,
                files.deep_view() == spec_tag_files(types@[i as int]),
                r.deep_view() == spec_expand(types@, i as int) + spec_tag_files(
                    types@[i as int],
                ).subrange(0, j as int),
        {
            let ghost before = r.deep_view();
            r.push(files[j].to_owned());
            proof {
                assert(r.deep_view() =~= before.push(files.deep_view()[j as int]));
                assert(before.push(files.deep_view()[j as int]) =~= spec_expand(types@, i as int)
                    + spec_tag_files(types@[i as int]).subrange(0, j + 1));
            }
        }
        proof {
            assert(spec_tag_files(types@[i as int]).subrange(
                0,
                spec_tag_files(types@[i as int]).len() as int,
            ) =~= spec_tag_files(types@[i as int]));
        }
    }
    r
}

/// The display name of a project type.
pub open spec fn spec_type_name(t: ProjectType) -> Seq<char> {
    match t {
        ProjectType::Javascript => "Javascript"@,
        ProjectType::Rust => "Rust"@,
        ProjectType::Go => "Go"@,
        ProjectType::C => "C"@,
        ProjectType::Cpp => "C++"@,
        ProjectType::Python => "Python"@,
        ProjectType::Java => "Java"@,
        ProjectType::Kotlin => "Kotlin"@,
        ProjectType::Swift => "Swift"@,
        ProjectType::Php => "PHP"@,
        ProjectType::Ruby => "Ruby"@,
        ProjectType::Shell => "Shell"@,
        ProjectType::Dart => "Dart"@,
        ProjectType::Haskell => "Haskell"@,
        ProjectType::Scala => "Scala"@,
        ProjectType::Perl => "Perl"@,
        ProjectType::R => "R"@,
        ProjectType::Elixir => "Elixir"@,
        ProjectType::CSharp => "C#"@,
        ProjectType::FSharp => "F#"@,
        ProjectType::Lua => "Lua"@,
    }
}

} // verus!
