//! Planning: project-type inference over scanned filenames, and the
//! construction of the final rule sets for the manual and the automatic
//! path.

use vstd::prelude::*;
use crate::dir::{scan_dir, spec_scan_tree, DirTree, ScanParams};
use crate::project_type::{expand_types, spec_expand, spec_marker_tags, ProjectType};
use crate::text::{seq_basename, str_basename};
use vstd::string::{StrSliceExecFns, StringExecFns};

verus! {

/// The tags of all markers among the first `n` filenames, in file order,
/// with duplicates: each filename's basename is looked up in the marker
/// table.
pub open spec fn spec_infer_raw(files: Seq<Seq<char>>, n: int) -> Seq<ProjectType>
    decreases n,
{
    if n <= 0 || n > files.len() {
        Seq::empty()
    } else {
        spec_infer_raw(files, n - 1) + spec_marker_tags(seq_basename(files[n - 1]))
    }
}

/// The first `n` elements of `s` with duplicates dropped, keeping each
/// element's first occurrence in place: stable de-duplication.
pub open spec fn spec_dedup(s: Seq<ProjectType>, n: int) -> Seq<ProjectType>
    decreases n,
{
    if n <= 0 || n > s.len() {
        Seq::empty()
    } else {
        let pre = spec_dedup(s, n - 1);
        if pre.contains(s[n - 1]) {
            pre
        } else {
            pre.push(s[n - 1])
        }
    }
}

/// The project types inferred from a list of filenames: every marker hit,
/// in first-seen order, without duplicates.
pub open spec fn spec_infer(files: Seq<Seq<char>>) -> Seq<ProjectType> {
    let raw = spec_infer_raw(files, files.len() as int);
    spec_dedup(raw, raw.len() as int)
}

/// Two sequences that agree on their first `n` elements de-duplicate alike
/// over them.
proof fn lemma_dedup_agree(s1: Seq<ProjectType>, s2: Seq<ProjectType>, n: int)
    requires
        0 <= n <= s1.len(),
        n <= s2.len(),
        forall|k: int| 0 <= k < n ==> s1[k] == s2[k],
    ensures
        spec_dedup(s1, n) == spec_dedup(s2, n),
    decreases n,
{
    if n > 0 {
        lemma_dedup_agree(s1, s2, n - 1);
    }
}

/// Stable de-duplication yields pairwise distinct elements, and keeps
/// exactly the elements of its input.
proof fn lemma_dedup_distinct(s: Seq<ProjectType>, n: int)
    requires
        0 <= n <= s.len(),
    ensures
        forall|i: int, j: int|
            0 <= i < j < spec_dedup(s, n).len() ==> spec_dedup(s, n)[i] != spec_dedup(s, n)[j],
        forall|t: ProjectType| spec_dedup(s, n).contains(t) <==> s.subrange(0, n).contains(t),
    decreases n,
{
    if n <= 0 {
        assert forall|t: ProjectType| !s.subrange(0, n).contains(t) by {
            assert(s.subrange(0, n).len() == 0);
        }
    } else {
        lemma_dedup_distinct(s, n - 1);
        let pre = spec_dedup(s, n - 1);
        let d = spec_dedup(s, n);
        assert forall|t: ProjectType| d.contains(t) implies s.subrange(0, n).contains(t) by {
            if pre.contains(t) {
                assert(s.subrange(0, n - 1).contains(t));
                let k = choose|k: int| 0 <= k < n - 1 && #[trigger] s.subrange(0, n - 1)[k] == t;
                assert(s.subrange(0, n)[k] == t);
            } else {
                assert(t == s[n - 1]);
                assert(s.subrange(0, n)[n - 1] == t);
            }
        }
        assert forall|t: ProjectType| s.subrange(0, n).contains(t) implies d.contains(t) by {
            let k = choose|k: int| 0 <= k < n && #[trigger] s.subrange(0, n)[k] == t;
            if k < n - 1 {
                assert(s.subrange(0, n - 1)[k] == t);
                assert(pre.contains(t));
                if !pre.contains(s[n - 1]) {
                    let m = choose|m: int| 0 <= m < pre.len() && #[trigger] pre[m] == t;
                    assert(d[m] == t);
                } else {
                    assert(d == pre);
                }
            } else {
                assert(t == s[n - 1]);
                if pre.contains(t) {
                    let m = choose|m: int| 0 <= m < pre.len() && #[trigger] pre[m] == t;
                    assert(d[m] == t);
                } else {
                    assert(d[d.len() - 1] == t);
                }
            }
        }
        if !pre.contains(s[n - 1]) {
            assert forall|i: int, j: int| 0 <= i < j < d.len() implies d[i] != d[j] by {
                if j < d.len() - 1 {
                    assert(pre[i] == d[i] && pre[j] == d[j]);
                } else {
                    assert(d[j] == s[n - 1]);
                    assert(pre[i] == d[i]);
                    assert(pre.contains(pre[i]));
                }
            }
        }
    }
}

/// Inference never reports the same project type twice: two markers of one
/// ecosystem yield a single tag, in first-seen order.
pub proof fn lemma_infer_no_duplicates(files: Seq<Seq<char>>)
    ensures
        forall|i: int, j: int|
            0 <= i < j < spec_infer(files).len() ==> spec_infer(files)[i] != spec_infer(files)[j],
{
    let raw = spec_infer_raw(files, files.len() as int);
    lemma_dedup_distinct(raw, raw.len() as int);
}

/// Whether `v` holds `t`.
fn vec_contains_type(v: &Vec<ProjectType>, t: ProjectType) -> (r: bool)
    ensures
        r == v@.contains(t),
{
    let n = v.len();
    for i in 0..n
        invariant
            n == v@.len(),
            forall|k: int| 0 <= k < i ==> v@[k] != t,
    {
        if v[i] == t {
            return true;
        }
    }
    false
}

/// Infers the project types present among `files`, by looking each
/// filename's basename up in the marker table and keeping every hit once,
/// in first-seen order. `None` when no marker is recognized, the signal to
/// fall back to manually supplied rules; a detected project never has an
/// empty tag list.
pub fn get_project_types(files: &Vec<String>) -> (r: Option<Vec<ProjectType>>)
    ensures
        (r is Some) <==> spec_infer(files.deep_view()).len() > 0,
        r is Some ==> r->0@ == spec_infer(files.deep_view()),
{
    let ghost fv = files.deep_view();
    let mut types: Vec<ProjectType> = Vec::new();
    let n = files.len();
    proof {
        let raw0 = spec_infer_raw(fv, 0);
        assert(types@ =~= spec_dedup(raw0, raw0.len() as int));
    }
    for i in 0..n
        invariant
            n == files@.len(),
            fv == files.deep_view(),
            types@ == spec_dedup(
                spec_infer_raw(fv, i as int),
                spec_infer_raw(fv, i as int).len() as int,
            ),
    {
        let ghost raw = spec_infer_raw(fv, i as int);
        let base = str_basename(files[i].as_str());
        let tags = ProjectType::from(base);
        proof {
            assert(base@ == seq_basename(fv[i as int]));
            assert(tags@ == spec_marker_tags(seq_basename(fv[i as int])));
            assert(raw + tags@.subrange(0, 0) =~= raw);
        }
        let m = tags.len();
        for j in 0..m
            invariant
                m == tags@.len(),
                i < n,
                n == files@.len(),
                fv == files.deep_view(),
                raw == spec_infer_raw(fv, i as int),
                tags@ == spec_marker_tags(seq_basename(fv[i as int])),
                types@ == spec_dedup(
                    raw + tags@.subrange(0, j as int),
                    (raw + tags@.subrange(0, j as int)).len() as int,
                ),
        {
            let ghost sofar = raw + tags@.subrange(0, j as int);
            let t = tags[j];
            proof {
                let next = raw + tags@.subrange(0, j + 1);
                assert(next =~= sofar.push(tags@[j as int]));
                assert(forall|k: int| 0 <= k < sofar.len() ==> sofar[k] == next[k]);
                lemma_dedup_agree(next, sofar, sofar.len() as int);
                assert(spec_dedup(next, next.len() as int) == (if spec_dedup(
                    sofar,
                    sofar.len() as int,
                ).contains(next[next.len() - 1]) {
                    spec_dedup(sofar, sofar.len() as int)
                } else {
                    spec_dedup(sofar, sofar.len() as int).push(next[next.len() - 1])
                }));
            }
            if !vec_contains_type(&types, t) {
                types.push(t);
            }
        }
        proof {
            assert(raw + tags@.subrange(0, m as int) =~= spec_infer_raw(fv, i + 1));
        }
    }
    if types.is_empty() {
        None
    } else {
        Some(types)
    }
}

/// One line fragment with a single trailing carriage return removed, so
/// that CRLF-ended lines match their LF-ended spellings.
pub open spec fn spec_clean_line(frag: Seq<char>) -> Seq<char> {
    if frag.len() > 0 && frag.last() == '\r' {
        frag.drop_last()
    } else {
        frag
    }
}

/// The non-empty cleaned lines of `s` from scan position `i` on, the
/// current line having begun at `start`.
pub open spec fn spec_lines_from(s: Seq<char>, i: int, start: int) -> Seq<Seq<char>>
    decreases s.len() - i,
{
    if !(0 <= start <= i <= s.len()) {
        Seq::empty()
    } else if i == s.len() {
        let frag = spec_clean_line(s.subrange(start, i));
        if frag.len() > 0 {
            seq![frag]
        } else {
            Seq::empty()
        }
    } else if s[i] == '\n' {
        let frag = spec_clean_line(s.subrange(start, i));
        (if frag.len() > 0 {
            seq![frag]
        } else {
            Seq::empty()
        }) + spec_lines_from(s, i + 1, i + 1)
    } else {
        spec_lines_from(s, i + 1, start)
    }
}

/// The ignore patterns read from a project exclusion file's text: its
/// non-empty lines, in order, each without a trailing carriage return.
pub open spec fn spec_gitignore_lines(s: Seq<char>) -> Seq<Seq<char>> {
    spec_lines_from(s, 0, 0)
}

/// The cleaned fragment of `text` from `start` to `stop` (exclusive).
fn clean_line(text: &str, start: usize, stop: usize) -> (r: String)
    requires
        start <= stop <= text@.len(),
    ensures
        r@ == spec_clean_line(text@.subrange(start as int, stop as int)),
{
    let end = if stop > start && text.get_char(stop - 1) == '\r' {
        stop - 1
    } else {
        stop
    };
    let r = text.substring_char(start, end);
    proof {
        let frag = text@.subrange(start as int, stop as int);
        if stop > start && text@[stop - 1] == '\r' {
            assert(frag.last() == '\r');
            assert(frag.drop_last() =~= text@.subrange(start as int, end as int));
        }
    }
    r.to_owned()
}

/// Splits exclusion-file text into its non-empty lines, each trimmed of a
/// trailing carriage return: the ignore patterns the file supplies. Empty
/// lines contribute nothing; the text after the last newline counts as a
/// final line.
pub fn parse_gitignore_lines(text: &str) -> (r: Vec<String>)
    ensures
        r.deep_view() == spec_gitignore_lines(text@),
{
    let n = text.unicode_len();
    let mut r: Vec<String> = Vec::new();
    let mut start: usize = 0;
    proof {
        assert(r.deep_view() =~= Seq::<Seq<char>>::empty());
    }
    for i in 0..n
        invariant
            n == text@.len(),
            0 <= start <= i <= n,
            spec_lines_from(text@, 0, 0) == r.deep_view() + spec_lines_from(
                text@,
                i as int,
                start as int,
            ),
    {
        let c = text.get_char(i);
        if c == '\n' {
            let ghost before = r.deep_view();
            let frag = clean_line(text, start, i);
            if frag.unicode_len() > 0 {
                r.push(frag);
                proof {
                    assert(r.deep_view() =~= before.push(
                        spec_clean_line(text@.subrange(start as int, i as int)),
                    ));
                    assert(before.push(spec_clean_line(text@.subrange(start as int, i as int)))
                        + spec_lines_from(text@, i + 1, i + 1) =~= before + spec_lines_from(
                        text@,
                        i as int,
                        start as int,
                    ));
                }
            } else {
                proof {
                    assert(before + spec_lines_from(text@, i + 1, i + 1) =~= before
                        + spec_lines_from(text@, i as int, start as int));
                }
            }
            start = i + 1;
        }
    }
    let ghost before = r.deep_view();
    let frag = clean_line(text, start, n);
    if frag.unicode_len() > 0 {
        r.push(frag);
        proof {
            assert(r.deep_view() =~= before.push(
                spec_clean_line(text@.subrange(start as int, n as int)),
            ));
            assert(before.push(spec_clean_line(text@.subrange(start as int, n as int)))
                =~= before + spec_lines_from(text@, n as int, start as int));
        }
    } else {
        proof {
            assert(before + spec_lines_from(text@, n as int, start as int) =~= before);
        }
    }
    r
}

/// The root directory a run works on: the first program argument when one
/// is given, the current directory otherwise.
pub fn parse_args(args: &[String]) -> (r: &str)
    ensures
        args@.len() >= 2 ==> r@ == args@[1]@,
        args@.len() < 2 ==> r@ == "./"@,
{
    if args.len() >= 2 {
        args[1].as_str()
    } else {
        "./"
    }
}

/// Builds the rule set for a manual run: exactly the caller-supplied
/// patterns, unchanged. Pure construction; it cannot fail.
pub fn get_scan_params_manual(included: Vec<String>, ignore: Vec<String>) -> (r: ScanParams)
    ensures
        r.included == included,
        r.ignore == ignore,
{
    ScanParams { included, ignore }
}

/// A copy of a string list, equal element by element.
fn clone_strings(v: &Vec<String>) -> (r: Vec<String>)
    ensures
        r@ == v@,
{
    let n = v.len();
    let mut r: Vec<String> = Vec::new();
    for i in 0..n
        invariant
            n == v@.len(),
            r@.len() == i,
            forall|k: int| 0 <= k < i ==> r@[k] == v@[k],
    {
        r.push(v[i].clone());
    }
    proof {
        assert(r@ =~= v@);
    }
    r
}

/// What a dry scan of the tree lists: the top-level filenames under the
/// baseline ignore patterns, with the match-everything sentinel as the
/// inclusion rule; a failed dry scan counts as an empty listing.
pub open spec fn spec_dry_listing(
    dirname: Seq<char>,
    tree: DirTree,
    baseline_ignore: Seq<Seq<char>>,
) -> Seq<Seq<char>> {
    match spec_scan_tree(
        dirname,
        tree,
        seq![Seq::<char>::empty()],
        baseline_ignore,
        false,
    ) {
        Ok(fs) => fs,
        Err(_) => Seq::empty(),
    }
}

/// The project types an automatic run infers for the tree: inference over
/// the dry listing.
pub open spec fn spec_auto_types(
    dirname: Seq<char>,
    tree: DirTree,
    baseline_ignore: Seq<Seq<char>>,
) -> Seq<ProjectType> {
    spec_infer(spec_dry_listing(dirname, tree, baseline_ignore))
}

/// Builds the rule set for an automatic run: a non-recursive dry scan of
/// the tree under the baseline ignore patterns (a failed dry scan counts
/// as an empty listing rather than an error), then project-type inference
/// over the listed names. `None` when inference detects nothing — the
/// caller must fall back to manually supplied rules; otherwise the
/// inclusion patterns are the detected types' suffix tables, expanded in
/// first-seen tag order, and the ignore patterns are the baseline,
/// unchanged.
pub fn get_scan_params_auto(dir: &str, tree: &DirTree, baseline_ignore: Vec<String>) -> (r: Option<
    ScanParams,
>)
    ensures
        (r is Some) <==> spec_auto_types(dir@, *tree, baseline_ignore.deep_view()).len() > 0,
        r is Some ==> r->0.included.deep_view() == spec_expand(
            spec_auto_types(dir@, *tree, baseline_ignore.deep_view()),
            spec_auto_types(dir@, *tree, baseline_ignore.deep_view()).len() as int,
        ),
        r is Some ==> r->0.ignore.deep_view() == baseline_ignore.deep_view(),
        r is Some ==> r->0.included.deep_view().len() > 0,
{
    let ghost ign = baseline_ignore.deep_view();
    let mut dry_included: Vec<String> = Vec::new();
    dry_included.push(String::new());
    proof {
        assert(dry_included.deep_view() =~= seq![Seq::<char>::empty()]);
    }
    let dry = ScanParams { included: dry_included, ignore: clone_strings(&baseline_ignore) };
    proof {
        assert(dry.ignore.deep_view() =~= ign);
    }
    let files = match scan_dir(dir, tree, dry, false) {
        Ok(fs) => fs,
        Err(_) => Vec::new(),
    };
    proof {
        assert(files.deep_view() == spec_dry_listing(dir@, *tree, ign)) by {
            if spec_scan_tree(dir@, *tree, seq![Seq::<char>::empty()], ign, false) is Err {
                assert(files.deep_view() =~= Seq::<Seq<char>>::empty());
            }
        }
    }
    let types = match get_project_types(&files) {
        Some(t) => t,
        None => {
            return None;
        },
    };
    let included = expand_types(&types);
    proof {
        crate::project_type::lemma_expand_nonempty(types@, types@.len() as int);
    }
    Some(ScanParams { included, ignore: baseline_ignore })
}

} // verus!
