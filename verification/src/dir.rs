//! The directory scan.
//!
//! The scanner works on an in-memory picture of a directory tree: each
//! directory is either a listing of entries or unreadable, and each entry is
//! a file or a subdirectory. Callers that walk a real filesystem build this
//! picture with plain values and hand it in; the selection logic itself is
//! then verified for every tree.
//!
//! The walk is depth-first in listing order. Every entry is first checked
//! against the ignore patterns; an ignored entry is skipped entirely, so an
//! ignored directory is pruned and nothing beneath it can be collected. A
//! directory that survives the check is descended into when the scan is
//! recursive and contributes nothing otherwise; a file is collected when the
//! included patterns accept it. Reaching an unreadable directory aborts the
//! whole scan with `ScanError::ScanFailed`, and no partial result is
//! returned.

use vstd::prelude::*;
use crate::pattern::{is_ignored, is_included, spec_is_ignored, spec_is_included};
use crate::text::{join_path, seq_join, seq_starts_with};

verus! {

/// The included and ignore pattern lists a scan applies.
pub struct ScanParams {
    pub ignore: Vec<String>,
    pub included: Vec<String>,
}

impl Default for ScanParams {
    /// Empty included and ignore lists: a scan with them collects nothing.
    fn default() -> (r: ScanParams)
        ensures
            r.included@.len() == 0,
            r.ignore@.len() == 0,
    {
        ScanParams { ignore: Vec::new(), included: Vec::new() }
    }
}

/// One directory in the modeled tree: a readable listing of entries, or a
/// directory whose listing cannot be read.
pub enum DirTree {
    Listing { entries: Vec<DirEntry> },
    Unreadable,
}

/// One entry of a directory listing, with its bare name (no path).
pub enum DirEntry {
    File { name: String },
    Dir { name: String, tree: DirTree },
}

/// A scan aborted because a directory's listing could not be read.
#[derive(Debug)]
pub enum ScanError {
    ScanFailed { path: String },
}

/// The path at which a failed scan gave up.
pub open spec fn scan_error_path(e: ScanError) -> Seq<char> {
    match e {
        ScanError::ScanFailed { path } => path@,
    }
}

/// The bare name of a listing entry.
pub open spec fn entry_name(e: DirEntry) -> Seq<char> {
    match e {
        DirEntry::File { name } => name@,
        DirEntry::Dir { name, tree } => name@,
    }
}

/// The paths a scan of the directory `tree`, reached at path `dirname`,
/// collects, or the path of the unreadable directory that aborts it.
pub open spec fn spec_scan_tree(
    dirname: Seq<char>,
    tree: DirTree,
    included: Seq<Seq<char>>,
    ignore: Seq<Seq<char>>,
    recursive: bool,
) -> Result<Seq<Seq<char>>, Seq<char>>
    decreases tree, 0int,
{
    match tree {
        DirTree::Unreadable => Err(dirname),
        DirTree::Listing { entries } => spec_scan_entries(
            dirname,
            entries@,
            included,
            ignore,
            recursive,
            entries@.len() as int,
        ),
    }
}

/// The combined result of scanning the first `n` entries of a listing, in
/// order; the first failure aborts.
pub open spec fn spec_scan_entries(
    dirname: Seq<char>,
    entries: Seq<DirEntry>,
    included: Seq<Seq<char>>,
    ignore: Seq<Seq<char>>,
    recursive: bool,
    n: int,
) -> Result<Seq<Seq<char>>, Seq<char>>
    decreases entries, n,
{
    if n <= 0 || n > entries.len() {
        Ok(Seq::empty())
    } else {
        match spec_scan_entries(dirname, entries, included, ignore, recursive, n - 1) {
            Err(p) => Err(p),
            Ok(fs) => match spec_scan_entry(dirname, entries[n - 1], included, ignore, recursive) {
                Err(p) => Err(p),
                Ok(more) => Ok(fs + more),
            },
        }
    }
}

/// What one listing entry contributes to a scan: nothing when its path is
/// ignored; for a file, its path when included; for a directory, the scan of
/// its subtree when the scan is recursive.
pub open spec fn spec_scan_entry(
    dirname: Seq<char>,
    e: DirEntry,
    included: Seq<Seq<char>>,
    ignore: Seq<Seq<char>>,
    recursive: bool,
) -> Result<Seq<Seq<char>>, Seq<char>>
    decreases e, 0int,
{
    let p = seq_join(dirname, entry_name(e));
    if spec_is_ignored(p, ignore) {
        Ok(Seq::empty())
    } else {
        match e {
            DirEntry::File { name } => if spec_is_included(p, included) {
                Ok(seq![p])
            } else {
                Ok(Seq::empty())
            },
            DirEntry::Dir { name, tree } => if recursive {
                spec_scan_tree(p, tree, included, ignore, recursive)
            } else {
                Ok(Seq::empty())
            },
        }
    }
}

/// An executable scan result agrees with a specified one: same success or
/// failure, same paths in the same order, same failing path.
pub open spec fn scan_matches(
    r: Result<Vec<String>, ScanError>,
    s: Result<Seq<Seq<char>>, Seq<char>>,
) -> bool {
    match (r, s) {
        (Ok(files), Ok(paths)) => files.deep_view() == paths,
        (Err(e), Err(p)) => scan_error_path(e) == p,
        _ => false,
    }
}

/// A failure among the first `m` entries is the result for every longer
/// prefix as well.
proof fn lemma_scan_entries_err_persists(
    dirname: Seq<char>,
    entries: Seq<DirEntry>,
    included: Seq<Seq<char>>,
    ignore: Seq<Seq<char>>,
    recursive: bool,
    m: int,
    n: int,
)
    requires
        0 <= m <= n <= entries.len(),
        spec_scan_entries(dirname, entries, included, ignore, recursive, m) is Err,
    ensures
        spec_scan_entries(dirname, entries, included, ignore, recursive, n)
            == spec_scan_entries(dirname, entries, included, ignore, recursive, m),
    decreases n - m,
{
    if n > m {
        lemma_scan_entries_err_persists(dirname, entries, included, ignore, recursive, m, n - 1);
    }
}

/// Two listings that agree on their first `n` entries scan alike over them.
proof fn lemma_scan_entries_agree(
    dirname: Seq<char>,
    es1: Seq<DirEntry>,
    es2: Seq<DirEntry>,
    included: Seq<Seq<char>>,
    ignore: Seq<Seq<char>>,
    recursive: bool,
    n: int,
)
    requires
        0 <= n <= es1.len(),
        n <= es2.len(),
        forall|k: int| 0 <= k < n ==> es1[k] == es2[k],
    ensures
        spec_scan_entries(dirname, es1, included, ignore, recursive, n) == spec_scan_entries(
            dirname,
            es2,
            included,
            ignore,
            recursive,
            n,
        ),
    decreases n,
{
    if n > 0 {
        lemma_scan_entries_agree(dirname, es1, es2, included, ignore, recursive, n - 1);
    }
}

/// Pruning: an entry whose path matches an ignore pattern contributes
/// nothing to a scan, wherever it stands in its directory's listing. In
/// particular, when a directory's name matches an ignore pattern, no file
/// beneath it appears in the scan's result, whether or not those files would
/// match the inclusion patterns: the scan of a listing holding the ignored
/// entry equals the scan of the same listing without it. Since every
/// directory a recursive scan descends into is scanned by this same
/// function, this holds at every depth of the tree.
pub proof fn lemma_scan_prunes_ignored(
    dirname: Seq<char>,
    pre: Seq<DirEntry>,
    e: DirEntry,
    post: Seq<DirEntry>,
    included: Seq<Seq<char>>,
    ignore: Seq<Seq<char>>,
    recursive: bool,
)
    requires
        spec_is_ignored(seq_join(dirname, entry_name(e)), ignore),
    ensures
        spec_scan_entries(
            dirname,
            pre + seq![e] + post,
            included,
            ignore,
            recursive,
            (pre + seq![e] + post).len() as int,
        ) == spec_scan_entries(
            dirname,
            pre + post,
            included,
            ignore,
            recursive,
            (pre + post).len() as int,
        ),
    decreases post.len(),
{
    let esl = pre + seq![e] + post;
    let esr = pre + post;
    if post.len() == 0 {
        assert(esr =~= pre);
        assert(esl[pre.len() as int] == e);
        lemma_scan_entries_agree(dirname, esl, pre, included, ignore, recursive, pre.len() as int);
        assert(spec_scan_entry(dirname, e, included, ignore, recursive) == Ok::<
            Seq<Seq<char>>,
            Seq<char>,
        >(Seq::empty()));
        match spec_scan_entries(dirname, pre, included, ignore, recursive, pre.len() as int) {
            Ok(fs) => {
                assert(fs + Seq::<Seq<char>>::empty() =~= fs);
            },
            Err(_) => {},
        }
    } else {
        let last = post.last();
        let post0 = post.drop_last();
        let esl0 = pre + seq![e] + post0;
        let esr0 = pre + post0;
        lemma_scan_prunes_ignored(dirname, pre, e, post0, included, ignore, recursive);
        assert(forall|k: int| 0 <= k < esl0.len() ==> esl[k] == esl0[k]);
        assert(forall|k: int| 0 <= k < esr0.len() ==> esr[k] == esr0[k]);
        lemma_scan_entries_agree(
            dirname,
            esl,
            esl0,
            included,
            ignore,
            recursive,
            esl0.len() as int,
        );
        lemma_scan_entries_agree(
            dirname,
            esr,
            esr0,
            included,
            ignore,
            recursive,
            esr0.len() as int,
        );
        assert(esl[esl.len() - 1] == last);
        assert(esr[esr.len() - 1] == last);
    }
}

/// Determinism: two scans of the same tree with the same rules agree —
/// both succeed with the same paths in the same order, or both fail at the
/// same path. (A changed tree value is a changed filesystem; for an
/// unchanged one, the result is a function of the inputs alone.)
pub proof fn lemma_scan_deterministic(
    dirname: Seq<char>,
    tree: DirTree,
    included: Seq<Seq<char>>,
    ignore: Seq<Seq<char>>,
    recursive: bool,
    r1: Result<Vec<String>, ScanError>,
    r2: Result<Vec<String>, ScanError>,
)
    requires
        scan_matches(r1, spec_scan_tree(dirname, tree, included, ignore, recursive)),
        scan_matches(r2, spec_scan_tree(dirname, tree, included, ignore, recursive)),
    ensures
        r1 is Ok <==> r2 is Ok,
        r1 is Ok ==> r1->Ok_0.deep_view() == r2->Ok_0.deep_view(),
        r1 is Err ==> scan_error_path(r1->Err_0) == scan_error_path(r2->Err_0),
{
}

/// A well-formed entry name: non-empty and free of `/`, as names read from
/// a real directory listing are.
pub open spec fn wf_name(n: Seq<char>) -> bool {
    n.len() > 0 && forall|k: int| 0 <= k < n.len() ==> n[k] != '/'
}

/// A well-formed tree: every listing has well-formed, pairwise-distinct
/// entry names, at every depth. A tree read from a real filesystem is of
/// this shape.
pub open spec fn wf_tree(t: DirTree) -> bool
    decreases t, 0int,
{
    match t {
        DirTree::Unreadable => true,
        DirTree::Listing { entries } => {
            &&& forall|i: int| 0 <= i < entries@.len() ==> wf_entry(#[trigger] entries@[i])
            &&& forall|i: int, j: int|
                0 <= i < j < entries@.len() ==> entry_name(entries@[i]) != entry_name(
                    entries@[j],
                )
        },
    }
}

/// A well-formed entry: a well-formed name, and a well-formed subtree for a
/// directory.
pub open spec fn wf_entry(e: DirEntry) -> bool
    decreases e, 1int,
{
    &&& wf_name(entry_name(e))
    &&& match e {
        DirEntry::File { name } => true,
        DirEntry::Dir { name, tree } => wf_tree(tree),
    }
}

/// The directory path `d` as a prefix ending in `/` (empty for the empty
/// path), so that `seq_join(d, n) == dir_prefix(d) + n`.
spec fn dir_prefix(d: Seq<char>) -> Seq<char> {
    if d.len() == 0 {
        Seq::empty()
    } else if d.last() == '/' {
        d
    } else {
        d + seq!['/']
    }
}

proof fn lemma_join_dir_prefix(d: Seq<char>, n: Seq<char>)
    ensures
        seq_join(d, n) == dir_prefix(d) + n,
{
    if d.len() == 0 {
        assert(seq_join(d, n) =~= dir_prefix(d) + n);
    } else {
        assert(seq_join(d, n) =~= dir_prefix(d) + n);
    }
}

/// The characters of `s` before its first `/`; all of `s` when it has none.
spec fn first_segment(s: Seq<char>) -> Seq<char>
    decreases s.len(),
{
    if s.len() == 0 {
        s
    } else if s[0] == '/' {
        Seq::empty()
    } else {
        seq![s[0]] + first_segment(s.drop_first())
    }
}

/// The first segment of a slash-free part followed by nothing or by a
/// `/`-led rest is that part itself.
proof fn lemma_first_segment_of(n: Seq<char>, rest: Seq<char>)
    requires
        forall|k: int| 0 <= k < n.len() ==> n[k] != '/',
        rest.len() == 0 || rest[0] == '/',
    ensures
        first_segment(n + rest) == n,
    decreases n.len(),
{
    if n.len() == 0 {
        assert(n + rest =~= rest);
        if rest.len() == 0 {
            assert(first_segment(rest) =~= n);
        } else {
            assert(first_segment(rest) =~= n);
        }
    } else {
        let t = n.drop_first();
        lemma_first_segment_of(t, rest);
        assert((n + rest).drop_first() =~= t + rest);
        assert(seq![n[0]] + first_segment(t + rest) =~= n);
    }
}

/// A path collected under `d`: strictly longer than `d`'s prefix form,
/// which it begins with.
spec fn path_under(d: Seq<char>, p: Seq<char>) -> bool {
    dir_prefix(d).len() < p.len() && seq_starts_with(p, dir_prefix(d))
}

/// The name of the listing entry through which a path collected under `d`
/// was reached: the first segment after `d`'s prefix form.
spec fn path_entry_name(d: Seq<char>, p: Seq<char>) -> Seq<char> {
    first_segment(p.subrange(dir_prefix(d).len() as int, p.len() as int))
}

/// On a well-formed tree, a successful recursive scan collects paths that
/// all lie under `d`, each reached through a listing entry its shape
/// betrays, and no path twice.
proof fn lemma_scan_tree_distinct(
    d: Seq<char>,
    t: DirTree,
    included: Seq<Seq<char>>,
    ignore: Seq<Seq<char>>,
)
    requires
        wf_tree(t),
    ensures
        (match spec_scan_tree(d, t, included, ignore, true) {
            Ok(ps) => {
                &&& forall|x: int| 0 <= x < ps.len() ==> path_under(d, #[trigger] ps[x])
                &&& forall|x: int, y: int| 0 <= x < y < ps.len() ==> ps[x] != ps[y]
            },
            Err(_) => true,
        }),
    decreases t, 0int,
{
    match t {
        DirTree::Unreadable => {},
        DirTree::Listing { entries } => {
            lemma_scan_entries_distinct(d, entries@, included, ignore, entries@.len() as int);
        },
    }
}

/// The scan of the first `n` entries of a well-formed listing: every path
/// lies under `d` and is reached through one of those entries, whose name
/// begins its relative part; distinct entry names make all paths distinct.
proof fn lemma_scan_entries_distinct(
    d: Seq<char>,
    es: Seq<DirEntry>,
    included: Seq<Seq<char>>,
    ignore: Seq<Seq<char>>,
    n: int,
)
    requires
        0 <= n <= es.len(),
        forall|i: int| 0 <= i < es.len() ==> wf_entry(#[trigger] es[i]),
        forall|i: int, j: int| 0 <= i < j < es.len() ==> entry_name(es[i]) != entry_name(es[j]),
    ensures
        (match spec_scan_entries(d, es, included, ignore, true, n) {
            Ok(ps) => {
                &&& forall|x: int|
                    0 <= x < ps.len() ==> path_under(d, #[trigger] ps[x]) && exists|k: int|
                        0 <= k < n && path_entry_name(d, ps[x]) == entry_name(es[k])
                &&& forall|x: int, y: int| 0 <= x < y < ps.len() ==> ps[x] != ps[y]
            },
            Err(_) => true,
        }),
    decreases es, n,
{
    if 0 < n <= es.len() {
        lemma_scan_entries_distinct(d, es, included, ignore, n - 1);
        lemma_scan_entry_distinct(d, es[n - 1], included, ignore);
        match spec_scan_entries(d, es, included, ignore, true, n - 1) {
            Err(_) => {},
            Ok(fs) => {
                match spec_scan_entry(d, es[n - 1], included, ignore, true) {
                    Err(_) => {},
                    Ok(more) => {
                        let ps = fs + more;
                        assert forall|x: int| 0 <= x < ps.len() implies path_under(
                            d,
                            #[trigger] ps[x],
                        ) && exists|k: int|
                            0 <= k < n && path_entry_name(d, ps[x]) == entry_name(es[k]) by {
                            if x < fs.len() {
                                assert(ps[x] == fs[x]);
                                let k = choose|k: int|
                                    0 <= k < n - 1 && path_entry_name(d, fs[x]) == entry_name(
                                        es[k],
                                    );
                                assert(0 <= k < n && path_entry_name(d, ps[x]) == entry_name(
                                    es[k],
                                ));
                            } else {
                                assert(ps[x] == more[x - fs.len()]);
                                assert(path_entry_name(d, ps[x]) == entry_name(es[n - 1]));
                            }
                        }
                        assert forall|x: int, y: int| 0 <= x < y < ps.len() implies ps[x]
                            != ps[y] by {
                            if x < fs.len() && y >= fs.len() {
                                assert(ps[x] == fs[x]);
                                assert(ps[y] == more[y - fs.len()]);
                                let k = choose|k: int|
                                    0 <= k < n - 1 && path_entry_name(d, fs[x]) == entry_name(
                                        es[k],
                                    );
                                assert(entry_name(es[k]) != entry_name(es[n - 1]));
                            } else if x >= fs.len() {
                                assert(ps[x] == more[x - fs.len()]);
                                assert(ps[y] == more[y - fs.len()]);
                            } else {
                                assert(ps[x] == fs[x]);
                                assert(ps[y] == fs[y]);
                            }
                        }
                    },
                }
            },
        }
    }
}

/// What one well-formed entry contributes: paths under `d` whose relative
/// part begins with the entry's own name, pairwise distinct.
proof fn lemma_scan_entry_distinct(
    d: Seq<char>,
    e: DirEntry,
    included: Seq<Seq<char>>,
    ignore: Seq<Seq<char>>,
)
    requires
        wf_entry(e),
    ensures
        (match spec_scan_entry(d, e, included, ignore, true) {
            Ok(ps) => {
                &&& forall|x: int|
                    0 <= x < ps.len() ==> path_under(d, #[trigger] ps[x]) && path_entry_name(
                        d,
                        ps[x],
                    ) == entry_name(e)
                &&& forall|x: int, y: int| 0 <= x < y < ps.len() ==> ps[x] != ps[y]
            },
            Err(_) => true,
        }),
    decreases e, 1int,
{
    let name = entry_name(e);
    let p = seq_join(d, name);
    lemma_join_dir_prefix(d, name);
    if spec_is_ignored(p, ignore) {
    } else {
        match e {
            DirEntry::File { name: _ } => {
                if spec_is_included(p, included) {
                    let ps = seq![p];
                    assert(seq_starts_with(p, dir_prefix(d))) by {
                        assert(p.subrange(0, dir_prefix(d).len() as int) =~= dir_prefix(d));
                    }
                    assert(path_entry_name(d, p) == name) by {
                        assert(p.subrange(dir_prefix(d).len() as int, p.len() as int) =~= name);
                        lemma_first_segment_of(name, Seq::empty());
                        assert(name + Seq::<char>::empty() =~= name);
                    }
                }
            },
            DirEntry::Dir { name: _, tree } => {
                lemma_scan_tree_distinct(p, tree, included, ignore);
                match spec_scan_tree(p, tree, included, ignore, true) {
                    Err(_) => {},
                    Ok(ps) => {
                        // p ends with the last character of the slash-free
                        // name, so its prefix form is p followed by `/`.
                        assert(p[p.len() - 1] == name[name.len() - 1]);
                        assert(dir_prefix(p) =~= dir_prefix(d) + name + seq!['/']);
                        assert forall|x: int| 0 <= x < ps.len() implies path_under(
                            d,
                            #[trigger] ps[x],
                        ) && path_entry_name(d, ps[x]) == entry_name(e) by {
                            let q = ps[x];
                            assert(path_under(p, q));
                            assert(seq_starts_with(q, dir_prefix(p)));
                            assert forall|k: int| 0 <= k < dir_prefix(p).len() implies q[k]
                                == dir_prefix(p)[k] by {
                                assert(q.subrange(0, dir_prefix(p).len() as int)[k] == q[k]);
                            }
                            assert(seq_starts_with(q, dir_prefix(d))) by {
                                assert(q.subrange(0, dir_prefix(d).len() as int) =~= dir_prefix(
                                    d,
                                ));
                            }
                            let rel = q.subrange(dir_prefix(d).len() as int, q.len() as int);
                            let sub = q.subrange(dir_prefix(p).len() as int, q.len() as int);
                            assert(rel =~= name + (seq!['/'] + sub));
                            lemma_first_segment_of(name, seq!['/'] + sub);
                        }
                        assert forall|x: int, y: int| 0 <= x < y < ps.len() implies ps[x]
                            != ps[y] by {
                            assert(path_under(p, ps[x]) && path_under(p, ps[y]));
                        }
                    },
                }
            },
        }
    }
}

/// On a well-formed tree — distinct, slash-free entry names in every
/// listing, as a real directory tree has — a successful recursive scan
/// never collects the same path twice: the result is de-duplicated as it
/// stands.
pub proof fn lemma_scan_no_duplicate_paths(
    dirname: Seq<char>,
    tree: DirTree,
    included: Seq<Seq<char>>,
    ignore: Seq<Seq<char>>,
)
    requires
        wf_tree(tree),
    ensures
        (match spec_scan_tree(dirname, tree, included, ignore, true) {
            Ok(ps) => forall|x: int, y: int| 0 <= x < y < ps.len() ==> ps[x] != ps[y],
            Err(_) => true,
        }),
{
    lemma_scan_tree_distinct(dirname, tree, included, ignore);
}

/// Walks `tree` at path `dirname`, appending every collected path to
/// `files`; an unreadable directory aborts the walk.
fn dir_helper(
    dirname: &str,
    tree: &DirTree,
    files: &mut Vec<String>,
    params: &ScanParams,
    recursive: bool,
) -> (r: Result<(), ScanError>)
    ensures
        (match spec_scan_tree(
            dirname@,
            *tree,
            params.included.deep_view(),
            params.ignore.deep_view(),
            recursive,
        ) {
            Ok(paths) => r is Ok && final(files).deep_view() == old(files).deep_view() + paths,
            Err(p) => r is Err && scan_error_path(r->Err_0) == p,
        }),
    decreases *tree,
{
    let ghost inc = params.included.deep_view();
    let ghost ign = params.ignore.deep_view();
    match tree {
        DirTree::Unreadable => Err(ScanError::ScanFailed { path: dirname.to_owned() }),
        DirTree::Listing { entries } => {
            let n = entries.len();
            for i in 0..n
                invariant
                    n == entries@.len(),
                    inc == params.included.deep_view(),
                    ign == params.ignore.deep_view(),
                    *tree == (DirTree::Listing { entries: *entries }),
                    spec_scan_entries(dirname@, entries@, inc, ign, recursive, i as int) is Ok,
                    files.deep_view() == old(files).deep_view() + spec_scan_entries(
                        dirname@,
                        entries@,
                        inc,
                        ign,
                        recursive,
                        i as int,
                    )->Ok_0,
            {
                let entry = &entries[i];
                let name = match entry {
                    DirEntry::File { name } => name,
                    DirEntry::Dir { name, tree: _ } => name,
                };
                let path = join_path(dirname, name.as_str());
                proof {
                    assert(path@ == seq_join(dirname@, entry_name(entries@[i as int])));
                }
                let ghost prev = spec_scan_entries(dirname@, entries@, inc, ign, recursive, i as int)->Ok_0;
                if is_ignored(path.as_str(), params.ignore.as_slice()) {
                    proof {
                        assert(spec_scan_entry(dirname@, entries@[i as int], inc, ign, recursive)
                            == Ok::<Seq<Seq<char>>, Seq<char>>(Seq::empty()));
                        assert(prev + Seq::<Seq<char>>::empty() =~= prev);
                    }
                } else {
                    match entry {
                        DirEntry::File { name } => {
                            if is_included(path.as_str(), params.included.as_slice()) {
                                proof {
                                    assert(spec_scan_entry(
                                        dirname@,
                                        entries@[i as int],
                                        inc,
                                        ign,
                                        recursive,
                                    ) == Ok::<Seq<Seq<char>>, Seq<char>>(seq![path@]));
                                }
                                let ghost files_before = files.deep_view();
                                files.push(path);
                                proof {
                                    assert(files.deep_view() =~= files_before.push(
                                        entry_name_path(dirname@, entries@[i as int]),
                                    ));
                                    assert(files.deep_view() =~= old(files).deep_view() + (prev
                                        + seq![entry_name_path(dirname@, entries@[i as int])]));
                                }
                            } else {
                                proof {
                                    assert(prev + Seq::<Seq<char>>::empty() =~= prev);
                                }
                            }
                        },
                        DirEntry::Dir { name, tree: sub } => {
                            if recursive {
                                proof {
                                    assert(decreases_to!(entries@ => entries@[i as int]));
                                    assert(decreases_to!(*tree => *sub));
                                }
                                let sub_result = dir_helper(
                                    path.as_str(),
                                    sub,
                                    files,
                                    params,
                                    true,
                                );
                                match sub_result {
                                    Ok(()) => {
                                        proof {
                                            let sub_paths = spec_scan_tree(
                                                path@,
                                                *sub,
                                                inc,
                                                ign,
                                                true,
                                            )->Ok_0;
                                            assert(old(files).deep_view() + (prev + sub_paths)
                                                =~= (old(files).deep_view() + prev) + sub_paths);
                                        }
                                    },
                                    Err(e) => {
                                        proof {
                                            let ghost p = spec_scan_tree(path@, *sub, inc, ign, true)->Err_0;
                                            assert(spec_scan_entries(
                                                dirname@,
                                                entries@,
                                                inc,
                                                ign,
                                                recursive,
                                                i + 1,
                                            ) is Err);
                                            lemma_scan_entries_err_persists(
                                                dirname@,
                                                entries@,
                                                inc,
                                                ign,
                                                recursive,
                                                i + 1,
                                                n as int,
                                            );
                                        }
                                        return Err(e);
                                    },
                                }
                            } else {
                                proof {
                                    assert(prev + Seq::<Seq<char>>::empty() =~= prev);
                                }
                            }
                        },
                    }
                }
            }
            Ok(())
        },
    }
}

/// The path of an entry reached from `dirname`.
pub open spec fn entry_name_path(dirname: Seq<char>, e: DirEntry) -> Seq<char> {
    seq_join(dirname, entry_name(e))
}

/// Scans the directory `tree`, reached at path `dirname`, for the files that
/// the included and ignore parameters select, in depth-first listing order.
/// Fails with the failing path, and returns no partial result, when a
/// directory the scan descends into is unreadable.
pub fn scan_dir(dirname: &str, tree: &DirTree, params: ScanParams, recursive: bool) -> (r: Result<
    Vec<String>,
    ScanError,
>)
    ensures
        scan_matches(
            r,
            spec_scan_tree(
                dirname@,
                *tree,
                params.included.deep_view(),
                params.ignore.deep_view(),
                recursive,
            ),
        ),
{
    let mut files: Vec<String> = Vec::new();
    proof {
        assert(files.deep_view() =~= Seq::<Seq<char>>::empty());
    }
    match dir_helper(dirname, tree, &mut files, &params, recursive) {
        Ok(()) => {
            proof {
                let s = spec_scan_tree(
                    dirname@,
                    *tree,
                    params.included.deep_view(),
                    params.ignore.deep_view(),
                    recursive,
                );
                assert(Seq::<Seq<char>>::empty() + s->Ok_0 =~= s->Ok_0);
            }
            Ok(files)
        },
        Err(e) => Err(e),
    }
}

} // verus!
