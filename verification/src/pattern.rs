//! Pattern normalization and matching.
//!
//! Ignore patterns match by substring containment against the whole path
//! (which subsumes containment in the final path component, since the final
//! component is itself a contiguous part of the path). Inclusion patterns match
//! by suffix against the final path component only: they name file suffixes
//! or exact filenames, while ignore patterns name path fragments such as a
//! build directory anywhere in the tree.

use vstd::prelude::*;
use crate::text::{
    seq_basename, seq_contains, seq_ends_with, seq_starts_with, seq_trim, str_basename,
    str_contains, str_ends_with, str_starts_with, str_trim,
};

verus! {

/// A normalized pattern: whitespace trimmed, then one leading `./` stripped,
/// then one leading `/` stripped.
pub open spec fn spec_normalize(p: Seq<char>) -> Seq<char> {
    let t = seq_trim(p);
    let u = if seq_starts_with(t, seq!['.', '/']) {
        t.subrange(2, t.len() as int)
    } else {
        t
    };
    if u.len() >= 1 && u[0] == '/' {
        u.subrange(1, u.len() as int)
    } else {
        u
    }
}

/// Normalizes a pattern: trims whitespace, strips a leading `./`, and strips
/// one leading `/`, so that path-anchored spellings of a pattern match the
/// plain one.
pub fn normalize_pattern(pattern: &str) -> (r: String)
    ensures
        r@ == spec_normalize(pattern@),
{
    let t = str_trim(pattern);
    proof {
        reveal_strlit("./");
        assert("./"@ =~= seq!['.', '/']);
    }
    let t = if str_starts_with(t, "./") {
        t.substring_char(2, t.unicode_len())
    } else {
        t
    };
    proof {
        reveal_strlit("/");
        assert("/"@ =~= seq!['/']);
        assert(seq_starts_with(t@, "/"@) ==> t@[0] == '/') by {
            if seq_starts_with(t@, "/"@) {
                assert(t@.subrange(0, 1)[0] == t@[0]);
            }
        }
        assert((t@.len() >= 1 && t@[0] == '/') ==> seq_starts_with(t@, "/"@)) by {
            if t@.len() >= 1 && t@[0] == '/' {
                assert(t@.subrange(0, 1) =~= "/"@);
            }
        }
    }
    let t = if str_starts_with(t, "/") {
        t.substring_char(1, t.unicode_len())
    } else {
        t
    };
    t.to_owned()
}

/// A path is ignored when, for any normalized ignore pattern, either the
/// full path or its final component contains the pattern as a substring.
pub open spec fn spec_is_ignored(path: Seq<char>, ignored: Seq<Seq<char>>) -> bool {
    exists|i: int|
        0 <= i < ignored.len() && (seq_contains(path, #[trigger] spec_normalize(ignored[i]))
            || seq_contains(seq_basename(path), spec_normalize(ignored[i])))
}

/// Whether `path` matches any of the ignore patterns, each normalized first.
/// An empty pattern list ignores nothing. One containment test on the whole
/// path decides both disjuncts of the match, since containment in the final
/// component implies containment in the path.
pub fn is_ignored(path: &str, ignored: &[String]) -> (r: bool)
    ensures
        r == spec_is_ignored(path@, ignored.deep_view()),
{
    let n = ignored.len();
    for i in 0..n
        invariant
            n == ignored@.len(),
            forall|k: int|
                0 <= k < i ==> !seq_contains(path@, #[trigger] spec_normalize(
                    ignored.deep_view()[k],
                )) && !seq_contains(seq_basename(path@), spec_normalize(ignored.deep_view()[k])),
    {
        let normalized = normalize_pattern(ignored[i].as_str());
        if str_contains(path, normalized.as_str()) {
            proof {
                assert(spec_normalize(ignored.deep_view()[i as int]) == normalized@);
            }
            return true;
        }
        proof {
            assert(!seq_contains(seq_basename(path@), normalized@)) by {
                if seq_contains(seq_basename(path@), normalized@) {
                    lemma_filename_containment_subsumed(path@, normalized@);
                }
            }
        }
    }
    false
}

/// A path is included when its final component ends with any inclusion pattern.
pub open spec fn spec_is_included(path: Seq<char>, included: Seq<Seq<char>>) -> bool {
    exists|i: int| 0 <= i < included.len() && seq_ends_with(seq_basename(path), #[trigger] included[i])
}

/// Whether the final component of `path` ends with any of the inclusion
/// patterns. Patterns are used as given, without normalization: they are
/// suffixes such as a file extension with its leading dot, or an exact
/// filename. An empty pattern list includes nothing; a list holding one empty
/// pattern is the match-everything sentinel, since every name ends with
/// the empty string.
pub fn is_included(path: &str, included: &[String]) -> (r: bool)
    ensures
        r == spec_is_included(path@, included.deep_view()),
{
    let file_name = str_basename(path);
    let n = included.len();
    for i in 0..n
        invariant
            n == included@.len(),
            file_name@ == seq_basename(path@),
            forall|k: int|
                0 <= k < i ==> !seq_ends_with(seq_basename(path@), #[trigger] included.deep_view()[k]),
    {
        if str_ends_with(file_name, included[i].as_str()) {
            proof {
                assert(seq_ends_with(seq_basename(path@), included.deep_view()[i as int]));
            }
            return true;
        }
    }
    false
}

/// A pattern contained in a path's final component is contained in the
/// whole path: the component is a contiguous part of it. An ignore test on
/// the whole path therefore covers the final component as well.
pub proof fn lemma_filename_containment_subsumed(path: Seq<char>, pat: Seq<char>)
    requires
        seq_contains(seq_basename(path), pat),
    ensures
        seq_contains(path, pat),
{
    crate::text::lemma_basename_is_suffix(path);
    let base = seq_basename(path);
    let i = choose|i: int|
        0 <= i && i + pat.len() <= base.len() && #[trigger] base.subrange(i, i + pat.len()) == pat;
    let off = path.len() - base.len();
    assert forall|k: int| 0 <= k < pat.len() implies path.subrange(
        off + i,
        off + i + pat.len(),
    )[k] == pat[k] by {
        assert(path.subrange(off as int, path.len() as int)[i + k] == path[off + i + k]);
        assert(base.subrange(i, i + pat.len())[k] == base[i + k]);
    }
    assert(path.subrange(off + i, off + i + pat.len()) =~= pat);
}

/// A pattern that normalization leaves unchanged: no surrounding whitespace,
/// no leading `./`, no leading `/`.
pub open spec fn is_normal_pattern(q: Seq<char>) -> bool {
    &&& seq_trim(q) == q
    &&& !seq_starts_with(q, seq!['.', '/'])
    &&& !(q.len() >= 1 && q[0] == '/')
}

/// Normalization leaves an already-normal pattern unchanged.
pub proof fn lemma_normalize_fixed(q: Seq<char>)
    requires
        is_normal_pattern(q),
    ensures
        spec_normalize(q) == q,
{
}

/// Normalization is idempotent on every pattern whose normalized form is
/// itself normal. (One pass is not a fixpoint for every input: a pattern
/// with several leading slashes, for instance, loses only one of them per
/// pass, so a second pass can still change it.)
pub proof fn lemma_normalize_idempotent(p: Seq<char>)
    requires
        is_normal_pattern(spec_normalize(p)),
    ensures
        spec_normalize(spec_normalize(p)) == spec_normalize(p),
{
    lemma_normalize_fixed(spec_normalize(p));
}

/// With an empty ignore list, no path is ignored.
pub proof fn lemma_is_ignored_empty(path: Seq<char>)
    ensures
        !spec_is_ignored(path, Seq::empty()),
{
}

/// With an empty inclusion list, no path is included.
pub proof fn lemma_is_included_empty(path: Seq<char>)
    ensures
        !spec_is_included(path, Seq::empty()),
{
}

/// With the single-empty-pattern sentinel inclusion list, every path is
/// included: every filename ends with the empty string.
pub proof fn lemma_include_sentinel(path: Seq<char>)
    ensures
        spec_is_included(path, seq![Seq::<char>::empty()]),
{
    let pats: Seq<Seq<char>> = seq![Seq::<char>::empty()];
    let base = seq_basename(path);
    assert(base.subrange(base.len() as int, base.len() as int) =~= pats[0]);
    assert(seq_ends_with(base, pats[0]));
}

} // verus!
