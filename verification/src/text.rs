//! Verified building blocks for the string work the selection engine does:
//! equality, prefix/suffix tests, substring search, whitespace trimming,
//! path joining and basename extraction.

use vstd::prelude::*;
use vstd::string::StrSliceExecFns;

verus! {

/// `suffix` is a suffix of `s`.
pub open spec fn seq_ends_with(s: Seq<char>, suffix: Seq<char>) -> bool {
    suffix.len() <= s.len() && s.subrange(s.len() - suffix.len(), s.len() as int) == suffix
}

/// `prefix` is a prefix of `s`.
pub open spec fn seq_starts_with(s: Seq<char>, prefix: Seq<char>) -> bool {
    prefix.len() <= s.len() && s.subrange(0, prefix.len() as int) == prefix
}

/// `needle` occurs contiguously somewhere inside `s`.
pub open spec fn seq_contains(s: Seq<char>, needle: Seq<char>) -> bool {
    exists|i: int|
        0 <= i && i + needle.len() <= s.len() && #[trigger] s.subrange(i, i + needle.len())
            == needle
}

/// Exact character equality of two string slices.
pub fn str_eq(a: &str, b: &str) -> (r: bool)
    ensures
        r == (a@ == b@),
{
    let alen = a.unicode_len();
    let blen = b.unicode_len();
    if alen != blen {
        return false;
    }
    for i in 0..alen
        invariant
            alen == a@.len(),
            alen == b@.len(),
            forall|k: int| 0 <= k < i ==> a@[k] == b@[k],
    {
        if a.get_char(i) != b.get_char(i) {
            return false;
        }
    }
    proof {
        assert(a@ =~= b@);
    }
    true
}

/// Whether the characters of `s` ending at `end` (exclusive) are `suffix`.
pub fn str_ends_with(s: &str, suffix: &str) -> (r: bool)
    ensures
        r == seq_ends_with(s@, suffix@),
{
    let slen = s.unicode_len();
    let plen = suffix.unicode_len();
    if plen > slen {
        return false;
    }
    let start = slen - plen;
    for i in 0..plen
        invariant
            slen == s@.len(),
            plen == suffix@.len(),
            plen <= slen,
            start == slen - plen,
            forall|k: int| 0 <= k < i ==> s@[start + k] == suffix@[k],
    {
        if s.get_char(start + i) != suffix.get_char(i) {
            proof {
                assert(s@.subrange(s@.len() - suffix@.len(), s@.len() as int)[i as int]
                    == s@[start + i]);
            }
            return false;
        }
    }
    proof {
        assert(s@.subrange(s@.len() - suffix@.len(), s@.len() as int) =~= suffix@);
    }
    true
}

/// Whether `s` begins with `prefix`.
pub fn str_starts_with(s: &str, prefix: &str) -> (r: bool)
    ensures
        r == seq_starts_with(s@, prefix@),
{
    let slen = s.unicode_len();
    let plen = prefix.unicode_len();
    if plen > slen {
        return false;
    }
    for i in 0..plen
        invariant
            slen == s@.len(),
            plen == prefix@.len(),
            plen <= slen,
            forall|k: int| 0 <= k < i ==> s@[k] == prefix@[k],
    {
        if s.get_char(i) != prefix.get_char(i) {
            proof {
                assert(s@.subrange(0, prefix@.len() as int)[i as int] == s@[i as int]);
            }
            return false;
        }
    }
    proof {
        assert(s@.subrange(0, prefix@.len() as int) =~= prefix@);
    }
    true
}

/// Whether the characters of `s` starting at `start` are exactly `needle`.
fn match_at(s: &str, needle: &str, start: usize) -> (r: bool)
    requires
        start + needle@.len() <= s@.len(),
    ensures
        r == (s@.subrange(start as int, start + needle@.len()) == needle@),
{
    let slen = s.unicode_len();
    let nlen = needle.unicode_len();
    for i in 0..nlen
        invariant
            slen == s@.len(),
            nlen == needle@.len(),
            start + nlen <= s@.len(),
            forall|k: int| 0 <= k < i ==> s@[start + k] == needle@[k],
    {
        if s.get_char(start + i) != needle.get_char(i) {
            proof {
                assert(s@.subrange(start as int, start + needle@.len())[i as int]
                    == s@[start + i]);
            }
            return false;
        }
    }
    proof {
        assert(s@.subrange(start as int, start + needle@.len()) =~= needle@);
    }
    true
}

/// Whether `needle` occurs contiguously inside `s`.
pub fn str_contains(s: &str, needle: &str) -> (r: bool)
    ensures
        r == seq_contains(s@, needle@),
{
    let slen = s.unicode_len();
    let nlen = needle.unicode_len();
    if nlen == 0 {
        proof {
            assert(seq_contains(s@, needle@)) by {
                assert(s@.subrange(0, 0 + needle@.len() as int) =~= needle@);
            }
        }
        return true;
    }
    if nlen > slen {
        return false;
    }
    let last = slen - nlen;
    let mut start: usize = 0;
    while start <= last
        invariant
            slen == s@.len(),
            nlen == needle@.len(),
            0 < nlen <= slen,
            last == slen - nlen,
            start <= last + 1,
            forall|j: int|
                0 <= j < start ==> #[trigger] s@.subrange(j, j + needle@.len()) != needle@,
        decreases last + 1 - start,
    {
        if match_at(s, needle, start) {
            return true;
        }
        start += 1;
    }
    false
}

/// The whitespace characters that pattern normalization trims: the ASCII
/// white space set.
pub open spec fn is_space(c: char) -> bool {
    c == ' ' || c == '\t' || c == '\n' || c == '\r' || c == '\u{000B}' || c == '\u{000C}'
}

/// `s` with leading whitespace removed.
pub open spec fn seq_trim_start(s: Seq<char>) -> Seq<char>
    decreases s.len(),
{
    if s.len() > 0 && is_space(s[0]) {
        seq_trim_start(s.drop_first())
    } else {
        s
    }
}

/// `s` with trailing whitespace removed.
pub open spec fn seq_trim_end(s: Seq<char>) -> Seq<char>
    decreases s.len(),
{
    if s.len() > 0 && is_space(s.last()) {
        seq_trim_end(s.drop_last())
    } else {
        s
    }
}

/// `s` with leading and trailing whitespace removed.
pub open spec fn seq_trim(s: Seq<char>) -> Seq<char> {
    seq_trim_end(seq_trim_start(s))
}

proof fn lemma_trim_start_index(s: Seq<char>, lo: int)
    requires
        0 <= lo <= s.len(),
        forall|k: int| 0 <= k < lo ==> is_space(s[k]),
        lo == s.len() || !is_space(s[lo]),
    ensures
        seq_trim_start(s) == s.subrange(lo, s.len() as int),
    decreases lo,
{
    if lo == 0 {
        assert(s.subrange(0, s.len() as int) =~= s);
    } else {
        let t = s.drop_first();
        assert(forall|k: int| 0 <= k < lo - 1 ==> is_space(t[k]));
        lemma_trim_start_index(t, lo - 1);
        assert(t.subrange(lo - 1, t.len() as int) =~= s.subrange(lo, s.len() as int));
    }
}

proof fn lemma_trim_end_index(s: Seq<char>, hi: int)
    requires
        0 <= hi <= s.len(),
        forall|k: int| hi <= k < s.len() ==> is_space(s[k]),
        hi == 0 || !is_space(s[hi - 1]),
    ensures
        seq_trim_end(s) == s.subrange(0, hi),
    decreases s.len(),
{
    if hi == s.len() {
        assert(s.subrange(0, hi) =~= s);
    } else {
        let t = s.drop_last();
        lemma_trim_end_index(t, hi);
        assert(t.subrange(0, hi) =~= s.subrange(0, hi));
    }
}

/// Whether `c` is in the trimmed whitespace set.
pub fn space_char(c: char) -> (r: bool)
    ensures
        r == is_space(c),
{
    c == ' ' || c == '\t' || c == '\n' || c == '\r' || c == '\u{000B}' || c == '\u{000C}'
}

/// `s` with leading and trailing whitespace removed.
pub fn str_trim<'a>(s: &'a str) -> (r: &'a str)
    ensures
        r@ == seq_trim(s@),
{
    let slen = s.unicode_len();
    let mut lo: usize = 0;
    while lo < slen && space_char(s.get_char(lo))
        invariant
            slen == s@.len(),
            0 <= lo <= slen,
            forall|k: int| 0 <= k < lo ==> is_space(s@[k]),
        decreases slen - lo,
    {
        lo += 1;
    }
    let mut hi: usize = slen;
    while hi > lo && space_char(s.get_char(hi - 1))
        invariant
            slen == s@.len(),
            lo <= hi <= slen,
            forall|k: int| hi <= k < slen ==> is_space(s@[k]),
        decreases hi,
    {
        hi -= 1;
    }
    let r = s.substring_char(lo, hi);
    proof {
        lemma_trim_start_index(s@, lo as int);
        let t = s@.subrange(lo as int, s@.len() as int);
        lemma_trim_end_index(t, hi - lo);
        assert(t.subrange(0, hi - lo) =~= s@.subrange(lo as int, hi as int));
    }
    r
}

/// The final path component of `s`: the characters after the last `/`,
/// or all of `s` when it has none.
pub open spec fn seq_basename(s: Seq<char>) -> Seq<char>
    decreases s.len(),
{
    if s.len() == 0 {
        s
    } else if s.last() == '/' {
        Seq::empty()
    } else {
        seq_basename(s.drop_last()).push(s.last())
    }
}

proof fn lemma_basename_index(s: Seq<char>, k: int)
    requires
        0 <= k <= s.len(),
        forall|j: int| k <= j < s.len() ==> s[j] != '/',
        k == 0 || s[k - 1] == '/',
    ensures
        seq_basename(s) == s.subrange(k, s.len() as int),
    decreases s.len(),
{
    if s.len() == 0 {
        assert(s.subrange(0, 0) =~= s);
    } else if k == s.len() {
        assert(s.last() == '/');
        assert(s.subrange(k, s.len() as int) =~= Seq::<char>::empty());
    } else {
        let t = s.drop_last();
        lemma_basename_index(t, k);
        assert(t.subrange(k, t.len() as int).push(s.last()) =~= s.subrange(k, s.len() as int));
    }
}

/// The final path component of `s`.
pub fn str_basename<'a>(s: &'a str) -> (r: &'a str)
    ensures
        r@ == seq_basename(s@),
{
    let slen = s.unicode_len();
    let mut k: usize = slen;
    while k > 0 && s.get_char(k - 1) != '/'
        invariant
            slen == s@.len(),
            0 <= k <= slen,
            forall|j: int| k <= j < slen ==> s@[j] != '/',
        decreases k,
    {
        k -= 1;
    }
    let r = s.substring_char(k, slen);
    proof {
        lemma_basename_index(s@, k as int);
    }
    r
}

/// The final path component is a suffix of the path itself.
pub proof fn lemma_basename_is_suffix(s: Seq<char>)
    ensures
        seq_ends_with(s, seq_basename(s)),
    decreases s.len(),
{
    if s.len() == 0 {
        assert(s.subrange(0, 0) =~= seq_basename(s));
    } else if s.last() == '/' {
        assert(s.subrange(s.len() as int, s.len() as int) =~= seq_basename(s));
    } else {
        let t = s.drop_last();
        lemma_basename_is_suffix(t);
        let bt = seq_basename(t);
        assert forall|k: int| 0 <= k < bt.len() + 1 implies s.subrange(
            s.len() - (bt.len() + 1),
            s.len() as int,
        )[k] == bt.push(s.last())[k] by {
            if k < bt.len() {
                assert(t.subrange(t.len() - bt.len(), t.len() as int)[k] == t[t.len() - bt.len()
                    + k]);
            }
        }
        assert(s.subrange(s.len() - (bt.len() + 1), s.len() as int) =~= bt.push(s.last()));
    }
}

/// `name` appended to the directory path `dir`, with a `/` separator
/// unless `dir` is empty or already ends in `/`.
pub open spec fn seq_join(dir: Seq<char>, name: Seq<char>) -> Seq<char> {
    if dir.len() == 0 {
        name
    } else if dir.last() == '/' {
        dir + name
    } else {
        dir + seq!['/'] + name
    }
}

/// Joins a directory path and an entry name into the entry's path.
pub fn join_path(dir: &str, name: &str) -> (r: String)
    ensures
        r@ == seq_join(dir@, name@),
{
    let dlen = dir.unicode_len();
    if dlen == 0 {
        return name.to_owned();
    }
    let mut r = dir.to_owned();
    if dir.get_char(dlen - 1) != '/' {
        r.append("/");
        proof {
            reveal_strlit("/");
            assert("/"@ =~= seq!['/']);
        }
    }
    r.append(name);
    r
}

} // verus!
