//! How a run chooses its selection rules, and the shape of manually
//! supplied inclusion tokens.

use vstd::prelude::*;
use crate::text::{seq_trim, str_eq, str_trim};
use vstd::string::{StrSliceExecFns, StringExecFns};

verus! {

/// How the selection rules are obtained: supplied manually by the caller,
/// or inferred automatically from the directory's own marker files.
pub enum ScanType {
    Manual,
    Auto,
}

impl Default for ScanType {
    /// Automatic inference is the default.
    fn default() -> (r: ScanType)
        ensures
            r is Auto,
    {
        ScanType::Auto
    }
}

/// Manual exactly when some argument is `--manual`; automatic otherwise.
pub fn get_scan_type(args: &[String]) -> (r: ScanType)
    ensures
        (r is Manual) <==> (exists|i: int| 0 <= i < args@.len() && #[trigger] args@[i]@
            == "--manual"@),
        (r is Manual) || (r is Auto),
{
    let n = args.len();
    for i in 0..n
        invariant
            n == args@.len(),
            forall|k: int| 0 <= k < i ==> #[trigger] args@[k]@ != "--manual"@,
    {
        if str_eq(args[i].as_str(), "--manual") {
            return ScanType::Manual;
        }
    }
    ScanType::Auto
}

/// A manually supplied inclusion token in its final form: trimmed, and
/// given a leading `.` when it has none, so that a bare extension name
/// such as `rs` means the suffix `.rs`.
pub open spec fn spec_type_token(t: Seq<char>) -> Seq<char> {
    let u = seq_trim(t);
    if u.len() >= 1 && u[0] == '.' {
        u
    } else {
        seq!['.'] + u
    }
}

/// Brings one manually supplied file-format token into its inclusion-pattern
/// form: trims it and prefixes a `.` when the token has none.
pub fn type_token(token: &str) -> (r: String)
    ensures
        r@ == spec_type_token(token@),
{
    let t = str_trim(token);
    let tl = t.unicode_len();
    if tl >= 1 && t.get_char(0) == '.' {
        t.to_owned()
    } else {
        let mut r = ".".to_owned();
        proof {
            reveal_strlit(".");
            assert("."@ =~= seq!['.']);
        }
        r.append(t);
        r
    }
}

} // verus!
