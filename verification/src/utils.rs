use vstd::prelude::*;
use vstd::string::StrSliceExecFns;
use vstd::string::StringExecFns;

verus! {

/// A string shortened for display: short strings unchanged, longer ones cut
/// to their first and last `keep / 2` characters around an ellipsis.
pub open spec fn truncated_middle_spec(s: Seq<char>, keep: nat) -> Seq<char> {
    if s.len() <= keep {
        s
    } else {
        s.subrange(0, keep as int / 2) + "..."@ + s.subrange(
            s.len() - keep as int / 2,
            s.len() as int,
        )
    }
}

/// Shorten a long string in the middle so it fits a display column. Counts
/// characters, not bytes.
pub fn truncate_middle(s: &str, keep: usize) -> (r: String)
    ensures
        r@ == truncated_middle_spec(s@, keep as nat),
{
    let n = s.unicode_len();
    if n <= keep {
        s.to_owned()
    } else {
        let half = keep / 2;
        let start = s.substring_char(0, half);
        let end = s.substring_char(n - half, n);
        String::from_str(start).concat("...").concat(end)
    }
}

} // verus!
