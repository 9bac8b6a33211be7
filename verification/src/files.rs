//! The naming rules for stored document files: the pure checks a directory
//! scan applies to a candidate file name. Listing directories and reading
//! files is I/O and stays outside the library; only the name logic lives
//! here.

use vstd::prelude::*;
use vstd::string::StrSliceExecFns;

verus! {

/// `p` occurs somewhere in `s` as a contiguous run of characters.
pub open spec fn contains_seq(s: Seq<char>, p: Seq<char>) -> bool {
    exists|i: int| 0 <= i <= s.len() - p.len() && #[trigger] s.subrange(i, i + p.len()) == p
}

/// Substring search: whether `p` occurs in `s`.
pub fn contains_str(s: &str, p: &str) -> (r: bool)
    ensures
        r == contains_seq(s@, p@),
{
    let n = s.unicode_len();
    let m = p.unicode_len();
    if m > n {
        return false;
    }
    let end = n - m;
    let mut i: usize = 0;
    while i <= end
        invariant_except_break
            i <= end,
        invariant
            m <= n,
            n == s@.len(),
            m == p@.len(),
            end == n - m,
            forall|k: int| 0 <= k < i ==> #[trigger] s@.subrange(k, k + p@.len()) != p@,
        ensures
            forall|k: int| 0 <= k <= n - m ==> #[trigger] s@.subrange(k, k + p@.len()) != p@,
        decreases end - i,
    {
        let mut j: usize = 0;
        let mut mismatch = false;
        while j < m
            invariant
                i + m <= n,
                n == s@.len(),
                m == p@.len(),
                j <= m,
                !mismatch ==> forall|q: int| 0 <= q < j ==> s@[i + q] == p@[q],
                mismatch ==> s@.subrange(i as int, i + p@.len()) != p@,
            decreases m - j,
        {
            let a = s.get_char(i + j);
            let b = p.get_char(j);
            if a != b {
                proof {
                    assert(s@.subrange(i as int, i + p@.len())[j as int] == s@[i + j]);
                }
                mismatch = true;
                j = m;
            } else {
                j = j + 1;
            }
        }
        if !mismatch {
            proof {
                assert(s@.subrange(i as int, i + p@.len()) =~= p@);
            }
            return true;
        }
        if i == end {
            break;
        }
        i = i + 1;
    }
    false
}

/// The extension rule for a stored document's file name: it ends in ".json"
/// and has a non-empty stem before the dot.
pub open spec fn valid_document_extension(name: Seq<char>) -> bool {
    name.len() > 5 && name.subrange(name.len() - 5, name.len() as int) == seq![
        '.',
        'j',
        's',
        'o',
        'n',
    ]
}

pub fn has_valid_extension(name: &str) -> (r: bool)
    ensures
        r == valid_document_extension(name@),
{
    let n = name.unicode_len();
    if n <= 5 {
        return false;
    }
    let r = name.get_char(n - 5) == '.' && name.get_char(n - 4) == 'j' && name.get_char(n - 3)
        == 's' && name.get_char(n - 2) == 'o' && name.get_char(n - 1) == 'n';
    proof {
        let tail = name@.subrange(name@.len() - 5, name@.len() as int);
        assert(tail[0] == name@[name@.len() - 5]);
        assert(tail[1] == name@[name@.len() - 4]);
        assert(tail[2] == name@[name@.len() - 3]);
        assert(tail[3] == name@[name@.len() - 2]);
        assert(tail[4] == name@[name@.len() - 1]);
        if r {
            assert(tail =~= seq!['.', 'j', 's', 'o', 'n']);
        }
    }
    r
}

/// The name rule for a stored document's file name: it mentions the
/// application's name (the application hands its own name in).
pub fn has_valid_filename(name: &str, app_name: &str) -> (r: bool)
    ensures
        r == contains_seq(name@, app_name@),
{
    contains_str(name, app_name)
}

} // verus!
