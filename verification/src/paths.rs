//! Path handling: extracting the display name of a file from its path.

use vstd::prelude::*;
use vstd::string::StrSliceExecFns;

verus! {

/// The path separator.
pub const SEPARATOR: char = '/';

/// The characters after the last separator of `p`: the file's display name.
/// A path with no separator is its own name.  This is deliberately simpler
/// than the platform path rules: a path that ends in a separator has the
/// empty name, and `.` or `..` components get no special treatment.
pub open spec fn filename_of(p: Seq<char>) -> Seq<char>
    decreases p.len(),
{
    if p.len() == 0 {
        Seq::empty()
    } else if p.last() == SEPARATOR {
        Seq::empty()
    } else {
        filename_of(p.drop_last()).push(p.last())
    }
}

/// When the last separator stands at `k`, the name is everything after it.
pub proof fn lemma_filename_after_sep(p: Seq<char>, k: int)
    requires
        0 <= k < p.len(),
        p[k] == SEPARATOR,
        forall|j: int| k < j < p.len() ==> p[j] != SEPARATOR,
    ensures
        filename_of(p) == p.skip(k + 1),
    decreases p.len(),
{
    if k == p.len() - 1 {
        assert(p.skip(k + 1) =~= Seq::<char>::empty());
    } else {
        lemma_filename_after_sep(p.drop_last(), k);
        assert(p.drop_last().skip(k + 1).push(p.last()) =~= p.skip(k + 1));
    }
}

/// A path without any separator is its own name.
pub proof fn lemma_filename_no_sep(p: Seq<char>)
    requires
        forall|j: int| 0 <= j < p.len() ==> p[j] != SEPARATOR,
    ensures
        filename_of(p) == p,
    decreases p.len(),
{
    if p.len() > 0 {
        lemma_filename_no_sep(p.drop_last());
        assert(p.drop_last().push(p.last()) =~= p);
    }
}

/// Extract the display name from a path: the part after the last separator,
/// or the whole path when it has none.
pub fn get_filename(path: &str) -> (r: String)
    ensures
        r@ == filename_of(path@),
{
    let n = path.unicode_len();
    let mut i: usize = n;
    while i > 0
        invariant
            i <= n,
            n == path@.len(),
            forall|j: int| i <= j < n ==> path@[j] != SEPARATOR,
        decreases i,
    {
        if path.get_char(i - 1) == SEPARATOR {
            proof {
                lemma_filename_after_sep(path@, i - 1);
            }
            let tail = path.substring_char(i, n);
            proof {
                assert(tail@ =~= path@.skip(i as int));
            }
            return tail.to_owned();
        }
        i = i - 1;
    }
    proof {
        lemma_filename_no_sep(path@);
    }
    path.to_owned()
}

} // verus!
