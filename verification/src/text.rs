//! Byte-level text model.
//!
//! File content is handled as raw bytes for as long as possible: splitting
//! into newline-delimited lines, joining a range of lines back together,
//! aligning a tail read to a line boundary.  Decoding bytes into displayable
//! text is lossy by policy: it never fails on malformed encoding.

use vstd::prelude::*;
use vstd::slice::{slice_subrange, slice_to_vec};
use vstd::utf8::{decode_utf8, valid_utf8};

verus! {

/// The byte that terminates a line.
pub const NEWLINE: u8 = 10;

/// The byte that may precede a newline in a CRLF line ending.
pub const CARRIAGE_RETURN: u8 = 13;

/// `l` with one terminating carriage return dropped: a line that ended at a
/// newline may carry one from a CRLF ending, which is not part of its
/// content.
pub open spec fn strip_cr(l: Seq<u8>) -> Seq<u8> {
    if l.len() > 0 && l.last() == CARRIAGE_RETURN {
        l.drop_last()
    } else {
        l
    }
}

/// Index of the first newline byte of `s`, or `s.len()` if `s` has none.
pub open spec fn first_nl(s: Seq<u8>) -> nat
    decreases s.len(),
{
    if s.len() == 0 {
        0
    } else if s[0] == NEWLINE {
        0
    } else {
        1 + first_nl(s.skip(1))
    }
}

/// `first_nl` points at the first newline: nothing before it is a newline,
/// and it is a newline unless `s` has none at all.
pub proof fn lemma_first_nl(s: Seq<u8>)
    ensures
        first_nl(s) <= s.len(),
        forall|j: int| 0 <= j < first_nl(s) ==> s[j] != NEWLINE,
        first_nl(s) < s.len() ==> s[first_nl(s) as int] == NEWLINE,
    decreases s.len(),
{
    if s.len() == 0 {
    } else if s[0] == NEWLINE {
    } else {
        lemma_first_nl(s.skip(1));
        assert forall|j: int| 0 <= j < first_nl(s) implies s[j] != NEWLINE by {
            if j >= 1 {
                assert(s.skip(1)[j - 1] == s[j]);
            }
        }
        if first_nl(s) < s.len() {
            assert(s.skip(1)[first_nl(s) - 1] == s[first_nl(s) as int]);
        }
    }
}

/// A position with no newline before it, and a newline (or the end) at it,
/// is exactly `first_nl`.
pub proof fn lemma_first_nl_is(s: Seq<u8>, k: int)
    requires
        0 <= k <= s.len(),
        forall|j: int| 0 <= j < k ==> s[j] != NEWLINE,
        k < s.len() ==> s[k] == NEWLINE,
    ensures
        first_nl(s) == k,
{
    lemma_first_nl(s);
}

/// Everything after the first newline byte, or all of `s` if it has none.
/// A tail read that starts mid-line is aligned with this: the partial first
/// line, and its terminator, are dropped.
pub open spec fn after_first_newline(s: Seq<u8>) -> Seq<u8> {
    if first_nl(s) < s.len() {
        s.skip(first_nl(s) as int + 1)
    } else {
        s
    }
}

/// The lines of `s`.  A line ends at a newline or at a carriage return +
/// newline pair, neither of which belongs to its content.  A final line
/// needs no terminator (and keeps a bare trailing carriage return, since
/// one alone ends no line); a trailing newline does not produce an extra
/// empty line.
pub open spec fn lines_of(s: Seq<u8>) -> Seq<Seq<u8>>
    decreases s.len(),
{
    if s.len() == 0 {
        Seq::empty()
    } else if first_nl(s) >= s.len() {
        seq![s]
    } else {
        seq![strip_cr(s.take(first_nl(s) as int))] + lines_of(s.skip(first_nl(s) as int + 1))
    }
}

/// The lines joined back together with single newline separators.
pub open spec fn join_lines(ls: Seq<Seq<u8>>) -> Seq<u8>
    decreases ls.len(),
{
    if ls.len() == 0 {
        Seq::empty()
    } else if ls.len() == 1 {
        ls[0]
    } else {
        ls[0] + seq![NEWLINE] + join_lines(ls.skip(1))
    }
}

/// Appending one more line extends the joined bytes by a separator and the
/// line (or is just the line, when nothing was joined yet).
pub proof fn lemma_join_push(ls: Seq<Seq<u8>>, l: Seq<u8>)
    ensures
        join_lines(ls.push(l)) == (if ls.len() == 0 {
            l
        } else {
            join_lines(ls) + seq![NEWLINE] + l
        }),
    decreases ls.len(),
{
    let p = ls.push(l);
    if ls.len() == 0 {
        assert(p.len() == 1);
        assert(p[0] == l);
        assert(join_lines(p) == l);
    } else if ls.len() == 1 {
        assert(p.len() == 2);
        assert(p[0] == ls[0]);
        assert(p.skip(1) =~= seq![l]);
        assert(join_lines(seq![l]) == l);
        assert(join_lines(p) == ls[0] + seq![NEWLINE] + l);
        assert(join_lines(ls) == ls[0]);
    } else {
        lemma_join_push(ls.skip(1), l);
        assert(p.skip(1) =~= ls.skip(1).push(l));
        assert(p[0] == ls[0]);
        assert(join_lines(p) == ls[0] + seq![NEWLINE] + join_lines(ls.skip(1).push(l)));
        assert(join_lines(ls.skip(1).push(l)) == join_lines(ls.skip(1)) + seq![NEWLINE] + l);
        assert(join_lines(ls) == ls[0] + seq![NEWLINE] + join_lines(ls.skip(1)));
        assert(ls[0] + seq![NEWLINE] + (join_lines(ls.skip(1)) + seq![NEWLINE] + l)
            =~= join_lines(ls) + seq![NEWLINE] + l);
    }
}

/// The views of a sequence of byte vectors.
pub open spec fn views_of(ls: Seq<Vec<u8>>) -> Seq<Seq<u8>> {
    ls.map_values(|l: Vec<u8>| l@)
}

/// What `String::from_utf8_lossy` yields on bytes that are not valid UTF-8:
/// invalid sequences come back replaced.  The exact replacement layout is
/// not modelled.
pub uninterp spec fn lossy_fallback(bytes: Seq<u8>) -> Seq<char>;

/// The text that lossy decoding yields: valid UTF-8 decodes to exactly its
/// characters; anything else is whatever the replacement policy produces.
pub open spec fn lossy_decode_of(bytes: Seq<u8>) -> Seq<char> {
    if valid_utf8(bytes) {
        decode_utf8(bytes)
    } else {
        lossy_fallback(bytes)
    }
}

/// Relies on `String::from_utf8_lossy`: bytes that are valid UTF-8 decode to
/// exactly their characters, and invalid sequences are replaced rather than
/// making the call fail.
#[verifier::external_body]
pub(crate) fn decode_lossy(bytes: &[u8]) -> (r: String)
    ensures
        r@ == lossy_decode_of(bytes@),
        !valid_utf8(bytes@) ==> r@ == lossy_fallback(bytes@),
{
    String::from_utf8_lossy(bytes).into_owned()
}

/// Split `v` into its newline-delimited lines.
pub fn split_lines(v: &Vec<u8>) -> (r: Vec<Vec<u8>>)
    ensures
        views_of(r@) == lines_of(v@),
{
    let mut out: Vec<Vec<u8>> = Vec::new();
    let mut cur: Vec<u8> = Vec::new();
    let mut start: usize = 0;
    let mut i: usize = 0;
    proof {
        assert(v@.skip(0) =~= v@);
        assert(views_of(Seq::<Vec<u8>>::empty()) + lines_of(v@) =~= lines_of(v@));
    }
    while i < v.len()
        invariant
            start <= i <= v@.len(),
            cur@ == v@.subrange(start as int, i as int),
            forall|j: int| start <= j < i ==> v@[j] != NEWLINE,
            lines_of(v@) == views_of(out@) + lines_of(v@.skip(start as int)),
        decreases v@.len() - i,
    {
        if v[i] == NEWLINE {
            let ghost full_line = v@.subrange(start as int, i as int);
            proof {
                let rest = v@.skip(start as int);
                assert forall|j: int| 0 <= j < i - start implies rest[j] != NEWLINE by {
                    assert(rest[j] == v@[start + j]);
                }
                assert(rest[i - start] == v@[i as int]);
                lemma_first_nl_is(rest, i - start);
                assert(rest.take(i - start) =~= full_line);
                assert(rest.skip(i - start + 1) =~= v@.skip(i + 1));
            }
            if cur.len() > 0 && cur[cur.len() - 1] == CARRIAGE_RETURN {
                cur.pop();
                proof {
                    assert(cur@ =~= strip_cr(full_line));
                }
            }
            proof {
                assert(cur@ == strip_cr(full_line));
                assert(views_of(out@.push(cur)) =~= views_of(out@).push(cur@));
                assert(views_of(out@).push(cur@) + lines_of(v@.skip(i + 1)) =~= views_of(out@)
                    + (seq![cur@] + lines_of(v@.skip(i + 1))));
            }
            out.push(cur);
            cur = Vec::new();
            start = i + 1;
        } else {
            proof {
                assert(v@.subrange(start as int, i + 1) =~= v@.subrange(start as int, i as int).push(
                    v@[i as int],
                ));
            }
            cur.push(v[i]);
        }
        i = i + 1;
    }
    if cur.len() > 0 {
        proof {
            let rest = v@.skip(start as int);
            assert forall|j: int| 0 <= j < rest.len() implies rest[j] != NEWLINE by {
                assert(rest[j] == v@[start + j]);
            }
            lemma_first_nl_is(rest, rest.len() as int);
            assert(rest =~= cur@);
            assert(views_of(out@.push(cur)) =~= views_of(out@).push(cur@));
            assert(views_of(out@) + seq![cur@] =~= views_of(out@).push(cur@));
        }
        out.push(cur);
    } else {
        proof {
            assert(v@.skip(start as int) =~= Seq::<u8>::empty());
            assert(views_of(out@) + Seq::<Seq<u8>>::empty() =~= views_of(out@));
        }
    }
    out
}

/// Drop everything up to and including the first newline byte; bytes with
/// no newline come back unchanged.
pub fn skip_first_line(v: Vec<u8>) -> (r: Vec<u8>)
    ensures
        r@ == after_first_newline(v@),
{
    let mut i: usize = 0;
    while i < v.len()
        invariant
            i <= v@.len(),
            forall|j: int| 0 <= j < i ==> v@[j] != NEWLINE,
        decreases v@.len() - i,
    {
        if v[i] == NEWLINE {
            proof {
                lemma_first_nl_is(v@, i as int);
            }
            let r = slice_to_vec(slice_subrange(v.as_slice(), i + 1, v.len()));
            proof {
                assert(r@ =~= v@.skip(i + 1));
            }
            return r;
        }
        i = i + 1;
    }
    proof {
        lemma_first_nl_is(v@, v@.len() as int);
    }
    v
}

/// Join the lines `lines[start..end]` with newline separators.
pub fn join_range(lines: &Vec<Vec<u8>>, start: usize, end: usize) -> (r: Vec<u8>)
    requires
        start <= end <= lines@.len(),
    ensures
        r@ == join_lines(views_of(lines@).subrange(start as int, end as int)),
{
    let mut out: Vec<u8> = Vec::new();
    let mut k: usize = start;
    proof {
        assert(views_of(lines@).subrange(start as int, start as int) =~= Seq::<Seq<u8>>::empty());
    }
    while k < end
        invariant
            start <= k <= end <= lines@.len(),
            out@ == join_lines(views_of(lines@).subrange(start as int, k as int)),
        decreases end - k,
    {
        proof {
            let vs = views_of(lines@);
            assert(vs.subrange(start as int, k + 1) =~= vs.subrange(start as int, k as int).push(
                vs[k as int],
            ));
            lemma_join_push(vs.subrange(start as int, k as int), vs[k as int]);
        }
        if k > start {
            out.push(NEWLINE);
        }
        let line: &Vec<u8> = &lines[k];
        let mut j: usize = 0;
        let ghost out_before = out@;
        while j < line.len()
            invariant
                j <= line@.len(),
                out@ == out_before + line@.subrange(0, j as int),
            decreases line@.len() - j,
        {
            proof {
                assert(line@.subrange(0, j + 1) =~= line@.subrange(0, j as int).push(
                    line@[j as int],
                ));
            }
            out.push(line[j]);
            j = j + 1;
        }
        proof {
            assert(line@.subrange(0, line@.len() as int) =~= line@);
            assert(views_of(lines@)[k as int] == line@);
        }
        k = k + 1;
    }
    out
}

} // verus!
