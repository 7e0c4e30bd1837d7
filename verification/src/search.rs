//! The line locator: a whole-file scan for an exact line, returning the
//! match with a window of surrounding lines.  Used to jump to a location
//! that is outside the caller's currently loaded view.

use vstd::prelude::*;
use vstd::string::StrSliceExecFns;
use vstd::utf8::encode_utf8;

use crate::text::{decode_lossy, join_lines, join_range, lines_of, lossy_decode_of, split_lines,
    views_of};

verus! {

/// Outcome of a line search: the matched line with context, or why there is
/// none.
#[derive(Debug)]
pub enum SearchLineResult {
    Found {
        /// The matched line and its context window, joined with newlines.
        content: String,
        /// 1-based number of the matched line.
        line_number: usize,
        /// Number of lines in the whole file.
        total_lines: usize,
    },
    NotFound {
        /// Number of lines in the whole file, still reported on a miss.
        total_lines: usize,
    },
    /// The path or the line to search for was empty.
    InvalidParams,
    /// The file could not be read.
    Unreadable,
}

impl SearchLineResult {
    /// The human-readable error string reported across the boundary, or
    /// nothing for a successful search.
    pub fn error_message(&self) -> (r: Option<&'static str>)
        ensures
            ((*self) matches SearchLineResult::Found { .. } ==> r is None),
            ((*self) matches SearchLineResult::NotFound { .. } ==> (r matches Some(s) && s@
                == "Line not found in file"@)),
            ((*self) is InvalidParams ==> (r matches Some(s) && s@ == "Invalid parameters"@)),
            ((*self) is Unreadable ==> (r matches Some(s) && s@ == "Cannot read file"@)),
    {
        match self {
            SearchLineResult::Found { .. } => None,
            SearchLineResult::NotFound { .. } => Some("Line not found in file"),
            SearchLineResult::InvalidParams => Some("Invalid parameters"),
            SearchLineResult::Unreadable => Some("Cannot read file"),
        }
    }
}

/// First line of the context window around a match at zero-based `i`.
pub open spec fn ctx_start(i: int, ctx: int) -> int {
    if i > ctx {
        i - ctx
    } else {
        0
    }
}

/// One past the last line of the context window around a match at zero-based
/// `i`, in a file of `total` lines.
pub open spec fn ctx_end(i: int, ctx: int, total: int) -> int {
    if i + ctx + 1 <= total {
        i + ctx + 1
    } else {
        total
    }
}

/// Byte-for-byte equality of two vectors.
fn bytes_eq(a: &Vec<u8>, b: &Vec<u8>) -> (r: bool)
    ensures
        r == (a@ == b@),
{
    if a.len() != b.len() {
        return false;
    }
    let mut i: usize = 0;
    while i < a.len()
        invariant
            i <= a@.len(),
            a@.len() == b@.len(),
            forall|j: int| 0 <= j < i ==> a@[j] == b@[j],
        decreases a@.len() - i,
    {
        if a[i] != b[i] {
            return false;
        }
        i = i + 1;
    }
    proof {
        assert(a@ =~= b@);
    }
    true
}

/// A successful search result: `window` holds the first match of `target`
/// in `lines` — at 1-based `line_number`, with nothing equal to `target`
/// before it — joined with up to `ctx` lines of context on each side.
pub open spec fn found_at(
    window: Seq<char>,
    line_number: int,
    total_lines: int,
    lines: Seq<Seq<u8>>,
    target: Seq<u8>,
    ctx: int,
) -> bool {
    let idx = line_number - 1;
    &&& total_lines == lines.len()
    &&& 1 <= line_number <= lines.len()
    &&& lines[idx] == target
    &&& (forall|j: int| 0 <= j < idx ==> lines[j] != target)
    &&& window == lossy_decode_of(
        join_lines(lines.subrange(ctx_start(idx, ctx), ctx_end(idx, ctx, lines.len() as int))),
    )
}

/// What a search over readable content must return: the first match with
/// its context window, or a miss that still reports the line count.
pub open spec fn search_outcome_ok(
    r: SearchLineResult,
    lines: Seq<Seq<u8>>,
    target: Seq<u8>,
    ctx: int,
) -> bool {
    &&& ((forall|i: int| 0 <= i < lines.len() ==> lines[i] != target) ==> (
    r matches SearchLineResult::NotFound { total_lines } && total_lines == lines.len()))
    &&& ((exists|i: int| 0 <= i < lines.len() && lines[i] == target) ==> (
    r matches SearchLineResult::Found { content: window, line_number, total_lines } && found_at(
        window@,
        line_number as int,
        total_lines as int,
        lines,
        target,
        ctx,
    )))
}

/// Scan `content` — the file's raw bytes, or `None` when it could not be
/// read — for the first line whose bytes equal the encoding of
/// `search_line` (exact equality, no trimming; a line holding invalid UTF-8
/// matches nothing), and return it joined with up to `context_lines` lines
/// on each side — decoded lossily, so malformed encoding never fails the
/// call — plus its 1-based line number and the file's total line count.  A
/// miss still reports the total line count.
pub fn search_file_for_line(
    path: &str,
    search_line: &str,
    context_lines: usize,
    content: Option<&Vec<u8>>,
) -> (r: SearchLineResult)
    ensures
        (path@.len() == 0 || search_line@.len() == 0 ==> r is InvalidParams),
        (path@.len() > 0 && search_line@.len() > 0 && content is None ==> r is Unreadable),
        (path@.len() > 0 && search_line@.len() > 0 ==> (content matches Some(c)
            ==> search_outcome_ok(
            r,
            lines_of(c@),
            encode_utf8(search_line@),
            context_lines as int,
        ))),
{
    if path.is_empty() || search_line.is_empty() {
        return SearchLineResult::InvalidParams;
    }
    let bytes = match content {
        None => {
            return SearchLineResult::Unreadable;
        },
        Some(b) => b,
    };
    let lines: Vec<Vec<u8>> = split_lines(bytes);
    let target: Vec<u8> = search_line.as_bytes_vec();
    let total = lines.len();
    let mut i: usize = 0;
    while i < total
        invariant
            path@.len() > 0,
            search_line@.len() > 0,
            content == Some(bytes),
            i <= total,
            total == lines@.len(),
            views_of(lines@) == lines_of(bytes@),
            target@ == encode_utf8(search_line@),
            forall|j: int| 0 <= j < i ==> views_of(lines@)[j] != target@,
        decreases total - i,
    {
        if bytes_eq(&lines[i], &target) {
            let start = if i > context_lines {
                i - context_lines
            } else {
                0
            };
            let end = if context_lines < total - i - 1 {
                i + context_lines + 1
            } else {
                total
            };
            proof {
                assert(views_of(lines@)[i as int] == lines@[i as int]@);
                assert(start as int == ctx_start(i as int, context_lines as int));
                assert(end as int == ctx_end(i as int, context_lines as int, total as int));
            }
            let joined = join_range(&lines, start, end);
            let window = decode_lossy(joined.as_slice());
            proof {
                let slines = lines_of(bytes@);
                assert(slines[i as int] == target@);
                assert(slines.subrange(start as int, end as int) == views_of(lines@).subrange(
                    start as int,
                    end as int,
                ));
                assert(window@ == lossy_decode_of(
                    join_lines(
                        slines.subrange(
                            ctx_start(i as int, context_lines as int),
                            ctx_end(i as int, context_lines as int, slines.len() as int),
                        ),
                    ),
                ));
            }
            let res = SearchLineResult::Found {
                content: window,
                line_number: i + 1,
                total_lines: total,
            };
            proof {
                let slines = lines_of(bytes@);
                let starget = encode_utf8(search_line@);
                assert(found_at(
                    window@,
                    i + 1,
                    total as int,
                    slines,
                    starget,
                    context_lines as int,
                ));
                assert(search_outcome_ok(res, slines, starget, context_lines as int));
            }
            return res;
        }
        i = i + 1;
    }
    let res = SearchLineResult::NotFound { total_lines: total };
    proof {
        assert(search_outcome_ok(
            res,
            lines_of(bytes@),
            encode_utf8(search_line@),
            context_lines as int,
        ));
    }
    res
}

} // verus!
