//! The differential ("tail -f"-like) file reader.
//!
//! A caller polls a file with the byte offset it has already consumed.  The
//! reader decides what byte range to read, detects truncation or replacement
//! of the file, and assembles content plus the metadata the caller needs to
//! keep a consistent incremental view.  The filesystem itself is probed and
//! read by the surrounding application in two phases: `plan_read` turns the
//! probed metadata into either a finished result or a byte range to fetch,
//! and `finish_read` assembles the result from whatever bytes came back.

use vstd::prelude::*;

use crate::paths::{filename_of, get_filename};
use crate::text::{after_first_newline, decode_lossy, lossy_decode_of, skip_first_line};

verus! {

/// Upper bound, in bytes, on what an initial read returns: a larger file is
/// read from its tail only.  Differential reads are never capped, since they
/// carry only content that is new since the last poll.
pub const MAX_READ_SIZE: u64 = 2 * 1024 * 1024;

/// File metadata as probed right before a read.
#[derive(Clone, Copy, Debug)]
pub struct FileMeta {
    /// Current size in bytes.
    pub size: u64,
    /// Modification time in milliseconds since the epoch, where available.
    pub mtime: Option<i64>,
}

/// Why a read failed.
#[derive(Clone, Copy, Debug, PartialEq, Eq, Structural)]
pub enum ReadError {
    /// The caller supplied an empty path: a local validation error.
    EmptyPath,
    /// The file could not be found or opened.
    CannotOpen,
    /// The file could not be positioned at the requested offset.
    CannotSeek,
}

/// What one read call hands back: either content with the metadata the
/// caller needs for its bookkeeping, or an error.
#[derive(Debug)]
pub enum FileResult {
    Content {
        /// The bytes read, decoded lossily; empty when nothing is new.
        content: String,
        /// The path that was read, echoed back.
        path: String,
        /// The file's display name.
        name: String,
        /// The file's current size: the offset to poll with next.
        size: u64,
        /// The offset the caller supplied, echoed back.
        prev_offset: u64,
        /// Modification time in milliseconds, where available.
        mtime: Option<i64>,
        /// True when the caller must discard what it accumulated: the file
        /// shrank or was replaced, or only a tail fragment was read.
        truncated: bool,
    },
    Failure {
        error: ReadError,
    },
}

/// The mathematical image of a `FileResult`.
pub enum ReadModel {
    Success {
        content: Seq<char>,
        path: Seq<char>,
        name: Seq<char>,
        size: nat,
        prev_offset: u64,
        mtime: Option<i64>,
        truncated: bool,
    },
    Failure {
        error: ReadError,
    },
}

impl FileResult {
    /// The mathematical content of this result.
    pub open spec fn model(self) -> ReadModel {
        match self {
            FileResult::Content { content, path, name, size, prev_offset, mtime, truncated } => {
                ReadModel::Success {
                    content: content@,
                    path: path@,
                    name: name@,
                    size: size as nat,
                    prev_offset,
                    mtime,
                    truncated,
                }
            },
            FileResult::Failure { error } => ReadModel::Failure { error },
        }
    }
}

impl ReadError {
    /// The human-readable error string reported across the boundary.
    pub fn message(self) -> (r: &'static str)
        ensures
            self is EmptyPath ==> r@ == "No path provided"@,
            self is CannotOpen ==> r@ == "Cannot open file"@,
            self is CannotSeek ==> r@ == "Cannot seek in file"@,
    {
        match self {
            ReadError::EmptyPath => "No path provided",
            ReadError::CannotOpen => "Cannot open file",
            ReadError::CannotSeek => "Cannot seek in file",
        }
    }
}

/// The file shrank below the caller's offset: it was truncated or replaced.
pub open spec fn shrunk_of(offset: u64, size: nat) -> bool {
    offset > 0 && size < offset
}

/// An initial read of a file over the cap reads the tail only.
pub open spec fn tail_read_of(offset: u64, size: nat) -> bool {
    offset == 0 && size > MAX_READ_SIZE
}

/// Where the read starts: byte 0 after a shrink, the caller's offset on a
/// differential read, and on an initial read byte 0 — or `size - cap` when
/// the file is over the cap.
pub open spec fn read_start_of(offset: u64, size: nat) -> nat {
    if shrunk_of(offset, size) {
        0
    } else if offset > 0 {
        offset as nat
    } else if size > MAX_READ_SIZE {
        (size - MAX_READ_SIZE) as nat
    } else {
        0
    }
}

/// A file as it stands on the medium at call time.
pub struct FileModel {
    /// Its full contents.
    pub bytes: Seq<u8>,
    /// Its modification time in milliseconds, where available.
    pub mtime: Option<i64>,
}

/// The whole read protocol as one mathematical function over the file as it
/// stands at call time (`None`: it cannot be opened).  The executable
/// two-phase protocol assembles exactly this result when the fetch returns
/// the planned range.
pub open spec fn read_of(path: Seq<char>, offset: u64, file: Option<FileModel>) -> ReadModel {
    if path.len() == 0 {
        ReadModel::Failure { error: ReadError::EmptyPath }
    } else {
        match file {
            Option::None => ReadModel::Failure { error: ReadError::CannotOpen },
            Option::Some(f) => {
                let size = f.bytes.len();
                if offset > 0 && size == offset {
                    ReadModel::Success {
                        content: Seq::empty(),
                        path,
                        name: filename_of(path),
                        size,
                        prev_offset: offset,
                        mtime: f.mtime,
                        truncated: false,
                    }
                } else {
                    let raw = f.bytes.skip(read_start_of(offset, size) as int);
                    let aligned = if tail_read_of(offset, size) {
                        after_first_newline(raw)
                    } else {
                        raw
                    };
                    ReadModel::Success {
                        content: lossy_decode_of(aligned),
                        path,
                        name: filename_of(path),
                        size,
                        prev_offset: offset,
                        mtime: f.mtime,
                        truncated: shrunk_of(offset, size) || tail_read_of(offset, size),
                    }
                }
            },
        }
    }
}

/// What `plan_read` decides: either the call is already answered, or a byte
/// range remains to be fetched and handed to `finish_read`.
pub enum ReadPlan {
    Finished(FileResult),
    Fetch { start: u64, len: u64, shrunk: bool, tail: bool },
}

/// What the fetch of the planned range observed.
pub enum FetchOutcome {
    /// The bytes that were read; on a short read, whatever was available.
    Bytes(Vec<u8>),
    /// The file could not be opened.
    OpenFailed,
    /// The file could not be positioned at the planned start.
    SeekFailed,
}

/// Decide a read from the caller's offset and the probed metadata (`None`:
/// the probe failed).  Unchanged files are answered at once; otherwise the
/// returned range is exactly what the protocol model reads.
pub fn plan_read(path: &str, offset: u64, meta: Option<&FileMeta>) -> (r: ReadPlan)
    ensures
        (path@.len() == 0 ==> (r matches ReadPlan::Finished(res) && res.model()
            == (ReadModel::Failure { error: ReadError::EmptyPath }))),
        (path@.len() > 0 && meta is None ==> (r matches ReadPlan::Finished(res) && res.model()
            == (ReadModel::Failure { error: ReadError::CannotOpen }))),
        (path@.len() > 0 ==> (meta matches Some(m) ==> ({
            &&& (offset > 0 && m.size == offset ==> (r matches ReadPlan::Finished(res)
                && res.model() == (ReadModel::Success {
                    content: Seq::empty(),
                    path: path@,
                    name: filename_of(path@),
                    size: m.size as nat,
                    prev_offset: offset,
                    mtime: m.mtime,
                    truncated: false,
                })))
            &&& (!(offset > 0 && m.size == offset) ==> (r matches ReadPlan::Fetch {
                start,
                len,
                shrunk,
                tail,
            }
                && start as nat == read_start_of(offset, m.size as nat)
                && start + len == m.size
                && shrunk == shrunk_of(offset, m.size as nat)
                && tail == tail_read_of(offset, m.size as nat)))
        }))),
{
    if path.is_empty() {
        return ReadPlan::Finished(FileResult::Failure { error: ReadError::EmptyPath });
    }
    match meta {
        None => ReadPlan::Finished(FileResult::Failure { error: ReadError::CannotOpen }),
        Some(m) => {
            if offset > 0 && m.size == offset {
                ReadPlan::Finished(
                    FileResult::Content {
                        content: String::new(),
                        path: path.to_owned(),
                        name: get_filename(path),
                        size: m.size,
                        prev_offset: offset,
                        mtime: m.mtime,
                        truncated: false,
                    },
                )
            } else if offset > 0 && m.size < offset {
                ReadPlan::Fetch { start: 0, len: m.size, shrunk: true, tail: false }
            } else if offset > 0 {
                ReadPlan::Fetch { start: offset, len: m.size - offset, shrunk: false, tail: false }
            } else if m.size > MAX_READ_SIZE {
                ReadPlan::Fetch {
                    start: m.size - MAX_READ_SIZE,
                    len: MAX_READ_SIZE,
                    shrunk: false,
                    tail: true,
                }
            } else {
                ReadPlan::Fetch { start: 0, len: m.size, shrunk: false, tail: false }
            }
        },
    }
}

/// Assemble the result of a planned fetch.  A tail read is aligned to the
/// next line boundary; the bytes are decoded lossily; `truncated` reports a
/// shrink or a tail read.
pub fn finish_read(
    path: &str,
    offset: u64,
    meta: &FileMeta,
    shrunk: bool,
    tail: bool,
    outcome: FetchOutcome,
) -> (r: FileResult)
    ensures
        (outcome matches FetchOutcome::Bytes(b) ==> r.model() == (ReadModel::Success {
            content: lossy_decode_of((if tail { after_first_newline(b@) } else { b@ })),
            path: path@,
            name: filename_of(path@),
            size: meta.size as nat,
            prev_offset: offset,
            mtime: meta.mtime,
            truncated: shrunk || tail,
        })),
        (outcome is OpenFailed ==> r.model() == (ReadModel::Failure {
            error: ReadError::CannotOpen,
        })),
        (outcome is SeekFailed ==> r.model() == (ReadModel::Failure {
            error: ReadError::CannotSeek,
        })),
{
    match outcome {
        FetchOutcome::OpenFailed => FileResult::Failure { error: ReadError::CannotOpen },
        FetchOutcome::SeekFailed => FileResult::Failure { error: ReadError::CannotSeek },
        FetchOutcome::Bytes(b) => {
            let aligned = if tail {
                skip_first_line(b)
            } else {
                b
            };
            let content = decode_lossy(aligned.as_slice());
            FileResult::Content {
                content,
                path: path.to_owned(),
                name: get_filename(path),
                size: meta.size,
                prev_offset: offset,
                mtime: meta.mtime,
                truncated: shrunk || tail,
            }
        },
    }
}

/// The two-phase protocol assembles the one-shot model: when the fetch
/// returns exactly the planned range of the file's bytes, the result of
/// `finish_read` is `read_of`.
pub proof fn lemma_protocol_matches_model(path: Seq<char>, offset: u64, f: FileModel)
    requires
        path.len() > 0,
        f.bytes.len() <= u64::MAX,
        !(offset > 0 && f.bytes.len() == offset),
    ensures
        ({
            let size = f.bytes.len();
            let start = read_start_of(offset, size);
            let fetched = f.bytes.subrange(start as int, size as int);
            let aligned = if tail_read_of(offset, size) {
                after_first_newline(fetched)
            } else {
                fetched
            };
            read_of(path, offset, Some(f)) == (ReadModel::Success {
                content: lossy_decode_of(aligned),
                path,
                name: filename_of(path),
                size,
                prev_offset: offset,
                mtime: f.mtime,
                truncated: shrunk_of(offset, size) || tail_read_of(offset, size),
            })
        }),
{
    let size = f.bytes.len();
    let start = read_start_of(offset, size);
    assert(start <= size);
    assert(f.bytes.subrange(start as int, size as int) =~= f.bytes.skip(start as int));
}

/// Re-reading at the size one was just given yields success with empty
/// content and no truncation flag.
pub proof fn lemma_reread_unchanged(path: Seq<char>, f: FileModel)
    requires
        path.len() > 0,
        f.bytes.len() <= u64::MAX,
    ensures
        (read_of(path, 0, Some(f)) matches ReadModel::Success { size, .. } && size
            == f.bytes.len()),
        (read_of(path, f.bytes.len() as u64, Some(f)) == (ReadModel::Success {
            content: Seq::empty(),
            path,
            name: filename_of(path),
            size: f.bytes.len(),
            prev_offset: f.bytes.len() as u64,
            mtime: f.mtime,
            truncated: false,
        })),
{
    if f.bytes.len() == 0 {
        assert(f.bytes.skip(0) =~= f.bytes);
        assert(f.bytes =~= Seq::<u8>::empty());
        assert(lossy_decode_of(f.bytes) =~= Seq::<char>::empty());
    }
}

/// A read at the old size after an append returns exactly the appended
/// bytes, the new size, and no truncation flag.
pub proof fn lemma_read_after_append(
    path: Seq<char>,
    old_bytes: Seq<u8>,
    new_bytes: Seq<u8>,
    mtime: Option<i64>,
)
    requires
        path.len() > 0,
        old_bytes.len() + new_bytes.len() <= u64::MAX,
        old_bytes.len() > 0 || new_bytes.len() <= MAX_READ_SIZE,
    ensures
        (read_of(
            path,
            old_bytes.len() as u64,
            Some(FileModel { bytes: old_bytes + new_bytes, mtime }),
        ) == (ReadModel::Success {
            content: lossy_decode_of(new_bytes),
            path,
            name: filename_of(path),
            size: old_bytes.len() + new_bytes.len(),
            prev_offset: old_bytes.len() as u64,
            mtime,
            truncated: false,
        })),
{
    let all = old_bytes + new_bytes;
    if new_bytes.len() == 0 {
        assert(all =~= old_bytes);
        if old_bytes.len() == 0 {
            assert(all.skip(0) =~= new_bytes);
        } else {
            assert(lossy_decode_of(new_bytes) =~= Seq::<char>::empty());
        }
    } else if old_bytes.len() == 0 {
        assert(all.skip(0) =~= new_bytes);
    } else {
        assert(all.skip(old_bytes.len() as int) =~= new_bytes);
    }
}

/// A file replaced by a strictly smaller one is re-read in full from byte
/// 0 and flagged truncated.
pub proof fn lemma_read_after_shrink(path: Seq<char>, offset: u64, f: FileModel)
    requires
        path.len() > 0,
        f.bytes.len() < offset,
    ensures
        (read_of(path, offset, Some(f)) == (ReadModel::Success {
            content: lossy_decode_of(f.bytes),
            path,
            name: filename_of(path),
            size: f.bytes.len(),
            prev_offset: offset,
            mtime: f.mtime,
            truncated: true,
        })),
{
    assert(f.bytes.skip(0) =~= f.bytes);
}

/// An initial read of a file under the cap returns the whole file and never
/// reports truncation.
pub proof fn lemma_initial_read_under_cap(path: Seq<char>, f: FileModel)
    requires
        path.len() > 0,
        f.bytes.len() <= MAX_READ_SIZE,
    ensures
        (read_of(path, 0, Some(f)) == (ReadModel::Success {
            content: lossy_decode_of(f.bytes),
            path,
            name: filename_of(path),
            size: f.bytes.len(),
            prev_offset: 0,
            mtime: f.mtime,
            truncated: false,
        })),
{
    assert(f.bytes.skip(0) =~= f.bytes);
}

} // verus!
