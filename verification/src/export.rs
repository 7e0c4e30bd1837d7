//! Export: turning caller-supplied content into the exact bytes to write
//! out, and the round trip of those bytes back through the tail reader.

use vstd::prelude::*;
use vstd::string::StrSliceExecFns;
use vstd::utf8::{decode_utf8, encode_utf8, encode_utf8_decode_utf8, encode_utf8_valid_utf8,
    valid_utf8};

use crate::paths::filename_of;
use crate::tail::{lemma_initial_read_under_cap, read_of, FileModel, ReadModel, MAX_READ_SIZE};
use crate::text::lossy_decode_of;

verus! {

/// Validate an export request and produce the exact bytes to overwrite the
/// target with: the UTF-8 encoding of `content`.  An empty path is rejected.
pub fn export_file(path: &String, content: &String) -> (r: Option<Vec<u8>>)
    ensures
        (path@.len() == 0 ==> r is None),
        (path@.len() > 0 ==> (r matches Some(b) && b@ == encode_utf8(content@))),
{
    if path.as_str().is_empty() {
        return None;
    }
    Some(content.as_str().as_bytes_vec())
}

/// Round trip: a file overwritten with the encoding of `content` and then
/// read from offset 0 yields `content` unchanged, provided the file is
/// under the read cap.
pub proof fn lemma_export_read_roundtrip(path: Seq<char>, content: Seq<char>, mtime: Option<i64>)
    requires
        path.len() > 0,
        encode_utf8(content).len() <= MAX_READ_SIZE,
    ensures
        (read_of(path, 0, Some(FileModel { bytes: encode_utf8(content), mtime }))
            == (ReadModel::Success {
            content,
            path,
            name: filename_of(path),
            size: encode_utf8(content).len(),
            prev_offset: 0,
            mtime,
            truncated: false,
        })),
{
    let bytes = encode_utf8(content);
    lemma_initial_read_under_cap(path, FileModel { bytes, mtime });
    encode_utf8_valid_utf8(content);
    encode_utf8_decode_utf8(content);
    assert(valid_utf8(bytes));
    assert(lossy_decode_of(bytes) == decode_utf8(bytes));
}

} // verus!
