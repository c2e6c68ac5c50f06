//! The splitter: cuts the contents of the split target into parts of at
//! most `chunk_size` bytes. Reading the target happens outside this crate;
//! what arrives here is its contents as one byte value, or nothing when the
//! target does not exist. The parts come back in index order, ready to be
//! written under the names of the shared naming convention.

use vstd::prelude::*;
use vstd::arithmetic::div_mod::lemma_mod_add_multiples_vanish;
use vstd::slice::slice_subrange;
use vstd::slice::slice_to_vec;
use vstd::string::StringExecFns;

use crate::error::FileSplitError;
use crate::parts::chunks_of;
use crate::parts::lemma_chunks_append_full;

verus! {

/// A split of one file into parts of a fixed size.
pub struct Splitter {
    /// The maximum byte length of one part.
    pub chunk_size: usize,
}

impl Splitter {
    /// A splitter that cuts into parts of at most `chunk_size` bytes.
    pub fn new(chunk_size: usize) -> (s: Splitter)
        ensures
            s.chunk_size == chunk_size,
    {
        Splitter { chunk_size }
    }

    /// Splits the target's contents into parts. `contents` is the target's
    /// byte content, or `None` when the target does not exist. A chunk size
    /// of zero is rejected as `InvalidSize` before the target is looked at;
    /// a missing target is `FileNotFound`; otherwise the result is exactly
    /// the chunks of the contents: every part of length `chunk_size` except
    /// possibly the last, their concatenation the contents, and no parts at
    /// all for an empty target.
    pub fn split_file(&self, file_path: &str, contents: Option<&Vec<u8>>) -> (r: Result<
        Vec<Vec<u8>>,
        FileSplitError,
    >)
        ensures
            match r {
                Ok(parts) => self.chunk_size > 0 && (contents matches Some(data)
                    && parts.deep_view() == chunks_of(data@, self.chunk_size as nat)),
                Err(e) => match e {
                    FileSplitError::InvalidSize(m) => self.chunk_size == 0 && m@
                        == "分割サイズには1以上の値を指定してください"@,
                    FileSplitError::FileNotFound(p) => self.chunk_size > 0 && contents is None
                        && p@ == file_path@,
                    _ => false,
                },
            },
    {
        if self.chunk_size == 0 {
            return Err(
                FileSplitError::InvalidSize(
                    String::from_str("分割サイズには1以上の値を指定してください"),
                ),
            );
        }
        let data = match contents {
            Some(data) => data,
            None => {
                return Err(FileSplitError::FileNotFound(String::from_str(file_path)));
            },
        };
        let n = self.chunk_size;
        let len = data.len();
        let mut parts: Vec<Vec<u8>> = Vec::new();
        let mut pos: usize = 0;
        while pos < len
            invariant
                n == self.chunk_size,
                n > 0,
                len == data@.len(),
                pos <= len,
                pos % n == 0 || pos == len,
                parts.deep_view() == chunks_of(data@.take(pos as int), n as nat),
            decreases len - pos,
        {
            let end = if n < len - pos {
                pos + n
            } else {
                len
            };
            let part = slice_to_vec(slice_subrange(data.as_slice(), pos, end));
            parts.push(part);
            proof {
                let taken = data@.take(pos as int);
                let chunk = data@.subrange(pos as int, end as int);
                lemma_chunks_append_full(taken, chunk, n as nat);
                assert(taken + chunk =~= data@.take(end as int));
                assert(chunks_of(chunk, n as nat) == seq![chunk]);
                assert(parts.deep_view() =~~= chunks_of(data@.take(end as int), n as nat));
                lemma_mod_add_multiples_vanish(pos as int, n as int);
            }
            pos = end;
        }
        proof {
            assert(data@.take(len as int) =~= data@);
        }
        Ok(parts)
    }
}

} // verus!
