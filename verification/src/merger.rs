//! The merger: walks the part indices 1, 2, 3, ... and concatenates the
//! contents of the parts that exist, stopping at the first missing one.
//! Looking a part up on disk happens outside this crate; what arrives here
//! is one lookup result per index, in order — `Some` with the part's bytes
//! where the part file exists, `None` where it does not. The first `None`
//! (or the end of the lookups) ends the merge: slots beyond it are never
//! read. A merge that finds not even the first part fails with
//! `NoSplitFiles`.

use vstd::prelude::*;
use vstd::slice::slice_to_vec;
use vstd::string::StringExecFns;

use crate::error::FileSplitError;
use crate::naming::part_name;
use crate::naming::part_name_spec;
use crate::parts::concat_all;
use crate::parts::first_gap;
use crate::parts::found_parts;
use crate::parts::lemma_concat_all_push;
use crate::parts::lemma_first_gap_is;
use crate::parts::merged_bytes;

verus! {

/// A merge of part files back into one file. The merger itself holds no
/// state; each merge owns its own walk over the indices.
pub struct Merger;

impl Merger {
    /// A fresh merger.
    pub fn new() -> Merger {
        Merger
    }

    /// The path of the part file at `index` under `base_path`:
    /// `"file.txt"` with index 1 gives `"file.txt.001"`. The same naming
    /// convention the splitter writes under.
    pub fn get_split_file_path(base_path: &str, index: usize) -> (r: String)
        ensures
            r@ == part_name_spec(base_path@, index as nat),
    {
        part_name(base_path, index)
    }

    /// Merges the parts found at contiguous indices. `parts[i]` is the
    /// lookup result for the part with index `i + 1`. The result is the
    /// concatenation, in index order, of the slots strictly before the
    /// first missing one; whatever lies beyond the first gap has no effect.
    /// When the very first slot is already missing (or there are no slots),
    /// nothing was accumulated and the merge fails with `NoSplitFiles`
    /// naming `base_path`.
    pub fn merge_files(&self, base_path: &str, parts: &Vec<Option<Vec<u8>>>) -> (r: Result<
        Vec<u8>,
        FileSplitError,
    >)
        ensures
            match r {
                Ok(out) => first_gap(parts.deep_view()) > 0 && out@ == merged_bytes(
                    parts.deep_view(),
                ),
                Err(e) => first_gap(parts.deep_view()) == 0 && (e
                    matches FileSplitError::NoSplitFiles(b) && b@ == base_path@),
            },
    {
        let ghost slots = parts.deep_view();
        let len = parts.len();
        let mut out: Vec<u8> = Vec::new();
        let mut i: usize = 0;
        while i < len
            invariant
                i <= len,
                len == parts@.len(),
                slots == parts.deep_view(),
                forall|j: int| 0 <= j < i ==> slots[j] is Some,
                out@ == concat_all(Seq::new(i as nat, |j: int| slots[j]->Some_0)),
            decreases len - i,
        {
            match &parts[i] {
                Some(part) => {
                    proof {
                        assert(slots[i as int] == Some(part.deep_view()));
                        assert(part.deep_view() =~= part@);
                        assert(Seq::new((i + 1) as nat, |j: int| slots[j]->Some_0) =~= Seq::new(
                            i as nat,
                            |j: int| slots[j]->Some_0,
                        ).push(part@));
                        lemma_concat_all_push(
                            Seq::new(i as nat, |j: int| slots[j]->Some_0),
                            part@,
                        );
                    }
                    let mut chunk = slice_to_vec(part.as_slice());
                    out.append(&mut chunk);
                },
                None => {
                    proof {
                        lemma_first_gap_is(slots, i as int);
                    }
                    if i == 0 {
                        return Err(FileSplitError::NoSplitFiles(String::from_str(base_path)));
                    }
                    proof {
                        assert(found_parts(slots) =~= Seq::new(
                            i as nat,
                            |j: int| slots[j]->Some_0,
                        ));
                    }
                    return Ok(out);
                },
            }
            i += 1;
        }
        proof {
            lemma_first_gap_is(slots, len as int);
        }
        if len == 0 {
            return Err(FileSplitError::NoSplitFiles(String::from_str(base_path)));
        }
        proof {
            assert(found_parts(slots) =~= Seq::new(len as nat, |j: int| slots[j]->Some_0));
        }
        Ok(out)
    }
}

} // verus!
