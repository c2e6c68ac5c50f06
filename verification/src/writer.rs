//! The split-file writer's state: the base path that every part name is
//! derived from, and the index of the next part to write. The index starts
//! at 1 and moves up by exactly 1 per written part. Writing the bytes to
//! disk happens outside this crate; the name of each part and the advance of
//! the index are decided here.

use vstd::prelude::*;
use vstd::string::StringExecFns;

use crate::naming::part_name;
use crate::naming::part_name_spec;

verus! {

/// Where the next part of a split goes.
pub struct SplitFileWriter {
    /// The path of the file being split; every part name derives from it.
    pub base_path: String,
    /// The 1-based index of the next part file.
    pub current_index: usize,
}

impl SplitFileWriter {
    /// A writer for a fresh split: the first part gets index 1.
    pub fn new(base_path: &str) -> (w: SplitFileWriter)
        ensures
            w.base_path@ == base_path@,
            w.current_index == 1,
    {
        SplitFileWriter { base_path: String::from_str(base_path), current_index: 1 }
    }

    /// The path of the part file at `index`: `"file.txt"` with index 7 gives
    /// `"file.txt.007"`.
    pub fn get_split_file_path(&self, index: usize) -> (r: String)
        ensures
            r@ == part_name_spec(self.base_path@, index as nat),
    {
        part_name(self.base_path.as_str(), index)
    }

    /// Records that the part at `current_index` has been written: the next
    /// part gets the next index, and the base path never changes.
    pub fn advance(&mut self)
        requires
            old(self).current_index < usize::MAX,
        ensures
            final(self).base_path == old(self).base_path,
            final(self).current_index == old(self).current_index + 1,
    {
        self.current_index = self.current_index + 1;
    }
}

} // verus!
