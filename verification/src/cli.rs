//! Selection of the run mode from the command surface's raw values: an
//! optional size argument, a merge switch, and the target path. Reading the
//! actual command line happens outside this crate; what arrives here are the
//! plain values, and the decision between the modes is made and verified
//! here.

use vstd::prelude::*;
use vstd::string::StringExecFns;

use crate::config::Config;
use crate::config::Mode;
use crate::config::dec_value;
use crate::config::invalid_size_message;
use crate::config::valid_size_str;
use crate::error::FileSplitError;

verus! {

/// The raw command-line values: at most one of `size` and `merge` is given
/// by the command surface, and `size` selects a split of that many bytes.
pub struct Cli {
    /// The size argument, still unparsed.
    pub size: Option<String>,
    /// Whether the merge switch was given.
    pub merge: bool,
    /// The target path.
    pub file_path: String,
}

impl Cli {
    /// Decides the run mode. A merge switch selects a merge; otherwise a
    /// size argument selects a split of the parsed size, a rejected size
    /// argument is reported as `InvalidSize` with the parser's diagnostic,
    /// and a missing one as `InvalidSize` asking for the size option.
    pub fn parse_args(self) -> (r: Result<Config, FileSplitError>)
        ensures
            self.merge ==> (r matches Ok(c) && c.file_path@ == self.file_path@
                && c.mode is Merge),
            !self.merge ==> match self.size {
                Some(s) => if valid_size_str(s@) {
                    r matches Ok(c) && c.file_path@ == self.file_path@ && (c.mode
                        matches Mode::Split { size: n } && n as nat == dec_value(s@))
                } else {
                    r matches Err(e) && (e matches FileSplitError::InvalidSize(m) && m@
                        == invalid_size_message(s@))
                },
                None => r matches Err(e) && (e matches FileSplitError::InvalidSize(m) && m@
                    == "分割モードでは -s オプションでサイズを指定してください"@),
            },
    {
        let Cli { size, merge, file_path } = self;
        if merge {
            Ok(Config { file_path, mode: Mode::Merge })
        } else {
            match size {
                Some(size_str) => match Config::parse_size(size_str.as_str()) {
                    Ok(n) => Ok(Config { file_path, mode: Mode::Split { size: n } }),
                    Err(e) => Err(e),
                },
                None => Err(
                    FileSplitError::InvalidSize(
                        String::from_str("分割モードでは -s オプションでサイズを指定してください"),
                    ),
                ),
            }
        }
    }
}

} // verus!
