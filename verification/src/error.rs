//! The closed set of failures that splitting and merging can report. One
//! variant wraps an opaque lower-level I/O failure for diagnostics; the
//! others carry the text they were raised about. Each failure has a
//! human-readable message, produced by [`FileSplitError::message`].

use vstd::prelude::*;
use vstd::string::StringExecFns;

verus! {

/// `std::io::Error` is declared here so that a value of it can be carried
/// through this crate; nothing in this crate reads it.
#[verifier::external_type_specification]
#[verifier::external_body]
pub struct ExIoError(std::io::Error);

/// A failure of a split or a merge.
#[derive(Debug)]
pub enum FileSplitError {
    /// The size argument is not a usable byte count.
    InvalidSize(String),
    /// The split target does not exist.
    FileNotFound(String),
    /// An underlying read, write, create or flush failed.
    IoError(std::io::Error),
    /// A merge found not even the first-indexed part file.
    NoSplitFiles(String),
}

impl From<std::io::Error> for FileSplitError {
    fn from(err: std::io::Error) -> Self {
        FileSplitError::IoError(err)
    }
}

impl vstd::std_specs::convert::FromSpecImpl<std::io::Error> for FileSplitError {
    open spec fn obeys_from_spec() -> bool {
        true
    }

    open spec fn from_spec(err: std::io::Error) -> Self {
        FileSplitError::IoError(err)
    }
}

/// Relies on the `Display` implementation of `std::io::Error` for the
/// diagnostic text of the wrapped lower-level failure.
#[verifier::external_body]
fn io_error_text(e: &std::io::Error) -> String {
    format!("{}", e)
}

impl FileSplitError {
    /// The human-readable diagnostic for this failure. The text wrapped for
    /// an I/O failure is whatever the underlying error reports, so for that
    /// variant only the fixed prefix is specified.
    pub fn message(&self) -> (r: String)
        ensures
            self matches FileSplitError::InvalidSize(m) ==> r@ == "無効なサイズ指定: "@ + m@,
            self matches FileSplitError::FileNotFound(p) ==> r@ == "ファイルが見つかりません: "@
                + p@,
            self matches FileSplitError::NoSplitFiles(b) ==> r@
                == "分割ファイルが見つかりません: "@ + b@ + ".001, "@ + b@ + ".002, ..."@,
            self matches FileSplitError::IoError(_) ==> r@.len() >= "I/Oエラー: "@.len() && r@
                .subrange(0, "I/Oエラー: "@.len() as int) == "I/Oエラー: "@,
    {
        match self {
            FileSplitError::InvalidSize(m) => {
                let mut r = String::from_str("無効なサイズ指定: ");
                r.append(m.as_str());
                r
            },
            FileSplitError::FileNotFound(p) => {
                let mut r = String::from_str("ファイルが見つかりません: ");
                r.append(p.as_str());
                r
            },
            FileSplitError::IoError(e) => {
                let mut r = String::from_str("I/Oエラー: ");
                let t = io_error_text(e);
                r.append(t.as_str());
                proof {
                    assert(r@.subrange(0, "I/Oエラー: "@.len() as int) =~= "I/Oエラー: "@);
                }
                r
            },
            FileSplitError::NoSplitFiles(b) => {
                let mut r = String::from_str("分割ファイルが見つかりません: ");
                r.append(b.as_str());
                r.append(".001, ");
                r.append(b.as_str());
                r.append(".002, ...");
                proof {
                    assert(r@ =~= "分割ファイルが見つかりません: "@ + b@ + ".001, "@ + b@
                        + ".002, ..."@);
                }
                r
            },
        }
    }
}

} // verus!
