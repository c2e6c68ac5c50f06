//! The configuration of one run: a target path and a mode (split with a
//! chunk size, or merge), together with the parser that turns a size
//! argument into a byte count. The parser accepts exactly the nonempty
//! strings of decimal digits whose value fits in `usize`; anything else is
//! an [`FileSplitError::InvalidSize`] failure, raised before any file is
//! touched.

use vstd::prelude::*;
use vstd::string::StrSliceExecFns;
use vstd::string::StringExecFns;
use vstd::arithmetic::div_mod::lemma_fundamental_div_mod;
use vstd::arithmetic::mul::lemma_mul_inequality;

use crate::error::FileSplitError;

verus! {

/// The mode of one run.
#[derive(Debug)]
pub enum Mode {
    /// Split the target into parts of at most `size` bytes.
    Split { size: usize },
    /// Merge the target's part files back into the target.
    Merge,
}

/// What one run works on and how.
#[derive(Debug)]
pub struct Config {
    /// The target path: the file to split, or the path the merged output is
    /// written to and the stem the part files are looked up under.
    pub file_path: String,
    /// The selected operation.
    pub mode: Mode,
}

/// Whether `c` is a decimal digit.
pub open spec fn is_dec_digit(c: char) -> bool {
    c == '0' || c == '1' || c == '2' || c == '3' || c == '4' || c == '5' || c == '6' || c == '7'
        || c == '8' || c == '9'
}

/// The numeric value of a decimal digit.
pub open spec fn digit_value(c: char) -> nat {
    if c == '0' {
        0
    } else if c == '1' {
        1
    } else if c == '2' {
        2
    } else if c == '3' {
        3
    } else if c == '4' {
        4
    } else if c == '5' {
        5
    } else if c == '6' {
        6
    } else if c == '7' {
        7
    } else if c == '8' {
        8
    } else {
        9
    }
}

/// The value of a string of decimal digits, most significant first.
pub open spec fn dec_value(s: Seq<char>) -> nat
    decreases s.len(),
{
    if s.len() == 0 {
        0
    } else {
        dec_value(s.drop_last()) * 10 + digit_value(s.last())
    }
}

/// A usable size argument: nonempty, all decimal digits, and a value that
/// fits in `usize`.
pub open spec fn valid_size_str(s: Seq<char>) -> bool {
    &&& s.len() > 0
    &&& forall|i: int| 0 <= i < s.len() ==> is_dec_digit(s[i])
    &&& dec_value(s) <= usize::MAX
}

/// The diagnostic text for a rejected size argument.
pub open spec fn invalid_size_message(s: Seq<char>) -> Seq<char> {
    "'"@ + s + "' は有効な数値ではありません"@
}

/// Reading one more digit never shrinks the value: the value of a prefix is
/// at most the value of the whole string.
proof fn lemma_dec_value_prefix(s: Seq<char>, i: int)
    requires
        0 <= i <= s.len(),
    ensures
        dec_value(s.take(i)) <= dec_value(s),
    decreases s.len() - i,
{
    if i < s.len() {
        assert(s.take(i + 1).drop_last() =~= s.take(i));
        assert(s.take(i + 1).last() == s[i]);
        assert(dec_value(s.take(i)) <= dec_value(s.take(i)) * 10 + digit_value(s[i]))
            by (nonlinear_arith);
        lemma_dec_value_prefix(s, i + 1);
    } else {
        assert(s.take(i) =~= s);
    }
}

/// The digit value of `c`, or `None` when `c` is no decimal digit.
fn digit_of(c: char) -> (r: Option<usize>)
    ensures
        match r {
            Some(d) => is_dec_digit(c) && d < 10 && d as nat == digit_value(c),
            None => !is_dec_digit(c),
        },
{
    if c == '0' {
        Some(0)
    } else if c == '1' {
        Some(1)
    } else if c == '2' {
        Some(2)
    } else if c == '3' {
        Some(3)
    } else if c == '4' {
        Some(4)
    } else if c == '5' {
        Some(5)
    } else if c == '6' {
        Some(6)
    } else if c == '7' {
        Some(7)
    } else if c == '8' {
        Some(8)
    } else if c == '9' {
        Some(9)
    } else {
        None
    }
}

/// The `InvalidSize` failure for a rejected size argument, carrying the
/// argument in its diagnostic.
fn invalid_size_error(size_str: &str) -> (e: FileSplitError)
    ensures
        e matches FileSplitError::InvalidSize(m) && m@ == invalid_size_message(size_str@),
{
    let mut m = String::from_str("'");
    m.append(size_str);
    m.append("' は有効な数値ではありません");
    proof {
        assert(m@ =~= invalid_size_message(size_str@));
    }
    FileSplitError::InvalidSize(m)
}

impl Config {
    /// Parses a size argument into a byte count. Succeeds exactly on the
    /// nonempty decimal-digit strings whose value fits in `usize`, and then
    /// returns that value; everything else is rejected as `InvalidSize`.
    pub fn parse_size(size_str: &str) -> (r: Result<usize, FileSplitError>)
        ensures
            match r {
                Ok(n) => valid_size_str(size_str@) && n as nat == dec_value(size_str@),
                Err(e) => !valid_size_str(size_str@) && (e matches FileSplitError::InvalidSize(m)
                    && m@ == invalid_size_message(size_str@)),
            },
    {
        let len = size_str.unicode_len();
        if len == 0 {
            return Err(invalid_size_error(size_str));
        }
        let mut acc: usize = 0;
        let mut i: usize = 0;
        while i < len
            invariant
                0 <= i <= len,
                len == size_str@.len(),
                forall|j: int| 0 <= j < i ==> is_dec_digit(size_str@[j]),
                acc as nat == dec_value(size_str@.take(i as int)),
            decreases len - i,
        {
            let c = size_str.get_char(i);
            let d = match digit_of(c) {
                Some(d) => d,
                None => {
                    return Err(invalid_size_error(size_str));
                },
            };
            proof {
                assert(size_str@.take(i + 1).drop_last() =~= size_str@.take(i as int));
                assert(size_str@.take(i + 1).last() == size_str@[i as int]);
            }
            let limit = (usize::MAX - d) / 10;
            proof {
                lemma_fundamental_div_mod(usize::MAX - d, 10);
            }
            if acc > limit {
                proof {
                    lemma_mul_inequality(limit + 1, acc as int, 10);
                    assert(acc * 10 + d > usize::MAX);
                    lemma_dec_value_prefix(size_str@, i + 1);
                    assert(dec_value(size_str@) > usize::MAX);
                }
                return Err(invalid_size_error(size_str));
            }
            proof {
                lemma_mul_inequality(acc as int, limit as int, 10);
                assert(acc * 10 + d <= usize::MAX);
            }
            acc = acc * 10 + d;
            i += 1;
        }
        proof {
            assert(size_str@.take(len as int) =~= size_str@);
        }
        Ok(acc)
    }
}

} // verus!
