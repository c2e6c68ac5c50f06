//! The naming convention shared by the splitter and the merger: part `i` of a
//! file at `base` lives at `"<base>.<i zero-padded to at least 3 digits>"`.
//! Both sides use the same function, so a split followed by a merge looks for
//! exactly the names that were written.

use vstd::prelude::*;
use vstd::string::StringExecFns;

verus! {

/// The character for a single decimal digit value.
pub open spec fn digit_char(d: nat) -> char {
    if d == 0 {
        '0'
    } else if d == 1 {
        '1'
    } else if d == 2 {
        '2'
    } else if d == 3 {
        '3'
    } else if d == 4 {
        '4'
    } else if d == 5 {
        '5'
    } else if d == 6 {
        '6'
    } else if d == 7 {
        '7'
    } else if d == 8 {
        '8'
    } else {
        '9'
    }
}

/// The decimal digits of `n`, most significant first, without leading zeros.
pub open spec fn decimal_digits(n: nat) -> Seq<char>
    decreases n,
{
    if n < 10 {
        seq![digit_char(n)]
    } else {
        decimal_digits(n / 10).push(digit_char(n % 10))
    }
}

/// The numeric suffix of part `i`: its decimal digits, zero-padded on the
/// left to a minimum width of 3. Indices of 1000 and above simply take more
/// than 3 digits.
pub open spec fn part_suffix(i: nat) -> Seq<char> {
    if i < 10 {
        seq!['0', '0'] + decimal_digits(i)
    } else if i < 100 {
        seq!['0'] + decimal_digits(i)
    } else {
        decimal_digits(i)
    }
}

/// The full part-file path: the base path, a dot, then the padded index.
pub open spec fn part_name_spec(base: Seq<char>, i: nat) -> Seq<char> {
    base + seq!['.'] + part_suffix(i)
}

/// A one-character string slice holding the digit `d`.
fn digit_str(d: usize) -> (r: &'static str)
    requires
        d < 10,
    ensures
        r@ == seq![digit_char(d as nat)],
{
    proof {
        reveal_strlit("0");
        reveal_strlit("1");
        reveal_strlit("2");
        reveal_strlit("3");
        reveal_strlit("4");
        reveal_strlit("5");
        reveal_strlit("6");
        reveal_strlit("7");
        reveal_strlit("8");
        reveal_strlit("9");
    }
    let r: &'static str = if d == 0 {
        "0"
    } else if d == 1 {
        "1"
    } else if d == 2 {
        "2"
    } else if d == 3 {
        "3"
    } else if d == 4 {
        "4"
    } else if d == 5 {
        "5"
    } else if d == 6 {
        "6"
    } else if d == 7 {
        "7"
    } else if d == 8 {
        "8"
    } else {
        "9"
    };
    proof {
        assert(r@ =~= seq![digit_char(d as nat)]);
    }
    r
}

/// Appends the decimal digits of `n` to `out`.
fn push_decimal(n: usize, out: &mut String)
    ensures
        final(out)@ == old(out)@ + decimal_digits(n as nat),
    decreases n,
{
    if n >= 10 {
        push_decimal(n / 10, out);
    }
    let d = digit_str(n % 10);
    out.append(d);
    proof {
        assert(final(out)@ =~= old(out)@ + decimal_digits(n as nat));
    }
}

/// The executable naming convention: `part_name("file.txt", 7)` is
/// `"file.txt.007"`.
pub fn part_name(base: &str, index: usize) -> (r: String)
    ensures
        r@ == part_name_spec(base@, index as nat),
{
    proof {
        reveal_strlit(".");
        reveal_strlit("00");
        reveal_strlit("0");
    }
    let mut r = String::from_str(base);
    r.append(".");
    if index < 10 {
        r.append("00");
    } else if index < 100 {
        r.append("0");
    }
    push_decimal(index, &mut r);
    proof {
        assert("."@ =~= seq!['.']);
        assert("00"@ =~= seq!['0', '0']);
        assert("0"@ =~= seq!['0']);
        assert(r@ =~= part_name_spec(base@, index as nat));
    }
    r
}

/// Naming determinism: the part name is a pure function of the base path and
/// the index (it is defined by the spec function `part_name_spec`, which
/// `part_name` returns exactly), and for every index below 1000 the numeric
/// suffix is exactly 3 digits wide.
pub proof fn lemma_part_suffix_width(i: nat)
    requires
        i < 1000,
    ensures
        part_suffix(i).len() == 3,
{
    if i < 10 {
        assert(decimal_digits(i).len() == 1);
    } else if i < 100 {
        assert(decimal_digits(i) == decimal_digits(i / 10).push(digit_char(i % 10)));
        assert(decimal_digits(i / 10).len() == 1);
    } else {
        assert(decimal_digits(i) == decimal_digits(i / 10).push(digit_char(i % 10)));
        assert(decimal_digits(i / 10) == decimal_digits(i / 10 / 10).push(digit_char(i / 10 % 10)));
        assert(decimal_digits(i / 10 / 10).len() == 1);
    }
}

} // verus!
