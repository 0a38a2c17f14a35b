//! Decimal rendering of unsigned integers, used to build the disambiguation
//! labels of folded timing windows.

use vstd::prelude::*;
use vstd::string::StringExecFns;

verus! {

/// The character for one decimal digit.
pub open spec fn dec_char(d: int) -> char {
    if d == 0 {
        '0'
    } else if d == 1 {
        '1'
    } else if d == 2 {
        '2'
    } else if d == 3 {
        '3'
    } else if d == 4 {
        '4'
    } else if d == 5 {
        '5'
    } else if d == 6 {
        '6'
    } else if d == 7 {
        '7'
    } else if d == 8 {
        '8'
    } else {
        '9'
    }
}

/// The decimal digit string of `n`, most significant digit first, with no
/// leading zeros (a single `'0'` for zero).
pub open spec fn dec_seq(n: nat) -> Seq<char>
    decreases n,
{
    if n < 10 {
        seq![dec_char(n as int)]
    } else {
        dec_seq(n / 10).push(dec_char((n % 10) as int))
    }
}

/// Appends the character of one decimal digit to `s`.
fn push_digit(s: &mut String, d: u64)
    requires
        d < 10,
    ensures
        final(s)@ == old(s)@ + seq![dec_char(d as int)],
{
    proof {
        reveal_strlit("0");
        reveal_strlit("1");
        reveal_strlit("2");
        reveal_strlit("3");
        reveal_strlit("4");
        reveal_strlit("5");
        reveal_strlit("6");
        reveal_strlit("7");
        reveal_strlit("8");
        reveal_strlit("9");
    }
    let ghost pre = s@;
    match d {
        0 => s.append("0"),
        1 => s.append("1"),
        2 => s.append("2"),
        3 => s.append("3"),
        4 => s.append("4"),
        5 => s.append("5"),
        6 => s.append("6"),
        7 => s.append("7"),
        8 => s.append("8"),
        _ => s.append("9"),
    }
    proof {
        assert(s@ =~= pre + seq![dec_char(d as int)]);
    }
}

/// Appends the decimal digit string of `n` to `s`.
pub(crate) fn append_dec(s: &mut String, n: u64)
    ensures
        final(s)@ == old(s)@ + dec_seq(n as nat),
    decreases n,
{
    let ghost pre = s@;
    if n < 10 {
        push_digit(s, n);
    } else {
        append_dec(s, n / 10);
        push_digit(s, n % 10);
        proof {
            assert(s@ =~= pre + dec_seq(n as nat));
        }
    }
}

} // verus!
