use vstd::prelude::*;
use vstd::string::StringExecFns;

verus! {

/// The decimal digit character for `d`.
pub open spec fn digit_char(d: int) -> char {
    if d == 0 {
        '0'
    } else if d == 1 {
        '1'
    } else if d == 2 {
        '2'
    } else if d == 3 {
        '3'
    } else if d == 4 {
        '4'
    } else if d == 5 {
        '5'
    } else if d == 6 {
        '6'
    } else if d == 7 {
        '7'
    } else if d == 8 {
        '8'
    } else {
        '9'
    }
}

/// The decimal digit sequence of a non-negative integer, most significant
/// digit first.
pub open spec fn dec_digits(n: int) -> Seq<char>
    decreases n,
{
    if n < 10 {
        seq![digit_char(n)]
    } else {
        dec_digits(n / 10).push(digit_char(n % 10))
    }
}

/// The decimal rendering of an integer, with a leading `-` when negative.
pub open spec fn dec_int(n: int) -> Seq<char> {
    if n < 0 {
        seq!['-'] + dec_digits(-n)
    } else {
        dec_digits(n)
    }
}

fn digit_str(d: u64) -> (r: &'static str)
    requires
        d < 10,
    ensures
        r@ =~= seq![digit_char(d as int)],
{
    proof {
        reveal_strlit("0");
        reveal_strlit("1");
        reveal_strlit("2");
        reveal_strlit("3");
        reveal_strlit("4");
        reveal_strlit("5");
        reveal_strlit("6");
        reveal_strlit("7");
        reveal_strlit("8");
        reveal_strlit("9");
    }
    match d {
        0 => "0",
        1 => "1",
        2 => "2",
        3 => "3",
        4 => "4",
        5 => "5",
        6 => "6",
        7 => "7",
        8 => "8",
        _ => "9",
    }
}

/// Appends the decimal digits of `n` to `s`.
fn append_digits(s: &mut String, n: u64)
    ensures
        final(s)@ == old(s)@ + dec_digits(n as int),
    decreases n,
{
    if n < 10 {
        s.append(digit_str(n));
        assert(s@ =~= old(s)@ + dec_digits(n as int));
    } else {
        append_digits(s, n / 10);
        s.append(digit_str(n % 10));
        assert(s@ =~= old(s)@ + dec_digits(n as int));
    }
}

/// Appends the decimal digits of `n` to `s`.
fn append_digits_wide(s: &mut String, n: u128)
    ensures
        final(s)@ == old(s)@ + dec_digits(n as int),
    decreases n,
{
    if n < 10 {
        s.append(digit_str(n as u64));
        assert(s@ =~= old(s)@ + dec_digits(n as int));
    } else {
        append_digits_wide(s, n / 10);
        s.append(digit_str((n % 10) as u64));
        assert(s@ =~= old(s)@ + dec_digits(n as int));
    }
}

/// Appends the decimal rendering of `n` to `s`.
pub fn append_u128(s: &mut String, n: u128)
    ensures
        final(s)@ == old(s)@ + dec_int(n as int),
{
    append_digits_wide(s, n);
}

/// Appends the decimal rendering of `n` to `s`.
pub fn append_usize(s: &mut String, n: usize)
    ensures
        final(s)@ == old(s)@ + dec_int(n as int),
{
    append_digits(s, n as u64);
}

/// Appends the decimal rendering of `n` to `s`, with a leading `-` when
/// `n` is negative.
pub fn append_i64(s: &mut String, n: i64)
    ensures
        final(s)@ == old(s)@ + dec_int(n as int),
{
    if n >= 0 {
        append_digits(s, n as u64);
    } else {
        proof {
            reveal_strlit("-");
        }
        s.append("-");
        let mag: u64 = ((-(n + 1)) as u64) + 1;
        assert(mag as int == -(n as int));
        append_digits(s, mag);
        assert(s@ =~= old(s)@ + dec_int(n as int));
    }
}

} // verus!
