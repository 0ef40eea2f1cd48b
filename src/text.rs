//! Rendering of numbers, ordinals and relative-day phrases.

use vstd::prelude::*;

verus! {

/// The character for a decimal digit.
pub open spec fn digit_char(d: nat) -> char {
    if d == 0 { '0' }
    else if d == 1 { '1' }
    else if d == 2 { '2' }
    else if d == 3 { '3' }
    else if d == 4 { '4' }
    else if d == 5 { '5' }
    else if d == 6 { '6' }
    else if d == 7 { '7' }
    else if d == 8 { '8' }
    else { '9' }
}

/// Decimal digits of a natural number, most significant first, without leading zeros.
pub open spec fn decimal(n: nat) -> Seq<char>
    decreases n,
{
    if n < 10 {
        seq![digit_char(n)]
    } else {
        decimal(n / 10).push(digit_char(n % 10))
    }
}

/// Decimal text of an integer, with a leading minus sign when negative.
pub open spec fn int_text(n: int) -> Seq<char> {
    if n < 0 {
        seq!['-'] + decimal((-n) as nat)
    } else {
        decimal(n as nat)
    }
}

/// English ordinal suffix; the remainders are those of truncating division,
/// so a negative number always takes "th".
pub open spec fn ordinal_ending(n: int) -> Seq<char> {
    if n >= 0 && 11 <= n % 100 <= 13 {
        seq!['t', 'h']
    } else if n >= 0 && n % 10 == 1 {
        seq!['s', 't']
    } else if n >= 0 && n % 10 == 2 {
        seq!['n', 'd']
    } else if n >= 0 && n % 10 == 3 {
        seq!['r', 'd']
    } else {
        seq!['t', 'h']
    }
}

/// `n` followed by its ordinal suffix: `1st`, `2nd`, `12th`, `23rd`.
pub open spec fn ordinal_text(n: int) -> Seq<char> {
    int_text(n) + ordinal_ending(n)
}

/// `today`, `tomorrow`, or `in N days`.
pub open spec fn day_phrase(days: int) -> Seq<char> {
    if days == 0 {
        seq!['t', 'o', 'd', 'a', 'y']
    } else if days == 1 {
        seq!['t', 'o', 'm', 'o', 'r', 'r', 'o', 'w']
    } else {
        seq!['i', 'n', ' '] + int_text(days) + seq![' ', 'd', 'a', 'y', 's']
    }
}

fn push_digit(s: &mut String, d: u64)
    requires
        d < 10,
    ensures
        final(s)@ == old(s)@.push(digit_char(d as nat)),
{
    let lit: &str = if d == 0 {
        proof { reveal_strlit("0"); }
        "0"
    } else if d == 1 {
        proof { reveal_strlit("1"); }
        "1"
    } else if d == 2 {
        proof { reveal_strlit("2"); }
        "2"
    } else if d == 3 {
        proof { reveal_strlit("3"); }
        "3"
    } else if d == 4 {
        proof { reveal_strlit("4"); }
        "4"
    } else if d == 5 {
        proof { reveal_strlit("5"); }
        "5"
    } else if d == 6 {
        proof { reveal_strlit("6"); }
        "6"
    } else if d == 7 {
        proof { reveal_strlit("7"); }
        "7"
    } else if d == 8 {
        proof { reveal_strlit("8"); }
        "8"
    } else {
        proof { reveal_strlit("9"); }
        "9"
    };
    assert(lit@ =~= seq![digit_char(d as nat)]);
    s.append(lit);
    assert(final(s)@ =~= old(s)@.push(digit_char(d as nat)));
}

/// Appends the decimal digits of `n`.
pub fn push_decimal(s: &mut String, n: u64)
    ensures
        final(s)@ == old(s)@ + decimal(n as nat),
    decreases n,
{
    if n < 10 {
        push_digit(s, n);
        assert(final(s)@ =~= old(s)@ + decimal(n as nat));
    } else {
        push_decimal(s, n / 10);
        push_digit(s, n % 10);
        assert(final(s)@ =~= old(s)@ + decimal(n as nat));
    }
}

/// Appends the decimal text of `n`, signed.
pub fn push_int(s: &mut String, n: i64)
    ensures
        final(s)@ == old(s)@ + int_text(n as int),
{
    if n < 0 {
        proof { reveal_strlit("-"); }
        s.append("-");
        let mag: u64 = if n == i64::MIN {
            9223372036854775808u64
        } else {
            (-n) as u64
        };
        push_decimal(s, mag);
        assert(final(s)@ =~= old(s)@ + int_text(n as int));
    } else {
        push_decimal(s, n as u64);
    }
}

/// Formats a number with its English ordinal suffix (`21` becomes `21st`,
/// `112` becomes `112th`).
pub fn ordinal_suffix(n: i32) -> (r: String)
    ensures
        r@ == ordinal_text(n as int),
{
    let mut s = String::new();
    push_int(&mut s, n as i64);
    let m: i32 = if n >= 0 { n % 100 } else { 0 };
    let u: i32 = if n >= 0 { n % 10 } else { 0 };
    proof {
        reveal_strlit("th");
        reveal_strlit("st");
        reveal_strlit("nd");
        reveal_strlit("rd");
    }
    if n >= 0 && 11 <= m && m <= 13 {
        s.append("th");
    } else if n >= 0 && u == 1 {
        s.append("st");
    } else if n >= 0 && u == 2 {
        s.append("nd");
    } else if n >= 0 && u == 3 {
        s.append("rd");
    } else {
        s.append("th");
    }
    assert(s@ =~= ordinal_text(n as int));
    s
}

/// Appends `today`, `tomorrow` or `in N days`.
pub fn push_day_phrase(s: &mut String, days: i64)
    ensures
        final(s)@ == old(s)@ + day_phrase(days as int),
{
    if days == 0 {
        proof { reveal_strlit("today"); }
        s.append("today");
    } else if days == 1 {
        proof { reveal_strlit("tomorrow"); }
        s.append("tomorrow");
    } else {
        proof {
            reveal_strlit("in ");
            reveal_strlit(" days");
        }
        s.append("in ");
        push_int(s, days);
        s.append(" days");
    }
    assert(final(s)@ =~= old(s)@ + day_phrase(days as int));
}

} // verus!
