//! Hexadecimal rendering of words.
use vstd::prelude::*;
use vstd::string::StringExecFns;

use crate::Word;

verus! {

/// The hex digit for `d` in `0..16`, upper case or lower case.
pub open spec fn hex_char(d: int, upper: bool) -> char {
    if d == 0 {
        '0'
    } else if d == 1 {
        '1'
    } else if d == 2 {
        '2'
    } else if d == 3 {
        '3'
    } else if d == 4 {
        '4'
    } else if d == 5 {
        '5'
    } else if d == 6 {
        '6'
    } else if d == 7 {
        '7'
    } else if d == 8 {
        '8'
    } else if d == 9 {
        '9'
    } else if d == 10 {
        if upper { 'A' } else { 'a' }
    } else if d == 11 {
        if upper { 'B' } else { 'b' }
    } else if d == 12 {
        if upper { 'C' } else { 'c' }
    } else if d == 13 {
        if upper { 'D' } else { 'd' }
    } else if d == 14 {
        if upper { 'E' } else { 'e' }
    } else {
        if upper { 'F' } else { 'f' }
    }
}

/// The last `n` hex digits of `v`, most significant first.
pub open spec fn hex_digits(v: nat, n: nat, upper: bool) -> Seq<char>
    decreases n,
{
    if n == 0 {
        Seq::empty()
    } else {
        hex_digits(v / 16, (n - 1) as nat, upper).push(hex_char((v % 16) as int, upper))
    }
}

/// How many hex digits `v` needs: at least one.
pub open spec fn significant_digits(v: nat) -> nat
    decreases v,
{
    if v < 16 {
        1
    } else {
        1 + significant_digits(v / 16)
    }
}

/// `v` in hex with at least `width` digits, padded with zeros, as `{:0width$X}`
/// (or `x`) writes it.
pub open spec fn hex_text(v: Word, width: nat, upper: bool) -> Seq<char> {
    let n = if significant_digits(v as nat) > width {
        significant_digits(v as nat)
    } else {
        width
    };
    hex_digits(v as nat, n, upper)
}

/// The one-character text of the hex digit `d`.
fn hex_digit_str(d: Word, upper: bool) -> (r: &'static str)
    requires
        d < 16,
    ensures
        r@ == seq![hex_char(d as int, upper)],
{
    proof {
        reveal_strlit("0");
        reveal_strlit("1");
        reveal_strlit("2");
        reveal_strlit("3");
        reveal_strlit("4");
        reveal_strlit("5");
        reveal_strlit("6");
        reveal_strlit("7");
        reveal_strlit("8");
        reveal_strlit("9");
        reveal_strlit("A");
        reveal_strlit("B");
        reveal_strlit("C");
        reveal_strlit("D");
        reveal_strlit("E");
        reveal_strlit("F");
        reveal_strlit("a");
        reveal_strlit("b");
        reveal_strlit("c");
        reveal_strlit("d");
        reveal_strlit("e");
        reveal_strlit("f");
    }
    if d == 0 {
        "0"
    } else if d == 1 {
        "1"
    } else if d == 2 {
        "2"
    } else if d == 3 {
        "3"
    } else if d == 4 {
        "4"
    } else if d == 5 {
        "5"
    } else if d == 6 {
        "6"
    } else if d == 7 {
        "7"
    } else if d == 8 {
        "8"
    } else if d == 9 {
        "9"
    } else if d == 10 {
        if upper { "A" } else { "a" }
    } else if d == 11 {
        if upper { "B" } else { "b" }
    } else if d == 12 {
        if upper { "C" } else { "c" }
    } else if d == 13 {
        if upper { "D" } else { "d" }
    } else if d == 14 {
        if upper { "E" } else { "e" }
    } else {
        if upper { "F" } else { "f" }
    }
}

/// Appends the last `n` hex digits of `v`.
fn append_hex_digits(s: &mut String, v: Word, n: usize, upper: bool)
    ensures
        final(s)@ == old(s)@ + hex_digits(v as nat, n as nat, upper),
    decreases n,
{
    if n == 0 {
        assert(final(s)@ =~= old(s)@ + hex_digits(v as nat, n as nat, upper));
        return;
    }
    append_hex_digits(s, v / 16, n - 1, upper);
    s.append(hex_digit_str(v % 16, upper));
    assert(final(s)@ =~= old(s)@ + hex_digits(v as nat, n as nat, upper));
}

/// The number of hex digits `v` needs.
fn count_hex_digits(v: Word) -> (r: usize)
    ensures
        r == significant_digits(v as nat),
        r <= v as nat + 1,
    decreases v,
{
    if v < 16 {
        1
    } else {
        1 + count_hex_digits(v / 16)
    }
}

/// Appends `v` in hex with at least `width` digits.
pub fn append_hex(s: &mut String, v: Word, width: usize, upper: bool)
    ensures
        final(s)@ == old(s)@ + hex_text(v, width as nat, upper),
{
    let needed = count_hex_digits(v);
    let n = if needed > width {
        needed
    } else {
        width
    };
    append_hex_digits(s, v, n, upper);
}

} // verus!
