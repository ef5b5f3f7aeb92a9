//! Decimal and hexadecimal rendering of integers into strings.

use vstd::prelude::*;
use vstd::string::StringExecFns;

verus! {

/// The character of a digit below sixteen, upper-case for the letters.
pub open spec fn hex_char(d: nat) -> char {
    if d == 0 { '0' } else if d == 1 { '1' } else if d == 2 { '2' } else if d == 3 { '3' }
    else if d == 4 { '4' } else if d == 5 { '5' } else if d == 6 { '6' } else if d == 7 { '7' }
    else if d == 8 { '8' } else if d == 9 { '9' } else if d == 10 { 'A' } else if d == 11 { 'B' }
    else if d == 12 { 'C' } else if d == 13 { 'D' } else if d == 14 { 'E' } else { 'F' }
}

/// The decimal notation of `n`, without leading zeros.
pub open spec fn decimal(n: nat) -> Seq<char>
    decreases n,
{
    if n < 10 {
        seq![hex_char(n)]
    } else {
        decimal(n / 10).push(hex_char(n % 10))
    }
}

/// The four upper-case hexadecimal digits of a 16-bit value.
pub open spec fn hex4(v: u16) -> Seq<char> {
    seq![
        hex_char((v / 4096) as nat),
        hex_char(((v / 256) % 16) as nat),
        hex_char(((v / 16) % 16) as nat),
        hex_char((v % 16) as nat),
    ]
}

/// The one-character string of a digit below sixteen.
fn digit_text(d: u16) -> (s: &'static str)
    requires
        d < 16,
    ensures
        s@ == seq![hex_char(d as nat)],
{
    match d {
        0 => { proof { reveal_strlit("0"); } "0" },
        1 => { proof { reveal_strlit("1"); } "1" },
        2 => { proof { reveal_strlit("2"); } "2" },
        3 => { proof { reveal_strlit("3"); } "3" },
        4 => { proof { reveal_strlit("4"); } "4" },
        5 => { proof { reveal_strlit("5"); } "5" },
        6 => { proof { reveal_strlit("6"); } "6" },
        7 => { proof { reveal_strlit("7"); } "7" },
        8 => { proof { reveal_strlit("8"); } "8" },
        9 => { proof { reveal_strlit("9"); } "9" },
        10 => { proof { reveal_strlit("A"); } "A" },
        11 => { proof { reveal_strlit("B"); } "B" },
        12 => { proof { reveal_strlit("C"); } "C" },
        13 => { proof { reveal_strlit("D"); } "D" },
        14 => { proof { reveal_strlit("E"); } "E" },
        _ => { proof { reveal_strlit("F"); } "F" },
    }
}

/// Appends the decimal notation of `n` to `s`.
pub fn push_decimal(s: &mut String, n: usize)
    ensures
        final(s)@ == old(s)@ + decimal(n as nat),
    decreases n,
{
    if n >= 10 {
        push_decimal(s, n / 10);
    }
    let d: usize = n % 10;
    let d16: u16 = d as u16;
    s.append(digit_text(d16));
    proof {
        if n >= 10 {
            assert(decimal(n as nat) == decimal((n / 10) as nat).push(hex_char((n % 10) as nat)));
        }
    }
    assert(s@ =~= old(s)@ + decimal(n as nat));
}

/// Appends the four upper-case hexadecimal digits of `v` to `s`.
pub fn push_hex4(s: &mut String, v: u16)
    ensures
        final(s)@ == old(s)@ + hex4(v),
{
    s.append(digit_text(v / 4096));
    s.append(digit_text((v / 256) % 16));
    s.append(digit_text((v / 16) % 16));
    s.append(digit_text(v % 16));
    assert(s@ =~= old(s)@ + hex4(v));
}

/// The value of a digit character: `'0'..='9'` are 0 to 9, `'A'..='F'` are 10 to
/// 15, and any other character is -1.
pub open spec fn char_digit_value(c: char) -> int {
    let x = c as int;
    if 48 <= x <= 57 {
        x - 48
    } else if 65 <= x <= 70 {
        x - 55
    } else {
        -1
    }
}

/// The number that a string of digits denotes in the given base, most significant first.
pub open spec fn digits_value(s: Seq<char>, base: int) -> int
    decreases s.len(),
{
    if s.len() == 0 {
        0
    } else {
        digits_value(s.drop_last(), base) * base + char_digit_value(s.last())
    }
}

/// Whether every character of `s` is a digit below `base`.
pub open spec fn all_digits_below(s: Seq<char>, base: int) -> bool {
    forall|i: int| 0 <= i < s.len() ==> 0 <= #[trigger] char_digit_value(s[i]) < base
}

/// The digit characters stand for their values.
pub proof fn lemma_hex_char_value(d: nat)
    requires
        d < 16,
    ensures
        char_digit_value(hex_char(d)) == d,
{
}

/// Decimal notation: the digits of `n` are decimal digits, read back as `n`, and
/// start with a non-zero digit unless `n` is zero.
pub proof fn lemma_decimal_reads_back(n: nat)
    ensures
        all_digits_below(decimal(n), 10),
        digits_value(decimal(n), 10) == n,
        decimal(n).len() >= 1,
        n > 0 ==> char_digit_value(decimal(n)[0]) != 0,
    decreases n,
{
    if n < 10 {
        lemma_hex_char_value(n);
        assert(decimal(n).drop_last() =~= Seq::<char>::empty());
        assert(digits_value(Seq::<char>::empty(), 10) == 0);
        assert(digits_value(decimal(n), 10) == 0 * 10 + char_digit_value(decimal(n).last()));
    } else {
        lemma_decimal_reads_back(n / 10);
        lemma_hex_char_value(n % 10);
        let s = decimal(n);
        assert(s.drop_last() =~= decimal(n / 10));
        assert(s.last() == hex_char(n % 10));
        assert(s[0] == decimal(n / 10)[0]);
        assert(digits_value(s, 10) == digits_value(decimal(n / 10), 10) * 10 + (n % 10));
        assert((n / 10) * 10 + n % 10 == n) by (nonlinear_arith);
        assert forall|i: int| 0 <= i < s.len() implies 0 <= #[trigger] char_digit_value(s[i])
            < 10 by {
            if i < s.len() - 1 {
                assert(s[i] == decimal(n / 10)[i]);
            }
        }
    }
}

/// Four-digit hexadecimal notation: upper-case hexadecimal digits, read back as `v`.
pub proof fn lemma_hex4_reads_back(v: u16)
    ensures
        hex4(v).len() == 4,
        all_digits_below(hex4(v), 16),
        digits_value(hex4(v), 16) == v,
{
    let s = hex4(v);
    lemma_hex_char_value((v / 4096) as nat);
    lemma_hex_char_value(((v / 256) % 16) as nat);
    lemma_hex_char_value(((v / 16) % 16) as nat);
    lemma_hex_char_value((v % 16) as nat);
    let s1 = seq![s[0]];
    let s2 = seq![s[0], s[1]];
    let s3 = seq![s[0], s[1], s[2]];
    assert(s1.drop_last() =~= Seq::<char>::empty());
    assert(s2.drop_last() =~= s1);
    assert(s3.drop_last() =~= s2);
    assert(s.drop_last() =~= s3);
    let d0 = (v / 4096) as int;
    let d1 = ((v / 256) % 16) as int;
    let d2 = ((v / 16) % 16) as int;
    let d3 = (v % 16) as int;
    assert(digits_value(Seq::<char>::empty(), 16) == 0);
    assert(digits_value(s1, 16) == d0);
    assert(digits_value(s2, 16) == d0 * 16 + d1);
    assert(digits_value(s3, 16) == (d0 * 16 + d1) * 16 + d2);
    assert(digits_value(s, 16) == ((d0 * 16 + d1) * 16 + d2) * 16 + d3);
    let w = v as int;
    assert((((w / 4096) * 16 + (w / 256) % 16) * 16 + (w / 16) % 16) * 16 + w % 16 == w)
        by (nonlinear_arith)
        requires
            0 <= w < 65536,
    ;
}

/// Different 16-bit values have different four-digit notations.
pub proof fn lemma_hex4_injective(a: u16, b: u16)
    ensures
        hex4(a) == hex4(b) ==> a == b,
{
    lemma_hex4_reads_back(a);
    lemma_hex4_reads_back(b);
}

} // verus!
