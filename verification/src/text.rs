//! Decimal and hexadecimal rendering of integers.
use vstd::prelude::*;

verus! {

/// The character of a digit below sixteen, lower case.
pub open spec fn digit_char(d: nat) -> char {
    if d < 10 {
        (48 + d) as char
    } else {
        (87 + d) as char
    }
}

/// The decimal digits of `n`, most significant first, without leading zeros.
pub open spec fn decimal(n: nat) -> Seq<char>
    decreases n,
{
    if n < 10 {
        seq![digit_char(n)]
    } else {
        decimal(n / 10).push(digit_char(n % 10))
    }
}

/// The two hexadecimal digits of a byte.
pub open spec fn hex_byte(v: u8) -> Seq<char> {
    seq![digit_char((v / 16) as nat), digit_char((v % 16) as nat)]
}

fn digit_str(d: u8) -> (s: &'static str)
    requires
        d < 16,
    ensures
        s@ == seq![digit_char(d as nat)],
{
    proof {
        reveal_strlit("0");
        reveal_strlit("1");
        reveal_strlit("2");
        reveal_strlit("3");
        reveal_strlit("4");
        reveal_strlit("5");
        reveal_strlit("6");
        reveal_strlit("7");
        reveal_strlit("8");
        reveal_strlit("9");
        reveal_strlit("a");
        reveal_strlit("b");
        reveal_strlit("c");
        reveal_strlit("d");
        reveal_strlit("e");
        reveal_strlit("f");
    }
    match d {
        0 => "0",
        1 => "1",
        2 => "2",
        3 => "3",
        4 => "4",
        5 => "5",
        6 => "6",
        7 => "7",
        8 => "8",
        9 => "9",
        10 => "a",
        11 => "b",
        12 => "c",
        13 => "d",
        14 => "e",
        _ => "f",
    }
}

/// Appends `n` in decimal.
pub fn push_decimal(out: &mut String, n: u64)
    ensures
        final(out)@ == old(out)@ + decimal(n as nat),
    decreases n,
{
    if n < 10 {
        out.append(digit_str(n as u8));
    } else {
        push_decimal(out, n / 10);
        out.append(digit_str((n % 10) as u8));
    }
}

/// Appends `v` as two hexadecimal digits.
pub fn push_hex_byte(out: &mut String, v: u8)
    ensures
        final(out)@ == old(out)@ + hex_byte(v),
{
    out.append(digit_str(v / 16));
    out.append(digit_str(v % 16));
}

/// The value of a decimal numeral.
pub open spec fn numeral_value(s: Seq<char>) -> int
    decreases s.len(),
{
    if s.len() == 0 {
        0
    } else {
        numeral_value(s.drop_last()) * 10 + (s.last() as int - '0' as int)
    }
}

/// The decimal form of a number reads back as the number. All its characters are
/// digits, and the first is no zero unless the number is.
pub proof fn lemma_decimal_reads_back(n: nat)
    ensures
        numeral_value(decimal(n)) == n,
        decimal(n).len() > 0,
        forall|i: int| 0 <= i < decimal(n).len() ==> '0' <= #[trigger] decimal(n)[i] <= '9',
        n > 0 ==> decimal(n)[0] != '0',
    decreases n,
{
    reveal_with_fuel(numeral_value, 2);
    if n < 10 {
        assert(decimal(n).drop_last() =~= Seq::<char>::empty());
    } else {
        lemma_decimal_reads_back(n / 10);
        assert(decimal(n).drop_last() =~= decimal(n / 10));
    }
}

/// The two characters of a byte are its upper and lower half, in digits up to `9`
/// and letters from `a` on.
pub proof fn lemma_hex_reads_back(v: u8)
    ensures
        hex_byte(v).len() == 2,
        ({
            let hi = hex_byte(v)[0] as int;
            let lo = hex_byte(v)[1] as int;
            let h = if hi <= '9' as int {
                hi - '0' as int
            } else {
                hi - 'a' as int + 10
            };
            let l = if lo <= '9' as int {
                lo - '0' as int
            } else {
                lo - 'a' as int + 10
            };
            0 <= h < 16 && 0 <= l < 16 && h * 16 + l == v
        }),
{
}

/// Appending a number in decimal leaves what was there, and what is appended reads back
/// as the number; so it is with a byte in hexadecimal.
pub proof fn lemma_appended_numbers_read_back(out: &mut String, n: u64, v: u8)
    ensures
        call_ensures(push_decimal, (out, n), ()) ==> final(out)@.take(old(out)@.len() as int)
            == old(out)@ && numeral_value(final(out)@.skip(old(out)@.len() as int)) == n,
        call_ensures(push_hex_byte, (out, v), ()) ==> final(out)@.take(old(out)@.len() as int)
            == old(out)@ && final(out)@.skip(old(out)@.len() as int) == hex_byte(v),
{
    let s = old(out)@;
    lemma_decimal_reads_back(n as nat);
    assert((s + decimal(n as nat)).take(s.len() as int) =~= s);
    assert((s + decimal(n as nat)).skip(s.len() as int) =~= decimal(n as nat));
    assert((s + hex_byte(v)).take(s.len() as int) =~= s);
    assert((s + hex_byte(v)).skip(s.len() as int) =~= hex_byte(v));
}

} // verus!
