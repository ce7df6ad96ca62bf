//! Rendering of numbers as text, the way the `{:X}`, `{:x}` and `{}` format
//! specifiers of Rust render unsigned integers.
use vstd::prelude::*;

verus! {

/// The character of hexadecimal digit `d` (0 - 15), in upper or lower case.
pub open spec fn hex_digit_char(d: int, upper: bool) -> char {
    if d < 10 {
        (48 + d) as char
    } else if upper {
        (55 + d) as char
    } else {
        (87 + d) as char
    }
}

/// The character of decimal digit `d` (0 - 9).
pub open spec fn dec_digit_char(d: int) -> char {
    (48 + d) as char
}

/// The hexadecimal digits of `v`, most significant first, without leading zeros
/// ("0" for zero).
pub open spec fn hex_raw(v: nat, upper: bool) -> Seq<char>
    decreases v,
{
    if v < 16 {
        seq![hex_digit_char(v as int, upper)]
    } else {
        hex_raw(v / 16, upper).push(hex_digit_char((v % 16) as int, upper))
    }
}

/// The decimal digits of `v`, most significant first, without leading zeros.
pub open spec fn dec_raw(v: nat) -> Seq<char>
    decreases v,
{
    if v < 10 {
        seq![dec_digit_char(v as int)]
    } else {
        dec_raw(v / 10).push(dec_digit_char((v % 10) as int))
    }
}

/// `s` with zeros put in front until it is `width` characters long.
pub open spec fn zero_pad(s: Seq<char>, width: nat) -> Seq<char> {
    if s.len() >= width {
        s
    } else {
        Seq::new((width - s.len()) as nat, |i: int| '0') + s
    }
}

/// `v` in hexadecimal, padded with zeros to at least `width` digits.
pub open spec fn hex_text(v: nat, width: nat, upper: bool) -> Seq<char> {
    zero_pad(hex_raw(v, upper), width)
}

/// The one-character text of a hexadecimal digit.
fn hex_digit_str(d: usize, upper: bool) -> (s: &'static str)
    requires
        d < 16,
    ensures
        s@ == seq![hex_digit_char(d as int, upper)],
{
    proof {
        reveal_strlit("0");
        reveal_strlit("1");
        reveal_strlit("2");
        reveal_strlit("3");
        reveal_strlit("4");
        reveal_strlit("5");
        reveal_strlit("6");
        reveal_strlit("7");
        reveal_strlit("8");
        reveal_strlit("9");
        reveal_strlit("A");
        reveal_strlit("B");
        reveal_strlit("C");
        reveal_strlit("D");
        reveal_strlit("E");
        reveal_strlit("F");
        reveal_strlit("a");
        reveal_strlit("b");
        reveal_strlit("c");
        reveal_strlit("d");
        reveal_strlit("e");
        reveal_strlit("f");
    }
    if d == 0 {
        "0"
    } else if d == 1 {
        "1"
    } else if d == 2 {
        "2"
    } else if d == 3 {
        "3"
    } else if d == 4 {
        "4"
    } else if d == 5 {
        "5"
    } else if d == 6 {
        "6"
    } else if d == 7 {
        "7"
    } else if d == 8 {
        "8"
    } else if d == 9 {
        "9"
    } else if upper {
        if d == 10 {
            "A"
        } else if d == 11 {
            "B"
        } else if d == 12 {
            "C"
        } else if d == 13 {
            "D"
        } else if d == 14 {
            "E"
        } else {
            "F"
        }
    } else {
        if d == 10 {
            "a"
        } else if d == 11 {
            "b"
        } else if d == 12 {
            "c"
        } else if d == 13 {
            "d"
        } else if d == 14 {
            "e"
        } else {
            "f"
        }
    }
}

/// Append the hexadecimal digits of `v` to `s`.
fn push_hex(s: &mut String, v: usize, upper: bool)
    ensures
        final(s)@ == old(s)@ + hex_raw(v as nat, upper),
    decreases v,
{
    if v < 16 {
        s.append(hex_digit_str(v, upper));
    } else {
        push_hex(s, v / 16, upper);
        s.append(hex_digit_str(v % 16, upper));
    }
}

/// The number of hexadecimal digits of `v`.
fn hex_len(v: usize) -> (n: usize)
    ensures
        n == hex_raw(v as nat, true).len(),
        n == hex_raw(v as nat, false).len(),
        n <= 16,
    decreases v,
{
    proof {
        lemma_hex_raw_len(v as nat);
    }
    if v < 16 {
        1
    } else {
        hex_len(v / 16) + 1
    }
}

/// 16 to the power `k`.
pub open spec fn pow16(k: nat) -> nat
    decreases k,
{
    if k == 0 {
        1
    } else {
        16 * pow16((k - 1) as nat)
    }
}

/// A value below 16^k has at most k hexadecimal digits, in either case.
pub proof fn lemma_hex_raw_len_bound(v: nat, k: nat)
    requires
        k >= 1,
        v < pow16(k),
    ensures
        hex_raw(v, true).len() <= k,
        hex_raw(v, true).len() == hex_raw(v, false).len(),
    decreases v,
{
    if v >= 16 {
        assert(k >= 2) by {
            if k == 0 {
            } else if k == 1 {
                assert(pow16(0) == 1);
            }
        }
        let x = pow16((k - 1) as nat);
        assert(v / 16 < x) by (nonlinear_arith)
            requires
                v < 16 * x,
        ;
        lemma_hex_raw_len_bound(v / 16, (k - 1) as nat);
    }
}

/// Hexadecimal text of a machine word is at most 16 digits long.
proof fn lemma_hex_raw_len(v: nat)
    requires
        v <= usize::MAX,
    ensures
        hex_raw(v, true).len() == hex_raw(v, false).len(),
        hex_raw(v, true).len() <= 16,
{
    reveal_with_fuel(pow16, 17);
    assert(pow16(16) == 0x1_0000_0000_0000_0000);
    lemma_hex_raw_len_bound(v, 16);
}

/// Append `count` zeros to `s`.
fn push_zeros(s: &mut String, count: usize)
    ensures
        final(s)@ == old(s)@ + Seq::new(count as nat, |i: int| '0'),
{
    let mut i: usize = 0;
    while i < count
        invariant
            i <= count,
            s@ == old(s)@ + Seq::new(i as nat, |j: int| '0'),
        decreases count - i,
    {
        proof {
            reveal_strlit("0");
        }
        s.append("0");
        i = i + 1;
        assert(s@ =~= old(s)@ + Seq::new(i as nat, |j: int| '0'));
    }
}

/// `v` in hexadecimal, padded with zeros to at least `width` digits: the digits of the
/// `{:0width$X}` (`upper`) or `{:0width$x}` format.
pub fn hex_string(v: usize, width: usize, upper: bool) -> (s: String)
    ensures
        s@ == hex_text(v as nat, width as nat, upper),
{
    let mut s = String::new();
    let n = hex_len(v);
    if n < width {
        push_zeros(&mut s, width - n);
    }
    push_hex(&mut s, v, upper);
    assert(s@ =~= hex_text(v as nat, width as nat, upper));
    s
}

/// The decimal digits of a byte: the `{}` format.
pub fn dec_string(v: u8) -> (s: String)
    ensures
        s@ == dec_raw(v as nat),
{
    let mut s = String::new();
    push_dec(&mut s, v);
    s
}

/// Append the decimal digits of `v` to `s`.
fn push_dec(s: &mut String, v: u8)
    ensures
        final(s)@ == old(s)@ + dec_raw(v as nat),
    decreases v,
{
    if v < 10 {
        s.append(hex_digit_str(v as usize, true));
    } else {
        push_dec(s, v / 10);
        s.append(hex_digit_str((v % 10) as usize, true));
    }
}

} // verus!
