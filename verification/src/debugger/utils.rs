//! Text and table helpers of the debugger.
use vstd::prelude::*;

use super::InvalidDbgArgError;
use crate::numfmt::{hex_digit_char, hex_raw, hex_string, hex_text, lemma_hex_raw_len_bound, pow16, zero_pad};

verus! {

/// Whether `c` is a hexadecimal digit.
pub open spec fn is_hex_char(c: char) -> bool {
    ||| (48 <= c as u32 <= 57)
    ||| (97 <= c as u32 <= 102)
    ||| (65 <= c as u32 <= 70)
}

/// Whether `c` is a decimal digit.
pub open spec fn is_dec_char(c: char) -> bool {
    48 <= c as u32 <= 57
}

/// Whether every character of `s` is a hexadecimal digit.
pub open spec fn all_hex(s: Seq<char>) -> bool {
    forall|i: int| 0 <= i < s.len() ==> is_hex_char(#[trigger] s[i])
}

/// Whether every character of `s` is a decimal digit.
pub open spec fn all_dec(s: Seq<char>) -> bool {
    forall|i: int| 0 <= i < s.len() ==> is_dec_char(#[trigger] s[i])
}

/// The value of a hexadecimal digit.
pub open spec fn hex_char_value(c: char) -> nat {
    if c as u32 <= 57 {
        (c as u32 - 48) as nat
    } else if c as u32 >= 97 {
        (c as u32 - 87) as nat
    } else {
        (c as u32 - 55) as nat
    }
}

/// The value of a string of hexadecimal digits, most significant first (0 for none).
pub open spec fn hex_value(s: Seq<char>) -> nat
    decreases s.len(),
{
    if s.len() == 0 {
        0
    } else {
        hex_value(s.drop_last()) * 16 + hex_char_value(s.last())
    }
}

/// `s` without the prefix `p`, if it starts with it.
pub open spec fn strip_prefix(s: Seq<char>, p: Seq<char>) -> Seq<char> {
    if s.len() >= p.len() && s.take(p.len() as int) == p {
        s.skip(p.len() as int)
    } else {
        s
    }
}

/// The digits of a hexadecimal text: without a leading "$", then without a leading "0x".
pub open spec fn hex_body(s: Seq<char>) -> Seq<char> {
    strip_prefix(strip_prefix(s, seq!['$']), seq!['0', 'x'])
}

/// Whether converting a text to a number runs without a fault: the 32-bit arithmetic
/// of the conversion takes at most 8 digits.
pub open spec fn hex_ready(s: Seq<char>) -> bool {
    all_hex(hex_body(s)) ==> hex_body(s).len() <= 8
}

/// The number that a hexadecimal text stands for, or the text of the error.
pub open spec fn spec_string_to_hex(s: Seq<char>) -> Result<usize, Seq<char>> {
    if all_hex(hex_body(s)) {
        Ok(hex_value(hex_body(s)) as usize)
    } else {
        Err("Value passed was not a valid hexidecimal number "@ + hex_body(s))
    }
}

/// Eight hexadecimal digits make at most 0xFFFFFFFF.
proof fn lemma_hex_value_bound(s: Seq<char>)
    requires
        all_hex(s),
    ensures
        hex_value(s) < pow16(s.len()),
    decreases s.len(),
{
    if s.len() > 0 {
        lemma_hex_value_bound(s.drop_last());
        assert(is_hex_char(s[s.len() - 1]));
        let a = hex_value(s.drop_last());
        let b = pow16((s.len() - 1) as nat);
        assert(a * 16 + hex_char_value(s.last()) < b * 16) by (nonlinear_arith)
            requires
                a < b,
                hex_char_value(s.last()) < 16,
        ;
    }
}

/// Whether a character is a hexadecimal digit.
fn char_is_hex(c: char) -> (b: bool)
    ensures
        b == is_hex_char(c),
{
    let v = c as u32;
    (48 <= v && v <= 57) || (97 <= v && v <= 102) || (65 <= v && v <= 70)
}

/// Whether a character is a decimal digit.
fn char_is_dec(c: char) -> (b: bool)
    ensures
        b == is_dec_char(c),
{
    let v = c as u32;
    48 <= v && v <= 57
}

/// The value of a hexadecimal digit.
fn char_hex_value(c: char) -> (d: u32)
    requires
        is_hex_char(c),
    ensures
        d == hex_char_value(c),
        d < 16,
{
    let v = c as u32;
    if v <= 57 {
        v - 48
    } else if v >= 97 {
        v - 87
    } else {
        v - 55
    }
}

/// Whether every character of `s` from `start` on is a hexadecimal digit.
fn all_hex_from(s: &str, start: usize) -> (b: bool)
    requires
        start <= s@.len(),
    ensures
        b == all_hex(s@.skip(start as int)),
{
    let len = s.unicode_len();
    let mut i = start;
    while i < len
        invariant
            len == s@.len(),
            start <= i <= len,
            forall|j: int| start <= j < i ==> is_hex_char(#[trigger] s@[j]),
        decreases len - i,
    {
        if !char_is_hex(s.get_char(i)) {
            assert(!is_hex_char(s@.skip(start as int)[i - start]));
            return false;
        }
        i = i + 1;
    }
    assert forall|j: int| 0 <= j < s@.skip(start as int).len() implies is_hex_char(
        #[trigger] s@.skip(start as int)[j],
    ) by {
        assert(s@.skip(start as int)[j] == s@[start + j]);
    }
    true
}

/// Where the digits of a hexadecimal text start: past a leading "$", then past a
/// leading "0x".
fn hex_body_start(text: &str) -> (start: usize)
    ensures
        start <= text@.len(),
        text@.skip(start as int) == hex_body(text@),
{
    let len = text.unicode_len();
    let mut start: usize = 0;
    if len >= 1 && text.get_char(0) == '$' {
        start = 1;
        assert(text@.take(1) =~= seq!['$']);
    } else {
        assert(!(text@.len() >= 1 && text@.take(1) == seq!['$'])) by {
            if text@.len() >= 1 && text@.take(1) == seq!['$'] {
                assert(text@.take(1)[0] == text@[0]);
            }
        }
    }
    let ghost first = strip_prefix(text@, seq!['$']);
    assert(first =~= text@.skip(start as int));
    if len >= start + 2 && text.get_char(start) == '0' && text.get_char(start + 1) == 'x' {
        assert(first.take(2) =~= seq!['0', 'x']);
        start = start + 2;
        assert(first.skip(2) =~= text@.skip(start as int));
    } else {
        assert(!(first.len() >= 2 && first.take(2) == seq!['0', 'x'])) by {
            if first.len() >= 2 && first.take(2) == seq!['0', 'x'] {
                assert(first.take(2)[0] == first[0]);
                assert(first.take(2)[1] == first[1]);
            }
        }
    }
    start
}

/// Convert a hexadecimal text into its value: "$808000" and "0x808000" become
/// 0x808000. Fails for a text that holds anything but a marker and hexadecimal digits.
pub fn string_to_hex(text: &str) -> (r: Result<usize, InvalidDbgArgError>)
    requires
        hex_ready(text@),
    ensures
        match r {
            Ok(v) => spec_string_to_hex(text@) == Ok::<usize, Seq<char>>(v),
            Err(e) => spec_string_to_hex(text@) == Err::<usize, Seq<char>>(e@),
        },
{
    let len = text.unicode_len();
    let start = hex_body_start(text);
    let ghost body = hex_body(text@);
    if all_hex_from(text, start) {
        let mut acc: u32 = 0;
        let mut i = start;
        proof {
            lemma_hex_value_bound(body);
            assert(body.take(0) =~= Seq::<char>::empty());
        }
        while i < len
            invariant
                len == text@.len(),
                start <= i <= len,
                body == text@.skip(start as int),
                all_hex(body),
                body.len() <= 8,
                acc == hex_value(body.take(i - start)),
            decreases len - i,
        {
            let c = text.get_char(i);
            assert(c == body[i - start]);
            let d = char_hex_value(c);
            proof {
                assert(body.take(i - start + 1).drop_last() =~= body.take(i - start));
                lemma_hex_value_bound(body.take(i - start + 1));
                assert(all_hex(body.take(i - start + 1)));
                lemma_pow16_bound((i - start + 1) as nat);
            }
            acc = acc * 16 + d;
            i = i + 1;
        }
        assert(body.take(len - start) =~= body);
        Ok(acc as usize)
    } else {
        let mut msg = String::from_str("Value passed was not a valid hexidecimal number ");
        let rest = text.substring_char(start, len);
        msg.append(rest);
        Err(InvalidDbgArgError::new(msg))
    }
}

/// Whether `s` is a literal address: a "$" or "0x" marker followed by one to eight
/// hexadecimal digits.
pub open spec fn address_literal(s: Seq<char>) -> bool {
    &&& ((s.len() >= 1 && s[0] == '$') || (s.len() >= 2 && s[0] == '0' && s[1] == 'x'))
    &&& 1 <= hex_body(s).len() <= 8
    &&& all_hex(hex_body(s))
}

/// The address that a literal address stands for.
pub open spec fn literal_value(s: Seq<char>) -> usize {
    hex_value(hex_body(s)) as usize
}

/// Whether a text is a literal address (see `address_literal`).
pub fn address_literal_check(text: &str) -> (b: bool)
    ensures
        b == address_literal(text@),
        b ==> hex_ready(text@) && spec_string_to_hex(text@) == Ok::<usize, Seq<char>>(
            literal_value(text@),
        ),
{
    let len = text.unicode_len();
    let marked = (len >= 1 && text.get_char(0) == '$') || (len >= 2 && text.get_char(0) == '0'
        && text.get_char(1) == 'x');
    let start = hex_body_start(text);
    marked && len - start >= 1 && len - start <= 8 && all_hex_from(text, start)
}

/// Whether `string_to_hex` can read the text without a fault (see `hex_ready`).
pub fn hex_text_fits(text: &str) -> (b: bool)
    ensures
        b == hex_ready(text@),
{
    let len = text.unicode_len();
    let start = hex_body_start(text);
    if all_hex_from(text, start) {
        len - start <= 8
    } else {
        true
    }
}

/// Each hexadecimal digit character is a hex digit and has its value.
proof fn lemma_hex_digit_char(d: int, upper: bool)
    requires
        0 <= d < 16,
    ensures
        is_hex_char(hex_digit_char(d, upper)),
        hex_char_value(hex_digit_char(d, upper)) == d,
        hex_digit_char(d, upper) != 'x',
{
    let c = hex_digit_char(d, upper);
    if d < 10 {
        assert(c as u32 == 48 + d);
    } else if upper {
        assert(c as u32 == 55 + d);
    } else {
        assert(c as u32 == 87 + d);
    }
}

/// The digits of a number are hex digits and read back as the number.
proof fn lemma_hex_raw_value(v: nat, upper: bool)
    ensures
        all_hex(hex_raw(v, upper)),
        hex_value(hex_raw(v, upper)) == v,
    decreases v,
{
    if v < 16 {
        lemma_hex_digit_char(v as int, upper);
        assert(hex_raw(v, upper).drop_last() =~= Seq::<char>::empty());
        assert(hex_raw(v, upper).last() == hex_digit_char(v as int, upper));
        assert(hex_value(Seq::<char>::empty()) == 0);
        assert(hex_value(hex_raw(v, upper)) == hex_value(hex_raw(v, upper).drop_last()) * 16
            + hex_char_value(hex_raw(v, upper).last()));
    } else {
        lemma_hex_raw_value(v / 16, upper);
        lemma_hex_digit_char((v % 16) as int, upper);
        let t = hex_raw(v, upper);
        assert(t.drop_last() =~= hex_raw(v / 16, upper));
        assert(t.last() == hex_digit_char((v % 16) as int, upper));
        assert((v / 16) * 16 + v % 16 == v) by (nonlinear_arith);
        assert(hex_value(t) == hex_value(t.drop_last()) * 16 + hex_char_value(t.last()));
        assert forall|i: int| 0 <= i < t.len() implies is_hex_char(#[trigger] t[i]) by {
            if i < t.len() - 1 {
                assert(t[i] == hex_raw(v / 16, upper)[i]);
            }
        }
    }
}

/// Leading zeros change neither the digits being hex digits nor their value.
proof fn lemma_hex_value_zeros(k: nat, t: Seq<char>)
    requires
        all_hex(t),
    ensures
        all_hex(Seq::new(k, |i: int| '0') + t),
        hex_value(Seq::new(k, |i: int| '0') + t) == hex_value(t),
    decreases t.len(), k,
{
    let z = Seq::new(k, |i: int| '0');
    let s = z + t;
    assert forall|i: int| 0 <= i < s.len() implies is_hex_char(#[trigger] s[i]) by {
        if i >= k {
            assert(s[i] == t[i - k]);
        }
    }
    if t.len() > 0 {
        assert(s.drop_last() =~= z + t.drop_last());
        assert(all_hex(t.drop_last())) by {
            assert forall|i: int| 0 <= i < t.drop_last().len() implies is_hex_char(
                #[trigger] t.drop_last()[i],
            ) by {
                assert(t.drop_last()[i] == t[i]);
            }
        }
        lemma_hex_value_zeros(k, t.drop_last());
    } else if k > 0 {
        assert(s =~= z);
        assert(s.drop_last() =~= Seq::new((k - 1) as nat, |i: int| '0') + t);
        lemma_hex_value_zeros((k - 1) as nat, t);
        assert(hex_char_value('0') == 0);
    }
}

/// A number printed with the `{:#08X}` format, "0x" and at least six upper-case digits,
/// reads back as that number, for every number of at most eight hexadecimal digits; so
/// does the same text with a leading "$" in place of "0x".
pub proof fn lemma_string_to_hex_reads_back(v: nat)
    requires
        v < 0x1_0000_0000,
    ensures
        hex_ready("0x"@ + hex_text(v, 6, true)),
        spec_string_to_hex("0x"@ + hex_text(v, 6, true)) == Ok::<usize, Seq<char>>(v as usize),
        hex_ready("$"@ + hex_text(v, 6, true)),
        spec_string_to_hex("$"@ + hex_text(v, 6, true)) == Ok::<usize, Seq<char>>(v as usize),
{
    reveal_strlit("0x");
    reveal_strlit("$");
    let raw = hex_raw(v, true);
    let t = hex_text(v, 6, true);
    lemma_hex_raw_value(v, true);
    reveal_with_fuel(pow16, 9);
    lemma_hex_raw_len_bound(v, 8);
    if raw.len() < 6 {
        lemma_hex_value_zeros((6 - raw.len()) as nat, raw);
    }
    assert(all_hex(t));
    assert(hex_value(t) == v);
    assert(t.len() <= 8);
    assert(t.len() >= 1);
    let a = "0x"@ + t;
    assert(a[0] == '0');
    assert(strip_prefix(a, seq!['$']) == a) by {
        if a.len() >= 1 && a.take(1) == seq!['$'] {
            assert(a.take(1)[0] == a[0]);
        }
    }
    assert(a.take(2) =~= seq!['0', 'x']);
    assert(a.skip(2) =~= t);
    assert(hex_body(a) == t);
    let b = "$"@ + t;
    assert(b.take(1) =~= seq!['$']);
    assert(b.skip(1) =~= t);
    assert(strip_prefix(b, seq!['$']) == t);
    assert(strip_prefix(t, seq!['0', 'x']) == t) by {
        if t.len() >= 2 && t.take(2) == seq!['0', 'x'] {
            assert(t.take(2)[1] == t[1]);
            assert(is_hex_char(t[1]));
        }
    }
    assert(hex_body(b) == t);
}

/// The bare digits that `to_hex_string` gives (`{:#08X}` without its "0x") read back
/// as the number, for every number of at most eight hexadecimal digits; below 0x1000000
/// they are exactly six digits.
pub proof fn lemma_hex_digits_read_back(v: nat)
    requires
        v < 0x1_0000_0000,
    ensures
        hex_ready(hex_text(v, 6, true)),
        spec_string_to_hex(hex_text(v, 6, true)) == Ok::<usize, Seq<char>>(v as usize),
        v < 0x1000000 ==> hex_text(v, 6, true).len() == 6,
{
    let raw = hex_raw(v, true);
    let t = hex_text(v, 6, true);
    lemma_hex_raw_value(v, true);
    reveal_with_fuel(pow16, 9);
    lemma_hex_raw_len_bound(v, 8);
    if v < 0x1000000 {
        lemma_hex_raw_len_bound(v, 6);
    }
    if raw.len() < 6 {
        lemma_hex_value_zeros((6 - raw.len()) as nat, raw);
    }
    assert(all_hex(t));
    assert(hex_value(t) == v);
    assert(t.len() >= 1);
    assert(strip_prefix(t, seq!['$']) == t) by {
        if t.len() >= 1 && t.take(1) == seq!['$'] {
            assert(t.take(1)[0] == t[0]);
            assert(is_hex_char(t[0]));
        }
    }
    assert(strip_prefix(t, seq!['0', 'x']) == t) by {
        if t.len() >= 2 && t.take(2) == seq!['0', 'x'] {
            assert(t.take(2)[1] == t[1]);
            assert(is_hex_char(t[1]));
        }
    }
    assert(hex_body(t) == t);
}

/// 16^k is at most 2^32 for k up to 8.
proof fn lemma_pow16_bound(k: nat)
    requires
        k <= 8,
    ensures
        pow16(k) <= 0x1_0000_0000,
{
    lemma_pow16_monotone(k, 8);
    reveal_with_fuel(pow16, 9);
    assert(pow16(8) == 0x1_0000_0000);
}

/// 16^k grows with k.
proof fn lemma_pow16_monotone(k: nat, j: nat)
    requires
        k <= j,
    ensures
        pow16(k) <= pow16(j),
    decreases j,
{
    if k < j {
        lemma_pow16_monotone(k, (j - 1) as nat);
    }
}

/// Helpful operators for turning texts into values.
pub trait HexOperators {
    /// The characters of the text.
    spec fn text(&self) -> Seq<char>;

    /// Whether the text is made only of hexadecimal digits.
    fn is_hex(&self) -> (b: bool)
        ensures
            b == all_hex(self.text()),
    ;

    /// Whether the text is made only of decimal digits.
    fn is_decimal(&self) -> (b: bool)
        ensures
            b == all_dec(self.text()),
    ;

    /// The value of the text as a hexadecimal number (see `string_to_hex`).
    fn to_hex(&self) -> (r: Result<usize, InvalidDbgArgError>)
        requires
            hex_ready(self.text()),
        ensures
            match r {
                Ok(v) => spec_string_to_hex(self.text()) == Ok::<usize, Seq<char>>(v),
                Err(e) => spec_string_to_hex(self.text()) == Err::<usize, Seq<char>>(e@),
            },
    ;
}

/// Whether every character of `s` is a decimal digit.
fn str_is_decimal(s: &str) -> (b: bool)
    ensures
        b == all_dec(s@),
{
    let len = s.unicode_len();
    let mut i: usize = 0;
    while i < len
        invariant
            len == s@.len(),
            i <= len,
            forall|j: int| 0 <= j < i ==> is_dec_char(#[trigger] s@[j]),
        decreases len - i,
    {
        if !char_is_dec(s.get_char(i)) {
            return false;
        }
        i = i + 1;
    }
    true
}

impl HexOperators for String {
    open spec fn text(&self) -> Seq<char> {
        self@
    }

    fn is_hex(&self) -> (b: bool) {
        let r = all_hex_from(self.as_str(), 0);
        assert(self@.skip(0) =~= self@);
        r
    }

    fn is_decimal(&self) -> (b: bool) {
        str_is_decimal(self.as_str())
    }

    fn to_hex(&self) -> (r: Result<usize, InvalidDbgArgError>) {
        string_to_hex(self.as_str())
    }
}

impl<'a> HexOperators for &'a str {
    open spec fn text(&self) -> Seq<char> {
        (*self)@
    }

    fn is_hex(&self) -> (b: bool) {
        let r = all_hex_from(*self, 0);
        assert((*self)@.skip(0) =~= (*self)@);
        r
    }

    fn is_decimal(&self) -> (b: bool) {
        str_is_decimal(*self)
    }

    fn to_hex(&self) -> (r: Result<usize, InvalidDbgArgError>) {
        string_to_hex(*self)
    }
}

/// Rendering of a value as hexadecimal text.
pub trait HexToString {
    /// The value, as a number.
    spec fn value(&self) -> nat;

    /// The value in upper-case hexadecimal, at least 6 digits, without a prefix.
    fn to_hex_string(&self) -> (s: String)
        ensures
            s@ == hex_text(self.value(), 6, true),
    ;
}

impl HexToString for usize {
    open spec fn value(&self) -> nat {
        *self as nat
    }

    fn to_hex_string(&self) -> (s: String) {
        hex_string(*self, 6, true)
    }
}

/// The map that a list of (tag, address) entries stands for; a later entry wins.
pub open spec fn entries_map(s: Seq<(String, usize)>) -> Map<Seq<char>, usize>
    decreases s.len(),
{
    if s.len() == 0 {
        Map::empty()
    } else {
        entries_map(s.drop_last()).insert(s.last().0@, s.last().1)
    }
}

/// No two entries have the same tag.
pub open spec fn keys_distinct(s: Seq<(String, usize)>) -> bool {
    forall|i: int, j: int| 0 <= i < j < s.len() ==> s[i].0@ != s[j].0@
}

/// A tag is in the map of the entries exactly when an entry has it, and then it maps to
/// that entry's address.
proof fn lemma_entries_map(s: Seq<(String, usize)>, k: Seq<char>)
    requires
        keys_distinct(s),
    ensures
        entries_map(s).contains_key(k) <==> exists|i: int| 0 <= i < s.len() && s[i].0@ == k,
        forall|i: int| 0 <= i < s.len() && s[i].0@ == k ==> entries_map(s)[k] == s[i].1,
    decreases s.len(),
{
    if s.len() > 0 {
        let t = s.drop_last();
        assert(keys_distinct(t));
        lemma_entries_map(t, k);
        if entries_map(t).contains_key(k) {
            let i = choose|i: int| 0 <= i < t.len() && t[i].0@ == k;
            assert(s[i].0@ == k);
        }
        if exists|i: int| 0 <= i < s.len() && s[i].0@ == k {
            let i = choose|i: int| 0 <= i < s.len() && s[i].0@ == k;
            if i < s.len() - 1 {
                assert(t[i].0@ == k);
            }
        }
    }
}

/// Removing an entry removes its tag from the map.
proof fn lemma_entries_map_remove(s: Seq<(String, usize)>, i: int)
    requires
        keys_distinct(s),
        0 <= i < s.len(),
    ensures
        keys_distinct(s.remove(i)),
        entries_map(s.remove(i)) == entries_map(s).remove(s[i].0@),
{
    let r = s.remove(i);
    assert(keys_distinct(r)) by {
        assert forall|a: int, b: int| 0 <= a < b < r.len() implies r[a].0@ != r[b].0@ by {
            let a2 = if a < i { a } else { a + 1 };
            let b2 = if b < i { b } else { b + 1 };
            assert(r[a] == s[a2]);
            assert(r[b] == s[b2]);
        }
    }
    assert forall|k: Seq<char>| #[trigger] entries_map(r).contains_key(k) == entries_map(s).remove(
        s[i].0@,
    ).contains_key(k) && (entries_map(r).contains_key(k) ==> entries_map(r)[k] == entries_map(
        s,
    ).remove(s[i].0@)[k]) by {
        lemma_entries_map(r, k);
        lemma_entries_map(s, k);
        if entries_map(r).contains_key(k) {
            let a = choose|a: int| 0 <= a < r.len() && r[a].0@ == k;
            let a2 = if a < i { a } else { a + 1 };
            assert(r[a] == s[a2]);
        }
        if entries_map(s).contains_key(k) && k != s[i].0@ {
            let a = choose|a: int| 0 <= a < s.len() && s[a].0@ == k;
            let a2 = if a < i { a } else { a - 1 };
            assert(r[a2] == s[a]);
        }
    }
    assert(entries_map(r) =~= entries_map(s).remove(s[i].0@));
}

/// Replacing the address of an entry replaces it in the map.
proof fn lemma_entries_map_update(s: Seq<(String, usize)>, i: int, e: (String, usize))
    requires
        keys_distinct(s),
        0 <= i < s.len(),
        e.0@ == s[i].0@,
    ensures
        keys_distinct(s.update(i, e)),
        entries_map(s.update(i, e)) == entries_map(s).insert(e.0@, e.1),
{
    let r = s.update(i, e);
    assert forall|k: Seq<char>| #[trigger] entries_map(r).contains_key(k) == entries_map(s).insert(
        e.0@,
        e.1,
    ).contains_key(k) && (entries_map(r).contains_key(k) ==> entries_map(r)[k] == entries_map(
        s,
    ).insert(e.0@, e.1)[k]) by {
        lemma_entries_map(r, k);
        lemma_entries_map(s, k);
        if exists|a: int| 0 <= a < s.len() && s[a].0@ == k {
            let a = choose|a: int| 0 <= a < s.len() && s[a].0@ == k;
            assert(r[a].0@ == k);
        }
        if exists|a: int| 0 <= a < r.len() && r[a].0@ == k {
            let a = choose|a: int| 0 <= a < r.len() && r[a].0@ == k;
            assert(s[a].0@ == k);
        }
        assert(r[i].0@ == e.0@);
    }
    assert(entries_map(r) =~= entries_map(s).insert(e.0@, e.1));
}

/// A table of tags: each tag names one address.
pub struct DebugTagTable {
    entries: Vec<(String, usize)>,
}

impl View for DebugTagTable {
    type V = Map<Seq<char>, usize>;

    closed spec fn view(&self) -> Map<Seq<char>, usize> {
        entries_map(self.entries@)
    }
}

/// Look up a key in a table of tags.
pub trait FindKeyInHashMap {
    /// The table, as a map from tags to addresses.
    spec fn table(&self) -> Map<Seq<char>, usize>;

    /// Well-formed.
    spec fn table_wf(&self) -> bool;

    /// A tag that names `value`, if any tag does.
    fn find_key(&self, value: usize) -> (r: Option<&str>)
        requires
            self.table_wf(),
        ensures
            r matches Some(k) ==> self.table().contains_key(k@) && self.table()[k@] == value,
            r is None ==> forall|k: Seq<char>|
                #[trigger] self.table().contains_key(k) ==> self.table()[k] != value,
    ;
}

impl DebugTagTable {
    /// Well-formed: no tag is listed twice.
    pub closed spec fn wf(&self) -> bool {
        keys_distinct(self.entries@)
    }

    /// An empty table.
    pub fn new() -> (t: Self)
        ensures
            t.wf(),
            t@ == Map::<Seq<char>, usize>::empty(),
    {
        DebugTagTable { entries: Vec::new() }
    }

    /// The index of the entry for `key`, if there is one.
    fn index_of(&self, key: &str) -> (r: Option<usize>)
        requires
            self.wf(),
        ensures
            r matches Some(i) ==> i < self.entries@.len() && self.entries@[i as int].0@ == key@,
            r is None ==> forall|i: int| 0 <= i < self.entries@.len() ==> self.entries@[i].0@ != key@,
    {
        let k = String::from_str(key);
        let mut i: usize = 0;
        while i < self.entries.len()
            invariant
                k@ == key@,
                i <= self.entries@.len(),
                forall|j: int| 0 <= j < i ==> self.entries@[j].0@ != key@,
            decreases self.entries@.len() - i,
        {
            if self.entries[i].0 == k {
                return Some(i);
            }
            i = i + 1;
        }
        None
    }

    /// The address of a tag, if it is in the table.
    pub fn get(&self, key: &str) -> (r: Option<&usize>)
        requires
            self.wf(),
        ensures
            r is Some <==> self@.contains_key(key@),
            r matches Some(v) ==> *v == self@[key@],
    {
        proof {
            lemma_entries_map(self.entries@, key@);
        }
        match self.index_of(key) {
            Some(i) => Some(&self.entries[i].1),
            None => None,
        }
    }

    /// Set the address of a tag; returns the address it had, if it was in the table.
    pub fn insert(&mut self, key: String, value: usize) -> (r: Option<usize>)
        requires
            old(self).wf(),
        ensures
            final(self).wf(),
            final(self)@ == old(self)@.insert(key@, value),
            r is Some <==> old(self)@.contains_key(key@),
            r matches Some(v) ==> v == old(self)@[key@],
    {
        proof {
            lemma_entries_map(self.entries@, key@);
        }
        match self.index_of(key.as_str()) {
            Some(i) => {
                let old_value = self.entries[i].1;
                proof {
                    lemma_entries_map_update(self.entries@, i as int, (key, value));
                }
                self.entries.set(i, (key, value));
                Some(old_value)
            },
            None => {
                let ghost s = self.entries@;
                self.entries.push((key, value));
                proof {
                    assert(self.entries@.drop_last() =~= s);
                    assert forall|a: int, b: int| 0 <= a < b < self.entries@.len() implies self.entries@[a].0@
                        != self.entries@[b].0@ by {
                        if b == s.len() {
                            assert(s[a].0@ != key@);
                        } else {
                            assert(s[a] == self.entries@[a] && s[b] == self.entries@[b]);
                        }
                    }
                }
                None
            },
        }
    }

    /// Take a tag out of the table; returns its entry, if it was there.
    pub fn remove_entry(&mut self, key: &str) -> (r: Option<(String, usize)>)
        requires
            old(self).wf(),
        ensures
            final(self).wf(),
            final(self)@ == old(self)@.remove(key@),
            r is Some <==> old(self)@.contains_key(key@),
            r matches Some(e) ==> e.0@ == key@ && e.1 == old(self)@[key@],
    {
        proof {
            lemma_entries_map(self.entries@, key@);
        }
        match self.index_of(key) {
            Some(i) => {
                proof {
                    lemma_entries_map_remove(self.entries@, i as int);
                }
                let e = self.entries.remove(i);
                Some(e)
            },
            None => {
                assert(old(self)@.remove(key@) =~= old(self)@);
                None
            },
        }
    }
}

/// The tag of the first entry, in the order of the entries, whose address is `v`.
pub open spec fn first_key(s: Seq<(String, usize)>, v: usize) -> Option<Seq<char>>
    decreases s.len(),
{
    if s.len() == 0 {
        None
    } else if s[0].1 == v {
        Some(s[0].0@)
    } else {
        first_key(s.drop_first(), v)
    }
}

/// Entries that do not hold `v` can be skipped when looking for its first tag.
proof fn lemma_first_key_skip(s: Seq<(String, usize)>, v: usize, i: int)
    requires
        0 <= i <= s.len(),
        forall|j: int| 0 <= j < i ==> s[j].1 != v,
    ensures
        first_key(s, v) == first_key(s.skip(i), v),
    decreases i,
{
    if i > 0 {
        assert(s.drop_first().skip(i - 1) =~= s.skip(i));
        lemma_first_key_skip(s.drop_first(), v, i - 1);
    } else {
        assert(s.skip(0) =~= s);
    }
}

/// The first tag for `v` is the tag of an entry with address `v`; there is none exactly
/// when no entry has that address.
proof fn lemma_first_key(s: Seq<(String, usize)>, v: usize)
    ensures
        first_key(s, v) matches Some(k) ==> exists|i: int| 0 <= i < s.len() && s[i].0@ == k && s[i].1 == v,
        first_key(s, v) is None ==> forall|i: int| 0 <= i < s.len() ==> s[i].1 != v,
    decreases s.len(),
{
    if s.len() > 0 && s[0].1 != v {
        lemma_first_key(s.drop_first(), v);
        if first_key(s, v) is Some {
            let i = choose|i: int| 0 <= i < s.len() - 1 && s.drop_first()[i].0@ == first_key(s, v)->0
                && s.drop_first()[i].1 == v;
            assert(s[i + 1] == s.drop_first()[i]);
        } else {
            assert forall|i: int| 0 <= i < s.len() implies s[i].1 != v by {
                if i > 0 {
                    assert(s[i] == s.drop_first()[i - 1]);
                }
            }
        }
    }
}

impl DebugTagTable {
    /// The tag that the table gives for an address names that address, and there is
    /// none exactly when no tag names it.
    pub proof fn lemma_key_of(&self, value: usize)
        requires
            self.wf(),
        ensures
            self.key_of(value) matches Some(k) ==> self@.contains_key(k) && self@[k] == value,
            self.key_of(value) is None ==> forall|k: Seq<char>|
                #[trigger] self@.contains_key(k) ==> self@[k] != value,
    {
        lemma_first_key(self.entries@, value);
        if self.key_of(value) is Some {
            let k = self.key_of(value)->0;
            lemma_entries_map(self.entries@, k);
        } else {
            assert forall|k: Seq<char>| #[trigger] self@.contains_key(k) implies self@[k] != value by {
                lemma_entries_map(self.entries@, k);
                let a = choose|a: int| 0 <= a < self.entries@.len() && self.entries@[a].0@ == k;
                assert(self.entries@[a].1 != value);
            }
        }
    }

    /// The tag that the table gives for `value`: that of its first entry, in the order
    /// in which tags were added, with that address.
    pub closed spec fn key_of(&self, value: usize) -> Option<Seq<char>> {
        first_key(self.entries@, value)
    }

    /// The first tag, in the order of the table, that names `value` (see `key_of`).
    pub fn first_key_of(&self, value: usize) -> (r: Option<&str>)
        requires
            self.wf(),
        ensures
            r matches Some(k) ==> self@.contains_key(k@) && self@[k@] == value && self.key_of(value)
                == Some(k@),
            r is None ==> self.key_of(value) is None && forall|k: Seq<char>|
                #[trigger] self@.contains_key(k) ==> self@[k] != value,
    {
        let mut i: usize = 0;
        while i < self.entries.len()
            invariant
                self.wf(),
                i <= self.entries@.len(),
                forall|j: int| 0 <= j < i ==> self.entries@[j].1 != value,
            decreases self.entries@.len() - i,
        {
            if self.entries[i].1 == value {
                proof {
                    lemma_entries_map(self.entries@, self.entries@[i as int].0@);
                    lemma_first_key_skip(self.entries@, value, i as int);
                    assert(self.entries@.skip(i as int)[0] == self.entries@[i as int]);
                }
                return Some(self.entries[i].0.as_str());
            }
            i = i + 1;
        }
        proof {
            assert forall|k: Seq<char>| #[trigger] self@.contains_key(k) implies self@[k] != value by {
                lemma_entries_map(self.entries@, k);
                let a = choose|a: int| 0 <= a < self.entries@.len() && self.entries@[a].0@ == k;
                assert(self.entries@[a].1 != value);
            }
            lemma_first_key_skip(self.entries@, value, i as int);
            assert(self.entries@.skip(i as int).len() == 0);
        }
        None
    }
}

impl FindKeyInHashMap for DebugTagTable {
    open spec fn table(&self) -> Map<Seq<char>, usize> {
        self@
    }

    open spec fn table_wf(&self) -> bool {
        self.wf()
    }

    /// The first tag, in the order of the table, that names `value` (see `key_of`).
    fn find_key(&self, value: usize) -> (r: Option<&str>)
        ensures
            r matches Some(k) ==> self.key_of(value) == Some(k@),
            r is None ==> self.key_of(value) is None,
    {
        self.first_key_of(value)
    }
}

/// `s` without every occurrence of `v`, the other elements kept in order.
pub open spec fn spec_remove_value(s: Seq<usize>, v: usize) -> Seq<usize>
    decreases s.len(),
{
    if s.len() == 0 {
        Seq::empty()
    } else if s.last() == v {
        spec_remove_value(s.drop_last(), v)
    } else {
        spec_remove_value(s.drop_last(), v).push(s.last())
    }
}

/// Removing a value takes out all of its copies and nothing else: an element is left
/// exactly when it is in the list and is not the value, a list without the value is
/// left as it is, and the result is never longer.
pub proof fn lemma_remove_value(s: Seq<usize>, v: usize)
    ensures
        !spec_remove_value(s, v).contains(v),
        forall|x: usize| x != v ==> (spec_remove_value(s, v).contains(x) <==> s.contains(x)),
        !s.contains(v) ==> spec_remove_value(s, v) == s,
        spec_remove_value(s, v).len() <= s.len(),
    decreases s.len(),
{
    if s.len() > 0 {
        let t = s.drop_last();
        lemma_remove_value(t, v);
        let r = spec_remove_value(t, v);
        assert forall|x: usize| #[trigger] s.contains(x) <==> (t.contains(x) || x == s.last()) by {
            if s.contains(x) {
                let i = choose|i: int| 0 <= i < s.len() && s[i] == x;
                if i < s.len() - 1 {
                    assert(t[i] == x);
                }
            }
            if t.contains(x) {
                let i = choose|i: int| 0 <= i < t.len() && t[i] == x;
                assert(s[i] == x);
            }
            if x == s.last() {
                assert(s[s.len() - 1] == x);
            }
        }
        if s.last() != v {
            assert forall|x: usize| #[trigger] r.push(s.last()).contains(x) <==> (r.contains(x) || x
                == s.last()) by {
                if r.push(s.last()).contains(x) {
                    let i = choose|i: int| 0 <= i < r.len() + 1 && r.push(s.last())[i] == x;
                    if i < r.len() {
                        assert(r[i] == x);
                    }
                }
                if r.contains(x) {
                    let i = choose|i: int| 0 <= i < r.len() && r[i] == x;
                    assert(r.push(s.last())[i] == x);
                }
                if x == s.last() {
                    assert(r.push(s.last())[r.len() as int] == x);
                }
            }
            if !s.contains(v) {
                assert(s =~= t.push(s.last()));
            }
        } else {
            assert(s.contains(v));
        }
    }
}

/// Delete a value from a vector.
pub trait RemoveValueFromVector {
    /// The elements.
    spec fn elements(&self) -> Seq<usize>;

    /// Remove every occurrence of `value`, keeping the other elements in order (see
    /// `spec_remove_value`); returns `value` if it was present, `None` otherwise.
    fn remove_value(&mut self, value: usize) -> (r: Option<usize>)
        ensures
            final(self).elements() == spec_remove_value(old(self).elements(), value),
            r is Some <==> old(self).elements().contains(value),
            r matches Some(v) ==> v == value,
    ;
}

impl RemoveValueFromVector for Vec<usize> {
    open spec fn elements(&self) -> Seq<usize> {
        self@
    }

    fn remove_value(&mut self, value: usize) -> (r: Option<usize>) {
        let ghost s0 = self@;
        let mut kept: Vec<usize> = Vec::new();
        let mut found = false;
        let mut index: usize = 0;
        assert(s0.take(0) =~= Seq::<usize>::empty());
        while index < self.len()
            invariant
                self@ == s0,
                index <= s0.len(),
                kept@ == spec_remove_value(s0.take(index as int), value),
                found == s0.take(index as int).contains(value),
            decreases s0.len() - index,
        {
            let ghost t = s0.take(index + 1);
            assert(t.drop_last() =~= s0.take(index as int));
            assert(t.last() == s0[index as int]);
            proof {
                assert(t.contains(value) <==> (s0.take(index as int).contains(value) || t.last() == value)) by {
                    if t.contains(value) {
                        let i = choose|i: int| 0 <= i < t.len() && t[i] == value;
                        if i < t.len() - 1 {
                            assert(s0.take(index as int)[i] == value);
                        }
                    }
                    if s0.take(index as int).contains(value) {
                        let i = choose|i: int| 0 <= i < index && s0.take(index as int)[i] == value;
                        assert(t[i] == value);
                    }
                    if t.last() == value {
                        assert(t[t.len() - 1] == value);
                    }
                }
            }
            if self[index] == value {
                found = true;
            } else {
                kept.push(self[index]);
            }
            index = index + 1;
        }
        assert(s0.take(s0.len() as int) =~= s0);
        *self = kept;
        if found {
            Some(value)
        } else {
            None
        }
    }
}

} // verus!
