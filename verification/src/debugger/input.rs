//! Reading a command line typed at the debugger prompt.
use vstd::prelude::*;

use super::{spec_command, DebugCommandTypes};

verus! {

/// Whether `c` is white space: the characters with the Unicode `White_Space` property.
pub open spec fn is_white_space(c: char) -> bool {
    let v = c as u32;
    ||| 0x09 <= v <= 0x0D
    ||| v == 0x20
    ||| v == 0x85
    ||| v == 0xA0
    ||| v == 0x1680
    ||| 0x2000 <= v <= 0x200A
    ||| v == 0x2028
    ||| v == 0x2029
    ||| v == 0x202F
    ||| v == 0x205F
    ||| v == 0x3000
}

/// The words of `s`: its maximal runs of characters that are not white space, in order.
pub open spec fn spec_words(s: Seq<char>) -> Seq<Seq<char>>
    decreases s.len(),
{
    if s.len() == 0 {
        Seq::empty()
    } else {
        let w = spec_words(s.drop_last());
        let c = s.last();
        if is_white_space(c) {
            w
        } else if s.len() >= 2 && !is_white_space(s[s.len() - 2]) {
            w.update(w.len() - 1, w.last().push(c))
        } else {
            w.push(seq![c])
        }
    }
}

/// A text that ends in a character that is not white space has a word.
proof fn lemma_words_nonempty(s: Seq<char>)
    requires
        s.len() >= 1,
        !is_white_space(s.last()),
    ensures
        spec_words(s).len() >= 1,
    decreases s.len(),
{
    let w = spec_words(s.drop_last());
    if s.len() >= 2 && !is_white_space(s[s.len() - 2]) {
        assert(s.drop_last().last() == s[s.len() - 2]);
        lemma_words_nonempty(s.drop_last());
    }
}

/// The text `s` in lower case, as Rust's `str::to_lowercase` gives it.
pub uninterp spec fn lowercase_of(s: Seq<char>) -> Seq<char>;

/// Calls `str::to_lowercase`. The contract claims only that the result depends on the
/// text alone: it names the result `lowercase_of` of the text, and says nothing of the
/// Unicode case tables that decide it.
#[verifier::external_body]
fn to_lowercase(s: &str) -> (r: String)
    ensures
        r@ == lowercase_of(s@),
{
    s.to_lowercase()
}

/// Whether a character is white space.
fn char_is_white_space(c: char) -> (b: bool)
    ensures
        b == is_white_space(c),
{
    let v = c as u32;
    (0x09 <= v && v <= 0x0D) || v == 0x20 || v == 0x85 || v == 0xA0 || v == 0x1680 || (0x2000 <= v
        && v <= 0x200A) || v == 0x2028 || v == 0x2029 || v == 0x202F || v == 0x205F || v == 0x3000
}

/// The texts of a list of strings.
pub open spec fn texts(v: Seq<String>) -> Seq<Seq<char>> {
    v.map_values(|w: String| w@)
}

/// Split a line into its words (see `spec_words`).
pub fn split_words(line: &str) -> (words: Vec<String>)
    ensures
        texts(words@) == spec_words(line@),
{
    let len = line.unicode_len();
    let mut words: Vec<String> = Vec::new();
    let mut i: usize = 0;
    assert(line@.take(0) =~= Seq::<char>::empty());
    while i < len
        invariant
            len == line@.len(),
            i <= len,
            texts(words@) == spec_words(line@.take(i as int)),
        decreases len - i,
    {
        let c = line.get_char(i);
        let ghost s = line@.take(i + 1);
        assert(s.drop_last() =~= line@.take(i as int));
        assert(s.last() == c);
        if char_is_white_space(c) {
        } else if i >= 1 && !char_is_white_space(line.get_char(i - 1)) {
            assert(s[s.len() - 2] == line@[i - 1]);
            proof {
                lemma_words_nonempty(line@.take(i as int));
            }
            let ghost before = words@;
            let mut w = words.pop().unwrap();
            let piece = line.substring_char(i, i + 1);
            assert(piece@ =~= seq![c]);
            w.append(piece);
            words.push(w);
            assert(words@ == before.update(before.len() - 1, w));
            assert(texts(words@) =~= spec_words(s)) by {
                assert(texts(before) == spec_words(line@.take(i as int)));
                assert forall|k: int| 0 <= k < words@.len() implies #[trigger] texts(words@)[k]
                    == spec_words(s)[k] by {
                    if k < before.len() - 1 {
                        assert(texts(words@)[k] == words@[k]@);
                        assert(texts(before)[k] == before[k]@);
                    } else {
                        assert(texts(before)[k] == before[k]@);
                    }
                }
            }
        } else {
            let ghost before = words@;
            let piece = line.substring_char(i, i + 1);
            assert(piece@ =~= seq![c]);
            let w = String::from_str(piece);
            words.push(w);
            assert(texts(words@) =~= spec_words(s)) by {
                assert(texts(before) == spec_words(line@.take(i as int)));
                assert forall|k: int| 0 <= k < words@.len() implies #[trigger] texts(words@)[k]
                    == spec_words(s)[k] by {
                    if k < before.len() {
                        assert(texts(before)[k] == before[k]@);
                    }
                }
            }
        }
        i = i + 1;
    }
    assert(line@.take(len as int) =~= line@);
    words
}

/// Read a command line: in lower case, its first word names the command and the others
/// are its arguments. `None` for a line with no words.
pub fn parse_command_line(line: &str) -> (r: Option<(DebugCommandTypes, Vec<String>)>)
    ensures
        spec_words(lowercase_of(line@)).len() == 0 <==> r is None,
        r matches Some((cmd, args)) ==> {
            let w = spec_words(lowercase_of(line@));
            &&& cmd == spec_command(w[0])
            &&& texts(args@) == w.drop_first()
        },
{
    let lower = to_lowercase(line);
    let words = split_words(lower.as_str());
    if words.len() == 0 {
        None
    } else {
        let cmd = DebugCommandTypes::from_word(words[0].as_str());
        let mut args: Vec<String> = Vec::new();
        let mut i: usize = 1;
        while i < words.len()
            invariant
                1 <= i <= words@.len(),
                args@.len() == i - 1,
                texts(args@) == texts(words@).subrange(1, i as int),
            decreases words@.len() - i,
        {
            let ghost before = args@;
            let ghost j = i;
            args.push(words[i].clone());
            i = i + 1;
            assert(texts(args@) =~= texts(words@).subrange(1, i as int)) by {
                assert(before.len() == j - 1);
                assert forall|k: int| 0 <= k < args@.len() implies #[trigger] texts(args@)[k]
                    == texts(words@).subrange(1, i as int)[k] by {
                    assert(texts(args@)[k] == args@[k]@);
                    assert(texts(words@)[k + 1] == words@[k + 1]@);
                    if k < before.len() {
                        assert(texts(before)[k] == before[k]@);
                        assert(texts(before)[k] == texts(words@).subrange(1, j as int)[k]);
                    } else {
                        assert(args@[k] == words@[j as int]);
                    }
                }
            }
        }
        assert(texts(words@).subrange(1, words@.len() as int) =~= texts(words@).drop_first());
        Some((cmd, args))
    }
}

} // verus!
