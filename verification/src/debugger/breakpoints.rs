//! The breakpoint command.
use vstd::prelude::*;

use super::parser_data::ParserData;
use super::utils::is_dec_char;
use super::word_is;

verus! {

/// The breakpoints: a table of addresses and tags.
pub type BreakpointData = ParserData;

/// The subcommands of the breakpoint command.
#[derive(Clone, PartialEq, Eq, Structural, Debug, Copy)]
pub enum BreakpointSubCommandTypes {
    Add,
    List,
    Delete,
}

/// The subcommand that a word names: show/list/l/ls list, delete/del/rm delete, anything
/// else adds a breakpoint.
pub open spec fn spec_breakpoint_subcommand(s: Seq<char>) -> BreakpointSubCommandTypes {
    if s == "show"@ || s == "list"@ || s == "l"@ || s == "ls"@ {
        BreakpointSubCommandTypes::List
    } else if s == "delete"@ || s == "del"@ || s == "rm"@ {
        BreakpointSubCommandTypes::Delete
    } else {
        BreakpointSubCommandTypes::Add
    }
}

impl BreakpointSubCommandTypes {
    /// The subcommand that a word names.
    pub fn from_word(value: &str) -> (c: Self)
        ensures
            c == spec_breakpoint_subcommand(value@),
    {
        let w = String::from_str(value);
        if word_is(&w, "show") || word_is(&w, "list") || word_is(&w, "l") || word_is(&w, "ls") {
            BreakpointSubCommandTypes::List
        } else if word_is(&w, "delete") || word_is(&w, "del") || word_is(&w, "rm") {
            BreakpointSubCommandTypes::Delete
        } else {
            BreakpointSubCommandTypes::Add
        }
    }
}

/// Route the breakpoint command: the subcommand that its first argument names, and the
/// index where the subcommand's arguments start (the add subcommand takes all of them,
/// the others those after the first). There must be at least one argument.
pub fn route_break_command(args: &Vec<String>) -> (r: (BreakpointSubCommandTypes, usize))
    requires
        args@.len() >= 1,
    ensures
        r.0 == spec_breakpoint_subcommand(args@[0]@),
        r.1 == if r.0 == BreakpointSubCommandTypes::Add {
            0usize
        } else {
            1usize
        },
{
    let sub = BreakpointSubCommandTypes::from_word(args[0].as_str());
    match sub {
        BreakpointSubCommandTypes::Add => (sub, 0),
        _ => (sub, 1),
    }
}

/// Whether `c` may stand in a tag name: an ASCII letter, a decimal digit or an underscore.
pub open spec fn is_tag_char(c: char) -> bool {
    ||| (97 <= c as u32 <= 122)
    ||| (65 <= c as u32 <= 90)
    ||| is_dec_char(c)
    ||| c == '_'
}

/// Whether `s` is a plain tag name: letters, digits and underscores, not starting with a
/// digit. Numbers, literal addresses (`$..`, `0x..`) and sums (`a + b`, `+N`) are not.
pub open spec fn tag_word(s: Seq<char>) -> bool {
    &&& s.len() >= 1
    &&& !is_dec_char(s[0])
    &&& forall|i: int| 0 <= i < s.len() ==> is_tag_char(#[trigger] s[i])
}

/// Whether a character may stand in a tag name (see `is_tag_char`).
fn char_is_tag(c: char) -> (b: bool)
    ensures
        b == is_tag_char(c),
{
    let v = c as u32;
    (97 <= v && v <= 122) || (65 <= v && v <= 90) || (48 <= v && v <= 57) || v == 95
}

/// Whether a text is a plain tag name (see `tag_word`).
pub fn tag_word_check(text: &str) -> (b: bool)
    ensures
        b == tag_word(text@),
{
    let len = text.unicode_len();
    if len == 0 {
        return false;
    }
    let first = text.get_char(0) as u32;
    if 48 <= first && first <= 57 {
        return false;
    }
    let mut i: usize = 0;
    while i < len
        invariant
            len == text@.len(),
            i <= len,
            forall|j: int| 0 <= j < i ==> is_tag_char(#[trigger] text@[j]),
        decreases len - i,
    {
        if !char_is_tag(text.get_char(i)) {
            return false;
        }
        i = i + 1;
    }
    true
}

/// The breakpoint command lists on show/list/l/ls, deletes on delete/del/rm, and reads
/// every other first word as a breakpoint to add.
pub proof fn lemma_breakpoint_subcommand_words(s: Seq<char>)
    ensures
        spec_breakpoint_subcommand(s) == BreakpointSubCommandTypes::List <==> (s == "show"@ || s
            == "list"@ || s == "l"@ || s == "ls"@),
        spec_breakpoint_subcommand(s) == BreakpointSubCommandTypes::Delete <==> (s == "delete"@
            || s == "del"@ || s == "rm"@),
{
    reveal_strlit("show");
    reveal_strlit("list");
    reveal_strlit("l");
    reveal_strlit("ls");
    reveal_strlit("delete");
    reveal_strlit("del");
    reveal_strlit("rm");
    if s.len() == 2 {
        assert(s == seq![s[0], s[1]]);
    }
    if s.len() == 3 {
        assert(s == seq![s[0], s[1], s[2]]);
    }
}

} // verus!
