//! Values typed at the debugger prompt.
use vstd::prelude::*;

use crate::debugger::input::texts;
use crate::debugger::utils::{hex_ready, hex_text_fits, spec_string_to_hex};
use crate::memory::{word_of, Memory, MEMORY_SIZE};
use crate::numfmt::{hex_string, hex_text};

verus! {

/// Error for a value that could not be read.
#[derive(Debug, Clone)]
pub struct InvalidValueError {
    value: String,
}

impl View for InvalidValueError {
    type V = Seq<char>;

    closed spec fn view(&self) -> Seq<char> {
        self.value@
    }
}

impl InvalidValueError {
    /// An error with the given text.
    pub fn new(value: &str) -> (e: Self)
        ensures
            e@ == value@,
    {
        Self { value: value.to_owned() }
    }
}

/// Convert a hexadecimal text into its value: "$808000" and "0x808000" become
/// 0x808000; anything but a marker and hexadecimal digits is an error.
pub fn string_to_hex(value: &str) -> (r: Result<usize, InvalidValueError>)
    requires
        hex_ready(value@),
    ensures
        match r {
            Ok(v) => spec_string_to_hex(value@) == Ok::<usize, Seq<char>>(v),
            Err(e) => spec_string_to_hex(value@) == Err::<usize, Seq<char>>(e@),
        },
{
    match crate::debugger::utils::string_to_hex(value) {
        Ok(v) => Ok(v),
        Err(e) => Err(InvalidValueError { value: e.message().clone() }),
    }
}

/// The texts of a list, one after the other.
pub open spec fn concat_all(s: Seq<Seq<char>>) -> Seq<char>
    decreases s.len(),
{
    if s.len() == 0 {
        Seq::empty()
    } else {
        concat_all(s.drop_last()) + s.last()
    }
}

/// What the print command shows for an address: the address, then the byte and the
/// word stored there, each "Invalid" where it is out of range.
pub open spec fn print_absolute_text(m: Seq<u8>, address: usize) -> Seq<char> {
    "Fetching value from address 0x"@ + hex_text(address as nat, 6, true) + "\n"@ + (if address
        < MEMORY_SIZE {
        "Byte Value: 0x"@ + hex_text(m[address as int] as nat, 2, true) + " "@
    } else {
        "Byte Value: Invalid "@
    }) + (if address + 1 < MEMORY_SIZE {
        "Word Value: 0x"@ + hex_text(word_of(m[address as int], m[address + 1]) as nat, 2, true)
            + " "@
    } else {
        "Word Value: Invalid"@
    }) + "\n"@
}

/// What the print command shows for its arguments, joined into one token: an offset
/// (a token with "+") is not supported yet; a hexadecimal address shows its byte and
/// word; anything else is reported as invalid.
pub open spec fn print_text(m: Seq<u8>, token: Seq<char>) -> Seq<char> {
    if token.contains('+') {
        "Unimplemented\n"@
    } else {
        match spec_string_to_hex(token) {
            Ok(address) => print_absolute_text(m, address),
            Err(_) => "Error: "@ + token + " was an invalid address value.\n"@,
        }
    }
}

/// Whether the print command runs without a fault on a token: a hexadecimal address
/// has at most eight digits.
pub open spec fn print_ready(token: Seq<char>) -> bool {
    !token.contains('+') ==> hex_ready(token)
}

/// Join the arguments into one text.
fn concat_args(args: &Vec<String>) -> (s: String)
    ensures
        s@ == concat_all(texts(args@)),
{
    let mut s = String::new();
    let mut i: usize = 0;
    assert(texts(args@).take(0) =~= Seq::<Seq<char>>::empty());
    while i < args.len()
        invariant
            i <= args@.len(),
            s@ == concat_all(texts(args@).take(i as int)),
        decreases args@.len() - i,
    {
        s.append(args[i].as_str());
        assert(texts(args@).take(i + 1).drop_last() =~= texts(args@).take(i as int));
        assert(texts(args@)[i as int] == args@[i as int]@);
        i = i + 1;
    }
    assert(texts(args@).take(args@.len() as int) =~= texts(args@));
    s
}

/// Whether `c` occurs in `s`.
fn has_char(s: &str, c: char) -> (b: bool)
    ensures
        b == s@.contains(c),
{
    let len = s.unicode_len();
    let mut i: usize = 0;
    while i < len
        invariant
            len == s@.len(),
            i <= len,
            forall|j: int| 0 <= j < i ==> s@[j] != c,
        decreases len - i,
    {
        if s.get_char(i) == c {
            return true;
        }
        i = i + 1;
    }
    false
}

/// Whether the print command can run on these arguments (see `print_ready`).
pub fn print_args_ready(args: &Vec<String>) -> (b: bool)
    ensures
        b == print_ready(concat_all(texts(args@))),
{
    let token = concat_args(args);
    has_char(token.as_str(), '+') || hex_text_fits(token.as_str())
}

/// The text that the print command shows for an address (see `print_absolute_text`).
pub fn dbg_print_absolute(address: usize, memory: &Memory) -> (s: String)
    requires
        memory.wf(),
    ensures
        s@ == print_absolute_text(memory@, address),
{
    let mut s = String::from_str("Fetching value from address 0x");
    let t = hex_string(address, 6, true);
    s.append(t.as_str());
    s.append("\n");
    match memory.get_byte(address) {
        Ok(b) => {
            s.append("Byte Value: 0x");
            let t = hex_string(b as usize, 2, true);
            s.append(t.as_str());
            s.append(" ");
        },
        Err(_e) => {
            s.append("Byte Value: Invalid ");
        },
    }
    let word = if address < usize::MAX {
        memory.get_word(address)
    } else {
        Err(crate::memory::InvalidAddressError::new(address))
    };
    match word {
        Ok(w) => {
            s.append("Word Value: 0x");
            let t = hex_string(w as usize, 2, true);
            s.append(t.as_str());
            s.append(" ");
        },
        Err(_e) => {
            s.append("Word Value: Invalid");
        },
    }
    s.append("\n");
    s
}

/// The text that the print command shows for its arguments (see `print_text`).
pub fn dbg_print(args: &Vec<String>, memory: &Memory) -> (s: String)
    requires
        memory.wf(),
        print_ready(concat_all(texts(args@))),
    ensures
        s@ == print_text(memory@, concat_all(texts(args@))),
{
    let token = concat_args(args);
    if has_char(token.as_str(), '+') {
        String::from_str("Unimplemented\n")
    } else {
        match string_to_hex(token.as_str()) {
            Ok(address) => dbg_print_absolute(address, memory),
            Err(_e) => {
                let mut s = String::from_str("Error: ");
                s.append(token.as_str());
                s.append(" was an invalid address value.\n");
                s
            },
        }
    }
}

} // verus!
