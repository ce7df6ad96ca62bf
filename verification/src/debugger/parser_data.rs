//! The table of breakpoint addresses and the tags that name them.
use vstd::prelude::*;

use super::utils::{
    lemma_remove_value, spec_remove_value, DebugTagTable,
    RemoveValueFromVector,
};
use super::InvalidDbgArgError;
use crate::numfmt::{hex_string, hex_text};

verus! {

/// Addresses, some of them named by a tag.
pub struct ParserData {
    pub addresses: Vec<usize>,
    pub tag_db: DebugTagTable,
}

/// The text of the error for an address that is already set and named `name`.
pub open spec fn named_exists_text(name: Seq<char>, address: usize) -> Seq<char> {
    "Breakpoint "@ + name + " already exists at 0x"@ + hex_text(address as nat, 6, true)
}

/// The text of the error for an address that is already set and has no name.
pub open spec fn unnamed_exists_text(address: usize) -> Seq<char> {
    "A breakpoint was already set at 0x"@ + hex_text(address as nat, 6, true)
}

/// One row of the table: the address, a bar, and the tag that names it, if any.
pub open spec fn table_row(address: usize, name: Option<Seq<char>>) -> Seq<char> {
    "  0x"@ + hex_text(address as nat, 6, true) + " |"@ + match name {
        Some(k) => " "@ + k,
        None => Seq::empty(),
    } + "\n"@
}

/// The rows of the first `n` addresses, with the given tag names.
pub open spec fn table_rows(addresses: Seq<usize>, names: Seq<Option<Seq<char>>>, n: nat) -> Seq<char>
    decreases n,
{
    if n == 0 {
        Seq::empty()
    } else {
        table_rows(addresses, names, (n - 1) as nat) + table_row(addresses[n - 1], names[n - 1])
    }
}

/// The table as the debugger shows it: a heading, a row per address, and a rule.
pub open spec fn table_text(addresses: Seq<usize>, names: Seq<Option<Seq<char>>>) -> Seq<char> {
    "\n  Address  | Tag Name  \n-----------------------\n"@ + table_rows(
        addresses,
        names,
        addresses.len(),
    ) + "  \n-----------------------\n"@
}

/// Whether `name` is a tag that names `address`, or `None` where no tag does.
pub open spec fn name_fits(tags: Map<Seq<char>, usize>, address: usize, name: Option<Seq<char>>) -> bool {
    match name {
        Some(k) => tags.contains_key(k) && tags[k] == address,
        None => forall|k: Seq<char>| #[trigger] tags.contains_key(k) ==> tags[k] != address,
    }
}

/// Whether `names` gives a fitting name (see `name_fits`) for each address.
pub open spec fn names_fit(tags: Map<Seq<char>, usize>, addresses: Seq<usize>, names: Seq<Option<Seq<char>>>) -> bool {
    &&& names.len() == addresses.len()
    &&& forall|i: int| 0 <= i < addresses.len() ==> name_fits(tags, addresses[i], #[trigger] names[i])
}

/// The tag that the table shows for each address (see `DebugTagTable::key_of`).
pub open spec fn table_names(tags: DebugTagTable, addresses: Seq<usize>) -> Seq<Option<Seq<char>>> {
    Seq::new(addresses.len(), |i: int| tags.key_of(addresses[i]))
}

/// The rows of the first `n` addresses depend only on the first `n` names.
proof fn lemma_table_rows_prefix(
    addresses: Seq<usize>,
    a: Seq<Option<Seq<char>>>,
    b: Seq<Option<Seq<char>>>,
    n: nat,
)
    requires
        n <= a.len(),
        n <= b.len(),
        forall|j: int| 0 <= j < n ==> a[j] == b[j],
    ensures
        table_rows(addresses, a, n) == table_rows(addresses, b, n),
    decreases n,
{
    if n > 0 {
        lemma_table_rows_prefix(addresses, a, b, (n - 1) as nat);
    }
}

/// A breakpoint added to a list that lacks it is found by `get`, a second `insert` of it
/// fails, and deleting it gives the list back as it was.
pub proof fn lemma_insert_get_delete(addresses: Seq<usize>, address: usize)
    requires
        !addresses.contains(address),
    ensures
        addresses.push(address).contains(address),
        spec_remove_value(addresses.push(address), address) == addresses,
{
    let s = addresses.push(address);
    assert(s[addresses.len() as int] == address);
    assert(s.drop_last() =~= addresses);
    lemma_remove_value(addresses, address);
}

/// Deleting an address leaves no breakpoint there, however many times it was listed
/// (by `insert` and by tags), and keeps every other address.
pub proof fn lemma_delete_removes_all(addresses: Seq<usize>, address: usize, other: usize)
    ensures
        !spec_remove_value(addresses, address).contains(address),
        other != address ==> (spec_remove_value(addresses, address).contains(other)
            <==> addresses.contains(other)),
{
    lemma_remove_value(addresses, address);
}

/// A tag set by `insert_tag` reads back its address through `get_tag`, names it for
/// `get_tag_name`'s purposes, and its address is in the list; `delete_tag` then takes the
/// tag out, leaving the other tags as they were.
pub proof fn lemma_tag_round_trip(
    tags: Map<Seq<char>, usize>,
    addresses: Seq<usize>,
    tag: Seq<char>,
    address: usize,
)
    ensures
        tags.insert(tag, address).contains_key(tag),
        tags.insert(tag, address)[tag] == address,
        !tags.insert(tag, address).remove(tag).contains_key(tag),
        tags.insert(tag, address).remove(tag) == tags.remove(tag),
        tags.contains_key(tag) ==> spec_remove_value(addresses, tags[tag]).push(address).contains(
            address,
        ),
        addresses.push(address).contains(address),
{
    assert(tags.insert(tag, address).remove(tag) =~= tags.remove(tag));
    if tags.contains_key(tag) {
        let r = spec_remove_value(addresses, tags[tag]);
        assert(r.push(address)[r.len() as int] == address);
    }
    assert(addresses.push(address)[addresses.len() as int] == address);
}

/// Setting a new tag at an address that has no breakpoint (`insert_tag`, as `b tag` does)
/// and then deleting that tag with its address (`delete_tag`, as `b del tag` does) gives
/// back the table as it was.
pub proof fn lemma_tag_set_delete_round_trip(
    tags: Map<Seq<char>, usize>,
    addresses: Seq<usize>,
    tag: Seq<char>,
    address: usize,
)
    requires
        !tags.contains_key(tag),
        !addresses.contains(address),
    ensures
        tags.insert(tag, address).remove(tag) == tags,
        tags.insert(tag, address)[tag] == address,
        addresses.push(address).contains(address),
        spec_remove_value(addresses.push(address), address) == addresses,
{
    assert(tags.insert(tag, address).remove(tag) =~= tags);
    lemma_insert_get_delete(addresses, address);
}

impl ParserData {
    /// Well-formed: the tag table is.
    pub open spec fn wf(&self) -> bool {
        self.tag_db.wf()
    }

    /// No addresses and no tags.
    pub open spec fn is_empty(&self) -> bool {
        &&& self.wf()
        &&& self.addresses@.len() == 0
        &&& self.tag_db@ == Map::<Seq<char>, usize>::empty()
    }

    /// An empty table.
    pub fn new() -> (p: Self)
        ensures
            p.is_empty(),
    {
        Self { addresses: Vec::new(), tag_db: DebugTagTable::new() }
    }

    /// The address that a tag names, if it is in the table.
    pub fn get_tag(&self, tag: &str) -> (r: Option<&usize>)
        requires
            self.wf(),
        ensures
            r is Some <==> self.tag_db@.contains_key(tag@),
            r matches Some(v) ==> *v == self.tag_db@[tag@],
    {
        self.tag_db.get(tag)
    }

    /// A tag that names `address`, if one does.
    pub fn get_tag_name(&self, address: usize) -> (r: Option<&str>)
        requires
            self.wf(),
        ensures
            r matches Some(k) ==> self.tag_db@.contains_key(k@) && self.tag_db@[k@] == address
                && self.tag_db.key_of(address) == Some(k@),
            r is None ==> self.tag_db.key_of(address) is None && forall|k: Seq<char>|
                #[trigger] self.tag_db@.contains_key(k) ==> self.tag_db@[k] != address,
    {
        self.tag_db.first_key_of(address)
    }

    /// Name `address` by `tag`. A tag that was in the table gets the new address, and
    /// its old address leaves the list (see `spec_remove_value`); the new address is
    /// appended either way. Returns `Some(address)` where the tag was already there,
    /// `None` where it is new.
    pub fn insert_tag(&mut self, tag: &str, address: usize) -> (r: Option<usize>)
        requires
            old(self).wf(),
        ensures
            final(self).wf(),
            final(self).tag_db@ == old(self).tag_db@.insert(tag@, address),
            old(self).tag_db@.contains_key(tag@) ==> r == Some(address) && final(self).addresses@
                == spec_remove_value(old(self).addresses@, old(self).tag_db@[tag@]).push(address),
            !old(self).tag_db@.contains_key(tag@) ==> r is None && final(self).addresses@ == old(
                self,
            ).addresses@.push(address),
    {
        match self.tag_db.insert(String::from_str(tag), address) {
            Some(old_value) => {
                self.addresses.remove_value(old_value);
                self.addresses.push(address);
                Some(address)
            },
            None => {
                self.addresses.push(address);
                None
            },
        }
    }

    /// Take a tag and its address out of the table. Returns the tag's entry if it was
    /// there.
    pub fn delete_tag(&mut self, tag: &str) -> (r: Option<(String, usize)>)
        requires
            old(self).wf(),
        ensures
            final(self).wf(),
            final(self).tag_db@ == old(self).tag_db@.remove(tag@),
            r is Some <==> old(self).tag_db@.contains_key(tag@),
            r matches Some(e) ==> e.0@ == tag@ && e.1 == old(self).tag_db@[tag@]
                && final(self).addresses@ == spec_remove_value(old(self).addresses@, e.1),
            r is None ==> final(self).addresses@ == old(self).addresses@,
    {
        match self.tag_db.remove_entry(tag) {
            Some(value) => {
                self.delete(value.1);
                Some(value)
            },
            None => None,
        }
    }

    /// Whether `address` is in the list.
    fn contains(&self, address: usize) -> (b: bool)
        ensures
            b == self.addresses@.contains(address),
    {
        let mut i: usize = 0;
        while i < self.addresses.len()
            invariant
                i <= self.addresses@.len(),
                forall|j: int| 0 <= j < i ==> self.addresses@[j] != address,
            decreases self.addresses@.len() - i,
        {
            if self.addresses[i] == address {
                return true;
            }
            i = i + 1;
        }
        false
    }

    /// `Some(address)` if the address is in the list, `None` otherwise.
    pub fn get(&self, address: usize) -> (r: Option<usize>)
        ensures
            r == (if self.addresses@.contains(address) {
                Some(address)
            } else {
                None::<usize>
            }),
    {
        if self.contains(address) {
            Some(address)
        } else {
            None
        }
    }

    /// Add an address without a tag. Fails, leaving the table as it was, where the
    /// address is already in the list; the error names a tag of the address, if it has one.
    pub fn insert(&mut self, address: usize) -> (r: Result<(), InvalidDbgArgError>)
        requires
            old(self).wf(),
        ensures
            final(self).tag_db == old(self).tag_db,
            r is Ok <==> !old(self).addresses@.contains(address),
            r is Ok ==> final(self).addresses@ == old(self).addresses@.push(address),
            r matches Err(e) ==> final(self).addresses@ == old(self).addresses@ && e@ == match old(
                self,
            ).tag_db.key_of(address) {
                Some(k) => named_exists_text(k, address),
                None => unnamed_exists_text(address),
            },
    {
        match self.get(address) {
            Some(value) => {
                let digits = hex_string(value, 6, true);
                match self.tag_db.first_key_of(address) {
                    Some(name) => {
                        let mut msg = String::from_str("Breakpoint ");
                        msg.append(name);
                        msg.append(" already exists at 0x");
                        msg.append(digits.as_str());
                        assert(msg@ == named_exists_text(name@, address));
                        Err(InvalidDbgArgError::new(msg))
                    },
                    None => {
                        let mut msg = String::from_str("A breakpoint was already set at 0x");
                        msg.append(digits.as_str());
                        Err(InvalidDbgArgError::new(msg))
                    },
                }
            },
            None => {
                self.addresses.push(address);
                Ok(())
            },
        }
    }

    /// Remove every copy of an address from the list (see `spec_remove_value`). Returns
    /// `Some(address)` if it was there, `None` otherwise.
    pub fn delete(&mut self, address: usize) -> (r: Option<usize>)
        ensures
            final(self).tag_db == old(self).tag_db,
            final(self).addresses@ == spec_remove_value(old(self).addresses@, address),
            r == (if old(self).addresses@.contains(address) {
                Some(address)
            } else {
                None::<usize>
            }),
    {
        match self.addresses.remove_value(address) {
            Some(_) => Some(address),
            None => None,
        }
    }
    /// The table as text (see `table_text`); each row shows the tag that `get_tag_name`
    /// gives for its address.
    pub fn table_text(&self) -> (s: String)
        requires
            self.wf(),
        ensures
            names_fit(self.tag_db@, self.addresses@, table_names(self.tag_db, self.addresses@)),
            s@ == table_text(self.addresses@, table_names(self.tag_db, self.addresses@)),
    {
        let mut s = String::from_str("\n  Address  | Tag Name  \n-----------------------\n");
        let ghost head = s@;
        let ghost mut names: Seq<Option<Seq<char>>> = Seq::empty();
        let mut i: usize = 0;
        while i < self.addresses.len()
            invariant
                self.wf(),
                i <= self.addresses@.len(),
                names.len() == i,
                forall|j: int|
                    0 <= j < i ==> name_fits(self.tag_db@, self.addresses@[j], #[trigger] names[j])
                        && names[j] == self.tag_db.key_of(self.addresses@[j]),
                s@ == head + table_rows(self.addresses@, names, i as nat),
            decreases self.addresses@.len() - i,
        {
            let value = self.addresses[i];
            s.append("  0x");
            let t = hex_string(value, 6, true);
            s.append(t.as_str());
            s.append(" |");
            let name = self.tag_db.first_key_of(value);
            match name {
                Some(k) => {
                    s.append(" ");
                    s.append(k);
                },
                None => {},
            }
            s.append("\n");
            proof {
                let nm: Option<Seq<char>> = match name {
                    Some(k) => Some(k@),
                    None => None,
                };
                let old_names = names;
                names = names.push(nm);
                assert(table_rows(self.addresses@, old_names, i as nat) == table_rows(
                    self.addresses@,
                    names,
                    i as nat,
                )) by {
                    lemma_table_rows_prefix(self.addresses@, old_names, names, i as nat);
                }
            }
            i = i + 1;
        }
        s.append("  \n-----------------------\n");
        assert(names =~= table_names(self.tag_db, self.addresses@));
        assert(names_fit(self.tag_db@, self.addresses@, names));
        assert(s@ == table_text(self.addresses@, names));
        s
    }
}

} // verus!
