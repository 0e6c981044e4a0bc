//! The table of decoded accesses, keyed by inode. The first record seen for
//! an inode stays; nothing is ever removed.

use crate::grains::file::{FileAccess, FileAccessView};
use std::collections::HashMap;
use vstd::prelude::*;

verus! {

broadcast use vstd::std_specs::hash::group_hash_axioms;

/// The table after `file` was offered to it: unchanged where the inode of
/// `file` is already known, else with `file` under its inode.
pub open spec fn recorded(
    table: Map<u64, FileAccessView>,
    file: FileAccessView,
) -> Map<u64, FileAccessView> {
    if table.contains_key(file.ino) {
        table
    } else {
        table.insert(file.ino, file)
    }
}

/// Every entry of `table` stands under the inode that it names.
pub open spec fn keyed_by_inode(table: Map<u64, FileAccessView>) -> bool {
    forall|ino: u64| #[trigger] table.contains_key(ino) ==> table[ino].ino == ino
}

/// The first writer wins: of two records for one inode, offered one after
/// the other, the table holds the first, and the second changes nothing.
pub proof fn lemma_first_writer_wins(
    table: Map<u64, FileAccessView>,
    first: FileAccessView,
    second: FileAccessView,
)
    requires
        first.ino == second.ino,
    ensures
        recorded(recorded(table, first), second) == recorded(table, first),
        !table.contains_key(first.ino) ==> recorded(recorded(table, first), second)[first.ino]
            == first,
{
}

/// Offering a record removes nothing and changes no entry: what the table
/// held before, it holds after, and the offered inode is known after.
pub proof fn lemma_recorded_keeps(table: Map<u64, FileAccessView>, file: FileAccessView)
    ensures
        table.submap_of(recorded(table, file)),
        recorded(table, file).contains_key(file.ino),
        keyed_by_inode(table) ==> keyed_by_inode(recorded(table, file)),
{
}

/// The decoded accesses that a probe has seen, one for each inode.
pub struct AccessTable {
    entries: HashMap<u64, FileAccess>,
}

impl View for AccessTable {
    type V = Map<u64, FileAccessView>;

    closed spec fn view(&self) -> Map<u64, FileAccessView> {
        Map::new(|ino: u64| self.entries@.contains_key(ino), |ino: u64| self.entries@[ino]@)
    }
}

impl AccessTable {
    #[verifier::type_invariant]
    spec fn well_keyed(self) -> bool {
        forall|ino: u64| #[trigger] self.entries@.contains_key(ino) ==> self.entries@[ino].ino == ino
    }

    /// An empty table.
    pub fn new() -> (table: AccessTable)
        ensures
            table@ == Map::<u64, FileAccessView>::empty(),
    {
        let table = AccessTable { entries: HashMap::new() };
        assert(table@ =~= Map::<u64, FileAccessView>::empty());
        table
    }

    /// Offers a record to the table. It is stored under its inode unless the
    /// table already holds a record for that inode, which then stays as it
    /// is. Says whether the record was stored.
    pub fn insert(&mut self, file: FileAccess) -> (stored: bool)
        ensures
            final(self)@ == recorded(old(self)@, file@),
            stored == !old(self)@.contains_key(file.ino),
            keyed_by_inode(final(self)@),
    {
        proof {
            use_type_invariant(&*self);
        }
        let known = self.entries.contains_key(&file.ino);
        if !known {
            let ghost before = self.entries@;
            let ghost offered = file;
            let mut entries: HashMap<u64, FileAccess> = HashMap::new();
            std::mem::swap(&mut self.entries, &mut entries);
            entries.insert(file.ino, file);
            std::mem::swap(&mut self.entries, &mut entries);
            assert(self.entries@ == before.insert(offered.ino, offered));
        }
        assert(self@ =~= recorded(old(self)@, file@));
        !known
    }

    /// The record held for `ino`, if there is one.
    pub fn get(&self, ino: u64) -> (r: Option<&FileAccess>)
        ensures
            match r {
                Some(file) => self@.contains_key(ino) && file@ == self@[ino] && file.ino == ino,
                None => !self@.contains_key(ino),
            },
    {
        proof {
            use_type_invariant(self);
        }
        self.entries.get(&ino)
    }

    /// Whether a record is held for `ino`.
    pub fn contains_key(&self, ino: u64) -> (b: bool)
        ensures
            b == self@.contains_key(ino),
    {
        self.entries.contains_key(&ino)
    }

    /// The number of inodes for which a record is held.
    pub fn len(&self) -> (n: usize)
        ensures
            n == self@.dom().len(),
            self@.dom().finite(),
    {
        assert(self@.dom() =~= self.entries@.dom());
        self.entries.len()
    }

    /// Whether the table holds nothing.
    pub fn is_empty(&self) -> (b: bool)
        ensures
            b == (self@ == Map::<u64, FileAccessView>::empty()),
    {
        assert(self@.dom() =~= self.entries@.dom());
        let b = self.entries.is_empty();
        proof {
            if b {
                assert(self@ =~= Map::<u64, FileAccessView>::empty());
            }
        }
        b
    }
}

} // verus!
