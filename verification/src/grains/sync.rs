//! One cycle of the synchronizer: every key drained from the bounded kernel
//! table is looked up in the access table, reported as matched or not found,
//! and deleted from the kernel table whatever the lookup gave.
//!
//! The kernel table itself is out of reach of this code. A cycle takes the
//! keys that were read from it and answers with what is to be reported and
//! deleted; the caller reads, reports and deletes.

use crate::grains::file::{FileAccess, FileAccessView};
use crate::grains::table::{recorded, AccessTable};
use vstd::prelude::*;

verus! {

/// What a cycle decides for one drained key: `ino` is to be deleted from the
/// kernel table; `access` is the record to report, or `None` where the
/// access table holds none yet.
#[derive(Debug, PartialEq, Eq)]
pub struct Reconciled {
    pub ino: u64,
    pub access: Option<FileAccess>,
}

/// A decision of a cycle as a mathematical value.
pub struct ReconciledView {
    pub ino: u64,
    pub access: Option<FileAccessView>,
}

impl View for Reconciled {
    type V = ReconciledView;

    open spec fn view(&self) -> ReconciledView {
        ReconciledView {
            ino: self.ino,
            access: match self.access {
                Some(file) => Some(file@),
                None => None,
            },
        }
    }
}

/// The decision for one key.
pub open spec fn reconciled(table: Map<u64, FileAccessView>, ino: u64) -> ReconciledView {
    ReconciledView {
        ino,
        access: if table.contains_key(ino) {
            Some(table[ino])
        } else {
            None
        },
    }
}

/// The decisions of one cycle over `keys`, in the order of the keys.
pub open spec fn cycle(table: Map<u64, FileAccessView>, keys: Seq<u64>) -> Seq<ReconciledView> {
    Seq::new(keys.len(), |i: int| reconciled(table, keys[i]))
}

/// The keys that the decisions of a cycle delete from the kernel table.
pub open spec fn deletions(decisions: Seq<ReconciledView>) -> Seq<u64> {
    Seq::new(decisions.len(), |i: int| decisions[i].ino)
}

/// The keys of the kernel table once `deleted` were deleted from it.
pub open spec fn drained(kernel: Set<u64>, deleted: Seq<u64>) -> Set<u64> {
    Set::new(|ino: u64| kernel.contains(ino) && !deleted.contains(ino))
}

/// The views of the decisions of a cycle, in order.
pub open spec fn decisions_view(decisions: Seq<Reconciled>) -> Seq<ReconciledView> {
    Seq::new(decisions.len(), |i: int| decisions[i]@)
}

/// A cycle deletes every key that it was given, matched or not: what it
/// deletes does not depend on the access table.
pub proof fn lemma_cycle_deletes_every_key(table: Map<u64, FileAccessView>, keys: Seq<u64>)
    ensures
        deletions(cycle(table, keys)) == keys,
{
    assert(deletions(cycle(table, keys)) =~= keys);
}

/// After a cycle, every key that the kernel table held when its keys were
/// read is gone from it, whether or not the access table knew the key. Where
/// the keys read were all its keys, the kernel table is empty.
pub proof fn lemma_cycle_drains(
    table: Map<u64, FileAccessView>,
    kernel: Set<u64>,
    keys: Seq<u64>,
)
    ensures
        forall|ino: u64|
            keys.contains(ino) ==> !drained(kernel, deletions(cycle(table, keys))).contains(ino),
        (forall|ino: u64| kernel.contains(ino) ==> keys.contains(ino)) ==> drained(
            kernel,
            deletions(cycle(table, keys)),
        ) == Set::<u64>::empty(),
        drained(kernel, deletions(cycle(table, keys))).subset_of(kernel),
{
    lemma_cycle_deletes_every_key(table, keys);
    if forall|ino: u64| kernel.contains(ino) ==> keys.contains(ino) {
        assert(drained(kernel, keys) =~= Set::<u64>::empty());
    }
}

/// A second cycle over the same keys finds nothing more to delete.
pub proof fn lemma_cycle_idempotent(
    table: Map<u64, FileAccessView>,
    kernel: Set<u64>,
    keys: Seq<u64>,
)
    ensures
        drained(
            drained(kernel, deletions(cycle(table, keys))),
            deletions(cycle(table, keys)),
        ) == drained(kernel, deletions(cycle(table, keys))),
{
    let once = drained(kernel, deletions(cycle(table, keys)));
    assert(drained(once, deletions(cycle(table, keys))) =~= once);
}

/// One step of the life of an access table: a record is offered to it, or a
/// synchronizer cycle runs over some keys. The lock around the table makes
/// each step happen as a whole.
pub enum TableStep {
    Record(FileAccessView),
    Cycle(Seq<u64>),
}

/// The access table after `steps`, in their order. A cycle reads the table
/// and leaves it as it is.
pub open spec fn table_after(
    table: Map<u64, FileAccessView>,
    steps: Seq<TableStep>,
) -> Map<u64, FileAccessView>
    decreases steps.len(),
{
    if steps.len() == 0 {
        table
    } else {
        match steps.last() {
            TableStep::Record(file) => recorded(table_after(table, steps.drop_last()), file),
            TableStep::Cycle(_) => table_after(table, steps.drop_last()),
        }
    }
}

/// However offers and cycles interleave, no insertion is lost: the table
/// keeps all that it held, and knows the inode of every record that was
/// offered.
pub proof fn lemma_no_insertion_lost(table: Map<u64, FileAccessView>, steps: Seq<TableStep>)
    ensures
        table.submap_of(table_after(table, steps)),
        forall|i: int|
            0 <= i < steps.len() ==> (#[trigger] steps[i] matches TableStep::Record(file)
                ==> table_after(table, steps).contains_key(file.ino)),
    decreases steps.len(),
{
    if steps.len() > 0 {
        let init = steps.drop_last();
        let before = table_after(table, init);
        let after = table_after(table, steps);
        lemma_no_insertion_lost(table, init);
        assert(before.submap_of(after));
        assert forall|ino: u64| #[trigger] table.contains_key(ino) implies after.contains_key(ino)
            && after[ino] == table[ino] by {
            assert(before.contains_key(ino) && before[ino] == table[ino]);
        }
        assert forall|i: int| 0 <= i < steps.len() implies (#[trigger] steps[i] matches TableStep::Record(
            file,
        ) ==> after.contains_key(file.ino)) by {
            if i < steps.len() - 1 {
                assert(init[i] == steps[i]);
            }
        }
    }
}

/// An inode that the table does not know, and for which no record is
/// offered, is unknown after the steps.
pub proof fn lemma_unoffered_stays_unknown(
    table: Map<u64, FileAccessView>,
    steps: Seq<TableStep>,
    ino: u64,
)
    requires
        !table.contains_key(ino),
        forall|j: int|
            0 <= j < steps.len() ==> (#[trigger] steps[j] matches TableStep::Record(file)
                ==> file.ino != ino),
    ensures
        !table_after(table, steps).contains_key(ino),
    decreases steps.len(),
{
    if steps.len() > 0 {
        let init = steps.drop_last();
        assert forall|j: int| 0 <= j < init.len() implies (#[trigger] init[j] matches TableStep::Record(
            file,
        ) ==> file.ino != ino) by {
            assert(init[j] == steps[j]);
        }
        lemma_unoffered_stays_unknown(table, init, ino);
        assert(steps.last() == steps[steps.len() - 1]);
    }
}

/// The first record offered for an inode that the table did not know is the
/// one the table holds in the end, whatever follows it and however cycles
/// fall between the offers. Records for distinct inodes are thus all held.
pub proof fn lemma_first_offer_is_held(
    table: Map<u64, FileAccessView>,
    steps: Seq<TableStep>,
    i: int,
)
    requires
        0 <= i < steps.len(),
        steps[i] is Record,
        !table.contains_key(steps[i]->Record_0.ino),
        forall|j: int|
            0 <= j < i ==> (#[trigger] steps[j] matches TableStep::Record(file) ==> file.ino
                != steps[i]->Record_0.ino),
    ensures
        table_after(table, steps).contains_key(steps[i]->Record_0.ino),
        table_after(table, steps)[steps[i]->Record_0.ino] == steps[i]->Record_0,
    decreases steps.len(),
{
    let init = steps.drop_last();
    let ino = steps[i]->Record_0.ino;
    if i < steps.len() - 1 {
        assert(init[i] == steps[i]);
        assert forall|j: int| 0 <= j < i implies (#[trigger] init[j] matches TableStep::Record(
            file,
        ) ==> file.ino != ino) by {
            assert(init[j] == steps[j]);
        }
        lemma_first_offer_is_held(table, init, i);
    } else {
        assert forall|j: int| 0 <= j < init.len() implies (#[trigger] init[j] matches TableStep::Record(
            file,
        ) ==> file.ino != ino) by {
            assert(init[j] == steps[j]);
        }
        lemma_unoffered_stays_unknown(table, init, ino);
    }
}

impl AccessTable {
    /// The decision for one drained key: the key itself, to be deleted, and a
    /// copy of the record held for it, if any. The table is not changed:
    /// a match leaves the record where it is.
    pub fn reconcile(&self, ino: u64) -> (r: Reconciled)
        ensures
            r@ == reconciled(self@, ino),
            r.access matches Some(file) ==> file.ino == ino,
    {
        match self.get(ino) {
            Some(file) => Reconciled { ino, access: Some(file.clone()) },
            None => Reconciled { ino, access: None },
        }
    }

    /// One synchronizer cycle over the keys read from the kernel table. The
    /// answer holds one decision for each key, in the order of the keys.
    pub fn sync_cycle(&self, keys: &[u64]) -> (r: Vec<Reconciled>)
        ensures
            decisions_view(r@) == cycle(self@, keys@),
            deletions(decisions_view(r@)) == keys@,
    {
        let mut out: Vec<Reconciled> = Vec::new();
        let mut i: usize = 0;
        while i < keys.len()
            invariant
                i <= keys.len(),
                out@.len() == i,
                forall|j: int| 0 <= j < i ==> (#[trigger] out@[j])@ == reconciled(self@, keys@[j]),
            decreases keys.len() - i,
        {
            out.push(self.reconcile(keys[i]));
            i += 1;
        }
        proof {
            assert(decisions_view(out@) =~= cycle(self@, keys@));
            lemma_cycle_deletes_every_key(self@, keys@);
        }
        out
    }
}

} // verus!
