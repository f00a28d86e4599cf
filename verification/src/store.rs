//! The action store: a fixed-capacity table of clip entries with atomic
//! replacement and infallible slot lookup.

use vstd::prelude::*;

use crate::config::{is_default_entry, ClipEntry, CAPACITY};

verus! {

/// The table `result` is what replacing the store's contents with `given`
/// must produce: exactly `CAPACITY` entries, `given` truncated or padded
/// with default entries to that length.
pub open spec fn replaced(given: Seq<ClipEntry>, result: Seq<ClipEntry>) -> bool {
    &&& result.len() == CAPACITY as int
    &&& forall|i: int| 0 <= i < result.len() && i < given.len() ==> #[trigger] result[i] == given[i]
    &&& forall|i: int| given.len() <= i < result.len() ==> is_default_entry(#[trigger] result[i])
}

/// Holds the current set of action definitions. The table always has exactly
/// `CAPACITY` entries, so `get` on a valid slot never fails, and `replace_all`
/// swaps the whole table in one assignment (a reader borrowing the store never
/// observes a partially updated table).
pub struct ActionStore {
    entries: Vec<ClipEntry>,
}

impl View for ActionStore {
    type V = Seq<ClipEntry>;

    closed spec fn view(&self) -> Seq<ClipEntry> {
        self.entries@
    }
}

impl ActionStore {
    pub open spec fn wf(self) -> bool {
        self@.len() == CAPACITY as int
    }

    /// A store of `CAPACITY` default entries.
    pub fn new() -> (s: ActionStore)
        ensures
            s.wf(),
            forall|i: int| 0 <= i < s@.len() ==> is_default_entry(#[trigger] s@[i]),
    {
        let mut s = ActionStore { entries: Vec::new() };
        let empty: Vec<ClipEntry> = Vec::new();
        s.replace_all(empty);
        s
    }

    /// Swaps the table for `entries`, truncated or padded with default
    /// entries to exactly `CAPACITY` slots.
    pub fn replace_all(&mut self, entries: Vec<ClipEntry>)
        ensures
            final(self).wf(),
            replaced(entries@, final(self)@),
    {
        let ghost given = entries@;
        let mut table = entries;
        if table.len() > CAPACITY {
            table.truncate(CAPACITY);
        }
        while table.len() < CAPACITY
            invariant
                table@.len() <= CAPACITY as int,
                given.len() <= table@.len() || CAPACITY as int <= table@.len(),
                forall|i: int| 0 <= i < table@.len() && i < given.len() ==> #[trigger] table@[i] == given[i],
                forall|i: int| given.len() <= i < table@.len() ==> is_default_entry(#[trigger] table@[i]),
            decreases CAPACITY as int - table@.len(),
        {
            table.push(ClipEntry::default());
        }
        self.entries = table;
    }

    /// Reads the entry in `slot_index`; never fails for a valid slot.
    pub fn get(&self, slot_index: usize) -> (entry: &ClipEntry)
        requires
            self.wf(),
            slot_index < CAPACITY,
        ensures
            *entry == self@[slot_index as int],
    {
        &self.entries[slot_index]
    }
}

/// Law: after `replace_all(entries)` leaves the store's table as `table`,
/// `get(i)` yields `entries[i]` for every slot the given list covers, and the
/// padded default entry for every slot beyond it.
pub proof fn lemma_get_after_replace_all(entries: Seq<ClipEntry>, table: Seq<ClipEntry>, i: int)
    requires
        replaced(entries, table),
        0 <= i < CAPACITY as int,
    ensures
        i < entries.len() ==> table[i] == entries[i],
        entries.len() <= i ==> is_default_entry(table[i]),
{
}

} // verus!
