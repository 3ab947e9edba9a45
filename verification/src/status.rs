//! Synchronization stages and the map from treasure keys to stages.

use vstd::prelude::*;

verus! {

/// How far a treasure has been published. The stages are ordered:
/// `Unsynced < BlobSynced < PlantSynced < ClaimSynced`.
#[derive(Clone, Copy, Debug, PartialEq, Eq, Structural, PartialOrd, Ord, Hash)]
pub enum SyncStatus {
    /// Nothing has been published; this is the stage of every key that a
    /// status map does not hold.
    Unsynced,
    /// The image is in the content store.
    BlobSynced,
    /// The plant is on the ledger.
    PlantSynced,
    /// The claim is on the ledger.
    ClaimSynced,
}

impl SyncStatus {
    /// The position of the stage in the order, from 0 to 3.
    pub open spec fn stage(self) -> nat {
        match self {
            SyncStatus::Unsynced => 0,
            SyncStatus::BlobSynced => 1,
            SyncStatus::PlantSynced => 2,
            SyncStatus::ClaimSynced => 3,
        }
    }

    /// The position of the stage in the order.
    pub fn rank(&self) -> (r: u8)
        ensures
            r == self.stage(),
    {
        match self {
            SyncStatus::Unsynced => 0,
            SyncStatus::BlobSynced => 1,
            SyncStatus::PlantSynced => 2,
            SyncStatus::ClaimSynced => 3,
        }
    }

    /// Whether `self` comes strictly before `other`.
    pub fn precedes(&self, other: SyncStatus) -> (b: bool)
        ensures
            b == (self.stage() < other.stage()),
    {
        self.rank() < other.rank()
    }
}

/// The stage that `statuses` gives to `key`: the stored one, or `Unsynced`
/// for a key it does not hold.
pub open spec fn status_in(statuses: Map<Seq<char>, SyncStatus>, key: Seq<char>) -> SyncStatus {
    if statuses.dom().contains(key) {
        statuses[key]
    } else {
        SyncStatus::Unsynced
    }
}

/// A write that would not move a key strictly forward.
#[derive(Clone, Copy, Debug, PartialEq, Eq, Structural)]
pub struct StatusRegression {
    /// The stage the key was at.
    pub current: SyncStatus,
    /// The stage that was asked for.
    pub requested: SyncStatus,
}

struct StatusEntry {
    public_key: String,
    status: SyncStatus,
}

/// The stage of every treasure, by its encoded public key. A key that was
/// never recorded is `Unsynced`.
pub struct StatusMap {
    entries: Vec<StatusEntry>,
}

spec fn holds_key(entries: Seq<StatusEntry>, i: int, key: Seq<char>) -> bool {
    0 <= i < entries.len() && entries[i].public_key@ == key
}

spec fn entries_map(entries: Seq<StatusEntry>) -> Map<Seq<char>, SyncStatus> {
    Map::new(
        |key: Seq<char>| exists|i: int| holds_key(entries, i, key),
        |key: Seq<char>| entries[choose|i: int| holds_key(entries, i, key)].status,
    )
}

spec fn distinct_keys(entries: Seq<StatusEntry>) -> bool {
    forall|i: int, j: int|
        0 <= i < j < entries.len() ==> entries[i].public_key@ != entries[j].public_key@
}

spec fn none_unsynced(entries: Seq<StatusEntry>) -> bool {
    forall|i: int| 0 <= i < entries.len() ==> entries[i].status != SyncStatus::Unsynced
}

proof fn lemma_entry_found(entries: Seq<StatusEntry>, i: int)
    requires
        distinct_keys(entries),
        0 <= i < entries.len(),
    ensures
        entries_map(entries).dom().contains(entries[i].public_key@),
        entries_map(entries)[entries[i].public_key@] == entries[i].status,
{
    let key = entries[i].public_key@;
    assert(holds_key(entries, i, key));
    let j = choose|j: int| holds_key(entries, j, key);
    assert(j == i);
}

/// The entries with `entry` put at place `i`: in place of the entry that is
/// there, or behind the last one where `i` is the number of entries.
spec fn with_entry(entries: Seq<StatusEntry>, i: int, entry: StatusEntry) -> Seq<StatusEntry> {
    if i == entries.len() {
        entries.push(entry)
    } else {
        entries.update(i, entry)
    }
}

proof fn lemma_entry_put(entries: Seq<StatusEntry>, i: int, entry: StatusEntry)
    requires
        distinct_keys(entries),
        0 <= i <= entries.len(),
        i < entries.len() ==> entries[i].public_key@ == entry.public_key@,
        i == entries.len() ==> forall|j: int|
            0 <= j < entries.len() ==> entries[j].public_key@ != entry.public_key@,
    ensures
        distinct_keys(with_entry(entries, i, entry)),
        entries_map(with_entry(entries, i, entry)) == entries_map(entries).insert(
            entry.public_key@,
            entry.status,
        ),
{
    let after = with_entry(entries, i, entry);
    let expected = entries_map(entries).insert(entry.public_key@, entry.status);
    assert(distinct_keys(after)) by {
        assert forall|a: int, b: int| 0 <= a < b < after.len() implies after[a].public_key@
            != after[b].public_key@ by {
            if a < entries.len() {
                assert(after[a].public_key@ == entries[a].public_key@);
            }
            if b < entries.len() {
                assert(after[b].public_key@ == entries[b].public_key@);
            }
        }
    }
    assert forall|key: Seq<char>|
        entries_map(after).dom().contains(key) <==> #[trigger] expected.dom().contains(key) by {
        if key == entry.public_key@ {
            assert(holds_key(after, i, key));
        } else if entries_map(after).dom().contains(key) {
            let j = choose|j: int| holds_key(after, j, key);
            assert(holds_key(entries, j, key));
        } else if entries_map(entries).dom().contains(key) {
            let j = choose|j: int| holds_key(entries, j, key);
            assert(holds_key(after, j, key));
        }
    }
    assert forall|key: Seq<char>| #[trigger]
        entries_map(after).dom().contains(key) implies entries_map(after)[key]
        == expected[key] by {
        let j = choose|j: int| holds_key(after, j, key);
        lemma_entry_found(after, j);
        if j != i {
            lemma_entry_found(entries, j);
        }
    }
    assert(entries_map(after) =~= expected);
}

impl View for StatusMap {
    type V = Map<Seq<char>, SyncStatus>;

    /// The stored stages by key. No stored stage is `Unsynced`.
    closed spec fn view(&self) -> Map<Seq<char>, SyncStatus> {
        entries_map(self.entries@)
    }
}

impl StatusMap {
    /// No key is stored twice, and no stored stage is `Unsynced`.
    pub closed spec fn wf(&self) -> bool {
        distinct_keys(self.entries@) && none_unsynced(self.entries@)
    }

    /// The stage of `key` in this map.
    pub open spec fn status(&self, key: Seq<char>) -> SyncStatus {
        status_in(self@, key)
    }

    /// A map in which every key is `Unsynced`.
    pub fn new() -> (statuses: StatusMap)
        ensures
            statuses.wf(),
            statuses@ == Map::<Seq<char>, SyncStatus>::empty(),
    {
        let statuses = StatusMap { entries: Vec::new() };
        assert(statuses@ =~= Map::<Seq<char>, SyncStatus>::empty());
        statuses
    }

    /// The number of keys that are past `Unsynced`.
    pub fn len(&self) -> (n: usize)
        requires
            self.wf(),
        ensures
            n == self@.dom().len(),
            self@.dom().finite(),
    {
        proof {
            lemma_entries_counted(self.entries@);
        }
        self.entries.len()
    }

    fn position(&self, public_key: &String) -> (found: Option<usize>)
        ensures
            match found {
                Some(i) => holds_key(self.entries@, i as int, public_key@),
                None => forall|i: int| !holds_key(self.entries@, i, public_key@),
            },
    {
        let mut i: usize = 0;
        while i < self.entries.len()
            invariant
                i <= self.entries.len(),
                forall|j: int| 0 <= j < i ==> !holds_key(self.entries@, j, public_key@),
            decreases self.entries.len() - i,
        {
            if self.entries[i].public_key == *public_key {
                return Some(i);
            }
            i += 1;
        }
        None
    }

    /// The stage of `public_key`, `Unsynced` if it was never recorded.
    pub fn get(&self, public_key: &String) -> (status: SyncStatus)
        requires
            self.wf(),
        ensures
            status == self.status(public_key@),
    {
        match self.position(public_key) {
            Some(i) => {
                proof {
                    lemma_entry_found(self.entries@, i as int);
                }
                self.entries[i].status
            },
            None => SyncStatus::Unsynced,
        }
    }

    /// Moves `public_key` forward to `status`. A write that would leave the
    /// key where it is, or move it back, is refused and changes nothing.
    pub fn record_status(&mut self, public_key: &String, status: SyncStatus) -> (written: Result<
        (),
        StatusRegression,
    >)
        requires
            old(self).wf(),
        ensures
            final(self).wf(),
            old(self).status(public_key@).stage() < status.stage() ==> {
                &&& written is Ok
                &&& final(self)@ == old(self)@.insert(public_key@, status)
            },
            old(self).status(public_key@).stage() >= status.stage() ==> {
                &&& written == Err::<(), StatusRegression>(
                    StatusRegression { current: old(self).status(public_key@), requested: status },
                )
                &&& final(self)@ == old(self)@
            },
    {
        match self.position(public_key) {
            Some(i) => {
                proof {
                    lemma_entry_found(self.entries@, i as int);
                }
                let current = self.entries[i].status;
                if current.precedes(status) {
                    let entry = StatusEntry { public_key: public_key.clone(), status };
                    proof {
                        lemma_entry_put(self.entries@, i as int, entry);
                    }
                    self.entries.set(i, entry);
                    Ok(())
                } else {
                    Err(StatusRegression { current, requested: status })
                }
            },
            None => {
                if SyncStatus::Unsynced.precedes(status) {
                    let entry = StatusEntry { public_key: public_key.clone(), status };
                    proof {
                        assert forall|i: int| 0 <= i < self.entries@.len() implies self.entries@[i].public_key@
                            != entry.public_key@ by {
                            assert(!holds_key(self.entries@, i, public_key@));
                        }
                        lemma_entry_put(self.entries@, self.entries@.len() as int, entry);
                    }
                    self.entries.push(entry);
                    Ok(())
                } else {
                    Err(StatusRegression { current: SyncStatus::Unsynced, requested: status })
                }
            },
        }
    }
}

proof fn lemma_entries_counted(entries: Seq<StatusEntry>)
    requires
        distinct_keys(entries),
    ensures
        entries_map(entries).dom().finite(),
        entries_map(entries).dom().len() == entries.len(),
    decreases entries.len(),
{
    if entries.len() == 0 {
        assert(entries_map(entries).dom() =~= Set::<Seq<char>>::empty());
    } else {
        let front = entries.drop_last();
        let last = entries.last();
        lemma_entries_counted(front);
        assert(distinct_keys(front));
        assert forall|i: int| 0 <= i < front.len() implies front[i].public_key@
            != last.public_key@ by {
            assert(front[i] == entries[i]);
        }
        lemma_entry_put(front, front.len() as int, last);
        assert(front.push(last) =~= entries);
        assert(!entries_map(front).dom().contains(last.public_key@)) by {
            if entries_map(front).dom().contains(last.public_key@) {
                let i = choose|i: int| holds_key(front, i, last.public_key@);
                assert(front[i] == entries[i]);
            }
        }
    }
}

} // verus!
