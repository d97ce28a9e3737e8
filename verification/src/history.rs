//! The stake history: one record of cluster-wide stake totals per epoch,
//! kept for a bounded trailing window.
//!
//! The history persists as one byte of layout version, the number of
//! records as a 64-bit integer, and the records, oldest first, each as four
//! 64-bit integers: the epoch, then the effective, the activating and the
//! deactivating stake. Integers are little-endian.

use crate::codec::{lemma_u64_at_written, lemma_u64_read_written, put_u64, read_u64, u64_at, U64_BYTES};
use crate::error::StakeError;
use vstd::bytes::spec_u64_to_le_bytes;
use vstd::prelude::*;

verus! {

/// The unit of time of the stake lifecycle.
pub type Epoch = u64;

/// How many epochs the history retains.
pub const MAX_ENTRIES: usize = 512;

/// Cluster-wide stake totals of one epoch.
#[derive(Clone, Copy, Debug, PartialEq, Eq, Structural)]
pub struct StakeHistoryEntry {
    pub epoch: Epoch,
    /// Stake that counted towards consensus in this epoch.
    pub effective_stake: u64,
    /// Stake that was waiting to become effective.
    pub activating_stake: u64,
    /// Stake that was waiting to stop being effective.
    pub deactivating_stake: u64,
}

/// Whether `entries` is a run of consecutive epochs, oldest first, no longer
/// than the retention window.
pub open spec fn sequential(entries: Seq<StakeHistoryEntry>) -> bool {
    &&& entries.len() <= MAX_ENTRIES
    &&& forall|i: int| 0 <= i < entries.len() ==> (#[trigger] entries[i]).epoch == entries[0].epoch + i
}

/// The record of `epoch` in `entries`, if the window holds it.
pub open spec fn lookup(entries: Seq<StakeHistoryEntry>, epoch: int) -> Option<StakeHistoryEntry> {
    if entries.len() > 0 && entries[0].epoch <= epoch < entries[0].epoch + entries.len() {
        Some(entries[epoch - entries[0].epoch])
    } else {
        None
    }
}

/// What the history holds after `entry` was appended to `entries`: the
/// oldest record leaves when the window is full.
pub open spec fn appended(entries: Seq<StakeHistoryEntry>, entry: StakeHistoryEntry) -> Seq<StakeHistoryEntry> {
    if entries.len() >= MAX_ENTRIES {
        entries.skip(1).push(entry)
    } else {
        entries.push(entry)
    }
}

/// Whether `entry` continues `entries`: the history is empty, or the entry is
/// for the epoch after the newest one.
pub open spec fn continues(entries: Seq<StakeHistoryEntry>, entry: StakeHistoryEntry) -> bool {
    entries.len() == 0 || entry.epoch == entries.last().epoch + 1
}

/// A history of consecutive epochs finds each of its records under its
/// epoch, and nothing under an epoch before its oldest or after its newest.
pub proof fn lemma_lookup_window(entries: Seq<StakeHistoryEntry>, epoch: int)
    requires
        sequential(entries),
    ensures
        forall|i: int| 0 <= i < entries.len() ==> lookup(entries, (#[trigger] entries[i]).epoch as int) == Some(entries[i]),
        entries.len() == 0 || epoch < entries[0].epoch || epoch > entries.last().epoch ==> lookup(
            entries,
            epoch,
        ) is None,
        lookup(entries, epoch) matches Some(entry) ==> entry.epoch == epoch,
{
    if entries.len() > 0 {
        assert(entries.last() == entries[entries.len() - 1]);
    }
}

/// Appending the record of the next epoch keeps the epochs consecutive and
/// within the window. The new record is found under its epoch; the records
/// that stay are found as before; and the oldest is gone if the window was
/// full.
pub proof fn lemma_appended(entries: Seq<StakeHistoryEntry>, entry: StakeHistoryEntry)
    requires
        sequential(entries),
        continues(entries, entry),
    ensures
        sequential(appended(entries, entry)),
        lookup(appended(entries, entry), entry.epoch as int) == Some(entry),
        forall|epoch: int|
            epoch != entry.epoch && !(entries.len() >= MAX_ENTRIES && epoch == entries[0].epoch) ==> lookup(
                appended(entries, entry),
                epoch,
            ) == #[trigger] lookup(entries, epoch),
        entries.len() >= MAX_ENTRIES ==> lookup(appended(entries, entry), entries[0].epoch as int) is None,
{
    let after = appended(entries, entry);
    if entries.len() > 0 {
        assert(entries.last() == entries[entries.len() - 1]);
    }
    if entries.len() >= MAX_ENTRIES {
        assert(forall|i: int| 0 <= i < after.len() - 1 ==> after[i] == entries[i + 1]);
        assert(after[after.len() - 1] == entry);
    } else {
        assert(forall|i: int| 0 <= i < after.len() - 1 ==> after[i] == entries[i]);
        assert(after[after.len() - 1] == entry);
    }
}

/// The version of the persisted layout of the history.
pub const HISTORY_LAYOUT_VERSION: u8 = 1;

/// The bytes of the version and the number of records.
pub const HISTORY_HEADER_BYTES: usize = 9;

/// The bytes of an encoded record.
pub const ENTRY_BYTES: usize = 32;

/// The encoding of `entry`: its four figures, the epoch first.
pub open spec fn entry_bytes(entry: StakeHistoryEntry) -> Seq<u8> {
    spec_u64_to_le_bytes(entry.epoch) + spec_u64_to_le_bytes(entry.effective_stake) + spec_u64_to_le_bytes(
        entry.activating_stake,
    ) + spec_u64_to_le_bytes(entry.deactivating_stake)
}

/// The encodings of `entries`, one after the other.
pub open spec fn entries_bytes(entries: Seq<StakeHistoryEntry>) -> Seq<u8>
    decreases entries.len(),
{
    if entries.len() == 0 {
        Seq::empty()
    } else {
        entries_bytes(entries.drop_last()) + entry_bytes(entries.last())
    }
}

/// The persisted form of a history that holds `entries`.
pub open spec fn spec_serialize_history(entries: Seq<StakeHistoryEntry>) -> Seq<u8> {
    seq![HISTORY_LAYOUT_VERSION] + spec_u64_to_le_bytes(entries.len() as u64) + entries_bytes(entries)
}

/// The record encoded in `data` from `at` on.
pub open spec fn entry_at(data: Seq<u8>, at: int) -> StakeHistoryEntry {
    StakeHistoryEntry {
        epoch: u64_at(data, at),
        effective_stake: u64_at(data, at + U64_BYTES),
        activating_stake: u64_at(data, at + 2 * U64_BYTES),
        deactivating_stake: u64_at(data, at + 3 * U64_BYTES),
    }
}

/// The `count` records encoded from `at` on.
pub open spec fn entries_at(data: Seq<u8>, at: int, count: nat) -> Seq<StakeHistoryEntry> {
    Seq::new(count, |i: int| entry_at(data, at + ENTRY_BYTES * i))
}

/// The records that `data` encodes, if it encodes a history: the version
/// is known, the length fits the number of records, the number fits the
/// window, and the epochs are consecutive.
pub open spec fn spec_deserialize_history(data: Seq<u8>) -> Option<Seq<StakeHistoryEntry>> {
    if data.len() < HISTORY_HEADER_BYTES || data[0] != HISTORY_LAYOUT_VERSION {
        None
    } else {
        let count = u64_at(data, 1);
        if count > MAX_ENTRIES || data.len() != HISTORY_HEADER_BYTES + ENTRY_BYTES * count {
            None
        } else if sequential(entries_at(data, HISTORY_HEADER_BYTES as int, count as nat)) {
            Some(entries_at(data, HISTORY_HEADER_BYTES as int, count as nat))
        } else {
            None
        }
    }
}

/// Reading back a record that stands between `before` and `after`.
pub proof fn lemma_entry_at_written(before: Seq<u8>, entry: StakeHistoryEntry, after: Seq<u8>)
    ensures
        entry_bytes(entry).len() == ENTRY_BYTES,
        entry_at(before + entry_bytes(entry) + after, before.len() as int) == entry,
{
    let data = before + entry_bytes(entry) + after;
    let epoch = spec_u64_to_le_bytes(entry.epoch);
    let effective = spec_u64_to_le_bytes(entry.effective_stake);
    let activating = spec_u64_to_le_bytes(entry.activating_stake);
    let deactivating = spec_u64_to_le_bytes(entry.deactivating_stake);
    lemma_u64_at_written(before, entry.epoch, effective + activating + deactivating + after);
    lemma_u64_at_written(before + epoch, entry.effective_stake, activating + deactivating + after);
    lemma_u64_at_written(before + epoch + effective, entry.activating_stake, deactivating + after);
    lemma_u64_at_written(before + epoch + effective + activating, entry.deactivating_stake, after);
    assert(data =~= before + epoch + (effective + activating + deactivating + after));
    assert(data =~= before + epoch + effective + (activating + deactivating + after));
    assert(data =~= before + epoch + effective + activating + (deactivating + after));
    assert(data =~= before + epoch + effective + activating + deactivating + after);
}

/// Every record takes the same number of bytes.
pub proof fn lemma_entries_bytes_len(entries: Seq<StakeHistoryEntry>)
    ensures
        entries_bytes(entries).len() == ENTRY_BYTES * entries.len(),
    decreases entries.len(),
{
    if entries.len() > 0 {
        lemma_entries_bytes_len(entries.drop_last());
        lemma_entry_at_written(Seq::empty(), entries.last(), Seq::empty());
    }
}

/// Reading back the record at `index` of records that stand between
/// `before` and `after`.
pub proof fn lemma_entries_at_written(
    before: Seq<u8>,
    entries: Seq<StakeHistoryEntry>,
    after: Seq<u8>,
    index: int,
)
    requires
        0 <= index < entries.len(),
    ensures
        entry_at(before + entries_bytes(entries) + after, before.len() + ENTRY_BYTES * index)
            == entries[index],
    decreases entries.len(),
{
    let data = before + entries_bytes(entries) + after;
    let front = entries.drop_last();
    let last = entry_bytes(entries.last());
    lemma_entries_bytes_len(front);
    if index == entries.len() - 1 {
        lemma_entry_at_written(before + entries_bytes(front), entries.last(), after);
        assert(data =~= before + entries_bytes(front) + last + after);
    } else {
        lemma_entries_at_written(before, front, last + after, index);
        assert(data =~= before + entries_bytes(front) + (last + after));
    }
}

/// Decoding the persisted form of a history gives its records back.
pub proof fn lemma_history_roundtrip(entries: Seq<StakeHistoryEntry>)
    requires
        sequential(entries),
    ensures
        spec_deserialize_history(spec_serialize_history(entries)) == Some(entries),
{
    let data = spec_serialize_history(entries);
    let version = seq![HISTORY_LAYOUT_VERSION];
    let count = spec_u64_to_le_bytes(entries.len() as u64);
    let none = Seq::<u8>::empty();
    lemma_u64_at_written(version, entries.len() as u64, entries_bytes(entries));
    lemma_entries_bytes_len(entries);
    let decoded = entries_at(data, HISTORY_HEADER_BYTES as int, entries.len());
    assert forall|i: int| 0 <= i < entries.len() implies decoded[i] == entries[i] by {
        lemma_entries_at_written(version + count, entries, none, i);
        assert(data =~= version + count + entries_bytes(entries) + none);
    }
    assert(decoded =~= entries);
}

/// Encoding the record read at `at` gives the bytes at `at` back.
pub proof fn lemma_entry_read_written(data: Seq<u8>, at: int)
    requires
        0 <= at,
        at + ENTRY_BYTES <= data.len(),
    ensures
        entry_bytes(entry_at(data, at)) == data.subrange(at, at + ENTRY_BYTES),
{
    lemma_u64_read_written(data, at);
    lemma_u64_read_written(data, at + U64_BYTES);
    lemma_u64_read_written(data, at + 2 * U64_BYTES);
    lemma_u64_read_written(data, at + 3 * U64_BYTES);
    assert(entry_bytes(entry_at(data, at)) =~= data.subrange(at, at + ENTRY_BYTES));
}

/// Encoding the `count` records read from `at` on gives the bytes from
/// `at` on back.
pub proof fn lemma_entries_read_written(data: Seq<u8>, at: int, count: nat)
    requires
        0 <= at,
        at + ENTRY_BYTES * count <= data.len(),
    ensures
        entries_bytes(entries_at(data, at, count)) == data.subrange(at, at + ENTRY_BYTES * count),
    decreases count,
{
    let entries = entries_at(data, at, count);
    if count == 0 {
        assert(entries_bytes(entries) =~= data.subrange(at, at + ENTRY_BYTES * count));
    } else {
        let fewer = (count - 1) as nat;
        lemma_entries_read_written(data, at, fewer);
        lemma_entry_read_written(data, at + ENTRY_BYTES * fewer);
        assert(entries.drop_last() =~= entries_at(data, at, fewer));
        assert(entries.last() == entry_at(data, at + ENTRY_BYTES * fewer));
        assert(entries_bytes(entries) =~= data.subrange(at, at + ENTRY_BYTES * count));
    }
}

/// Only the persisted form of a history decodes to its records: encoding
/// what a buffer decodes to gives the buffer back.
pub proof fn lemma_history_canonical(data: Seq<u8>)
    requires
        spec_deserialize_history(data) is Some,
    ensures
        spec_serialize_history(spec_deserialize_history(data)->0) == data,
{
    let entries = spec_deserialize_history(data)->0;
    lemma_u64_read_written(data, 1);
    lemma_entries_read_written(data, HISTORY_HEADER_BYTES as int, entries.len());
    assert(spec_serialize_history(entries) =~= data);
}

/// Appends the encoding of `entry` to `out`.
fn put_entry(out: &mut Vec<u8>, entry: &StakeHistoryEntry)
    ensures
        final(out)@ == old(out)@ + entry_bytes(*entry),
{
    put_u64(out, entry.epoch);
    put_u64(out, entry.effective_stake);
    put_u64(out, entry.activating_stake);
    put_u64(out, entry.deactivating_stake);
    assert(out@ =~= old(out)@ + entry_bytes(*entry));
}

/// Reads the record encoded from `at` on.
fn read_entry(data: &[u8], at: usize) -> (entry: StakeHistoryEntry)
    requires
        at + ENTRY_BYTES <= data@.len(),
    ensures
        entry == entry_at(data@, at as int),
{
    let len = data.len();
    StakeHistoryEntry {
        epoch: read_u64(data, at),
        effective_stake: read_u64(data, at + U64_BYTES),
        activating_stake: read_u64(data, at + 2 * U64_BYTES),
        deactivating_stake: read_u64(data, at + 3 * U64_BYTES),
    }
}

/// Append-only record of per-epoch stake totals.
#[derive(Debug)]
pub struct StakeHistory {
    entries: Vec<StakeHistoryEntry>,
}

impl View for StakeHistory {
    type V = Seq<StakeHistoryEntry>;

    closed spec fn view(&self) -> Seq<StakeHistoryEntry> {
        self.entries@
    }
}

impl StakeHistory {
    #[verifier::type_invariant]
    spec fn well_formed(self) -> bool {
        sequential(self.entries@)
    }

    /// An empty history.
    pub fn new() -> (history: StakeHistory)
        ensures
            history@ == Seq::<StakeHistoryEntry>::empty(),
    {
        StakeHistory { entries: Vec::new() }
    }

    /// The number of epochs retained.
    pub fn len(&self) -> (n: usize)
        ensures
            n == self@.len(),
            n <= MAX_ENTRIES,
            sequential(self@),
    {
        proof {
            use_type_invariant(self);
        }
        self.entries.len()
    }

    /// The newest epoch on record.
    pub fn latest_epoch(&self) -> (latest: Option<Epoch>)
        ensures
            self@.len() == 0 ==> latest is None,
            self@.len() > 0 ==> latest == Some(self@.last().epoch),
    {
        let n = self.entries.len();
        if n == 0 {
            None
        } else {
            Some(self.entries[n - 1].epoch)
        }
    }

    /// Records the totals of the next epoch. The entry must be for the epoch
    /// after the newest one on record; an empty history takes any epoch.
    /// When the window is full the oldest record leaves.
    pub fn append(&mut self, entry: StakeHistoryEntry) -> (result: Result<(), StakeError>)
        ensures
            continues(old(self)@, entry) ==> result is Ok && final(self)@ == appended(old(self)@, entry),
            !continues(old(self)@, entry) ==> result == Err::<(), StakeError>(StakeError::HistoryEpochGap)
                && final(self)@ == old(self)@,
            sequential(final(self)@),
    {
        proof {
            use_type_invariant(&*self);
        }
        let n = self.entries.len();
        if n > 0 {
            let newest = self.entries[n - 1].epoch;
            if newest == u64::MAX || entry.epoch != newest + 1 {
                return Err(StakeError::HistoryEpochGap);
            }
        }
        let mut entries: Vec<StakeHistoryEntry> = Vec::new();
        core::mem::swap(&mut self.entries, &mut entries);
        if n >= MAX_ENTRIES {
            entries.remove(0);
        }
        entries.push(entry);
        self.entries = entries;
        Ok(())
    }

    /// The persisted form of the history.
    pub fn serialize(&self) -> (data: Vec<u8>)
        ensures
            data@ == spec_serialize_history(self@),
    {
        proof {
            use_type_invariant(self);
        }
        let n = self.entries.len();
        let mut out: Vec<u8> = Vec::new();
        out.push(HISTORY_LAYOUT_VERSION);
        put_u64(&mut out, n as u64);
        let ghost header = out@;
        let mut i: usize = 0;
        while i < n
            invariant
                i <= n == self.entries@.len(),
                out@ == header + entries_bytes(self.entries@.take(i as int)),
            decreases n - i,
        {
            put_entry(&mut out, &self.entries[i]);
            proof {
                let grown = self.entries@.take(i + 1);
                assert(grown.drop_last() =~= self.entries@.take(i as int));
                assert(grown.last() == self.entries@[i as int]);
            }
            i += 1;
        }
        assert(self.entries@.take(n as int) =~= self.entries@);
        out
    }

    /// The history that `data` is the persisted form of, or `None` where it
    /// is the persisted form of none.
    pub fn deserialize(data: &[u8]) -> (history: Option<StakeHistory>)
        ensures
            match spec_deserialize_history(data@) {
                Some(entries) => history matches Some(h) && h@ == entries,
                None => history is None,
            },
    {
        let len = data.len();
        if len < HISTORY_HEADER_BYTES || data[0] != HISTORY_LAYOUT_VERSION {
            return None;
        }
        let count = read_u64(data, 1);
        if count > MAX_ENTRIES as u64 {
            return None;
        }
        let n = count as usize;
        if len != HISTORY_HEADER_BYTES + ENTRY_BYTES * n {
            return None;
        }
        let ghost all = entries_at(data@, HISTORY_HEADER_BYTES as int, n as nat);
        let mut entries: Vec<StakeHistoryEntry> = Vec::new();
        let mut i: usize = 0;
        while i < n
            invariant
                i <= n <= MAX_ENTRIES,
                len == data@.len(),
                len == HISTORY_HEADER_BYTES + ENTRY_BYTES * n,
                all == entries_at(data@, HISTORY_HEADER_BYTES as int, n as nat),
                entries@ == all.take(i as int),
                sequential(entries@),
            decreases n - i,
        {
            let entry = read_entry(data, HISTORY_HEADER_BYTES + ENTRY_BYTES * i);
            assert(entry == all[i as int]);
            if i > 0 {
                let newest = entries[i - 1].epoch;
                assert(newest == all[i - 1].epoch);
                if newest == u64::MAX || entry.epoch != newest + 1 {
                    assert(!sequential(all));
                    return None;
                }
            }
            entries.push(entry);
            assert(entries@ =~= all.take(i + 1));
            i += 1;
        }
        assert(all.take(n as int) =~= all);
        Some(StakeHistory { entries })
    }

    /// The record of `epoch`, or `None` where the epoch lies outside the
    /// retained window.
    pub fn get(&self, epoch: Epoch) -> (found: Option<StakeHistoryEntry>)
        ensures
            found == lookup(self@, epoch as int),
            found matches Some(entry) ==> entry.epoch == epoch,
    {
        proof {
            use_type_invariant(self);
        }
        let n = self.entries.len();
        if n == 0 {
            return None;
        }
        let first = self.entries[0].epoch;
        if epoch < first {
            return None;
        }
        let offset = epoch - first;
        if offset >= n as u64 {
            return None;
        }
        Some(self.entries[offset as usize])
    }
}

} // verus!
