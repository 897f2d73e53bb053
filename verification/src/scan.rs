//! The scan buffer: candidates found by sliding a window over the regions,
//! and their narrowing against fresh samples of memory.

use crate::codec::decode;
use crate::codec::decode_at;
use crate::codec::ValueSize;
use crate::error::ProcessError;
use crate::memory::get_value;
use crate::memory::MemoryChunk;
use crate::memory::Region;
use crate::memory::Variable;
use vstd::prelude::*;

verus! {

/// How many candidates a scan or a narrowing to a value hands back at most.
/// The buffer itself keeps them all.
pub const SHOWN_LIMIT: usize = 100;

/// A candidate: an address in the target's memory, and the value that was
/// seen there when it was last sampled.
#[derive(Debug, Clone, Copy, PartialEq, Eq, Structural)]
pub struct BufferValue {
    pub offset: usize,
    pub value: u32,
}

/// The candidates of a process, in the order in which the scan found them,
/// all of one width.
#[derive(Debug)]
pub struct Buffer {
    pub data: Vec<BufferValue>,
    pub sizing: ValueSize,
}

impl Clone for Buffer {
    fn clone(&self) -> (copy: Buffer)
        ensures
            copy.data@ == self.data@,
            copy.sizing == self.sizing,
    {
        let data = self.data.clone();
        assert(data@ =~= self.data@);
        Buffer { data, sizing: self.sizing }
    }
}

/// How many windows of the width fit into `len` bytes when the window moves
/// on by one byte at a time.
pub open spec fn window_count(len: int, size: ValueSize) -> int {
    if len >= size.width() {
        len - size.width() + 1
    } else {
        0
    }
}

/// The candidate for the window that starts `at` bytes into the region: its
/// address, and the value that the window spells.
pub open spec fn candidate_at(region: Region, at: int, size: ValueSize) -> BufferValue {
    BufferValue {
        offset: (region.start + at) as usize,
        value: decode(region.data.subrange(at, at + size.width()), size) as u32,
    }
}

/// One candidate for every window of the region, by rising address.
pub open spec fn region_candidates(region: Region, size: ValueSize) -> Seq<BufferValue> {
    Seq::new(
        window_count(region.data.len() as int, size) as nat,
        |at: int| candidate_at(region, at, size),
    )
}

/// `region_candidates` at a fixed width, as a function of the region.
pub open spec fn candidates_of(size: ValueSize) -> spec_fn(Region) -> Seq<BufferValue> {
    |region: Region| region_candidates(region, size)
}

/// The candidates of all the regions: those of the first region, then those
/// of the second, and so on.
pub open spec fn all_candidates(regions: Seq<Region>, size: ValueSize) -> Seq<BufferValue> {
    regions.flat_map(candidates_of(size))
}

/// Whether a candidate holds the value `target`.
pub open spec fn has_value(target: int) -> spec_fn(BufferValue) -> bool {
    |entry: BufferValue| entry.value == target
}

/// The candidates that a scan keeps: those with the value `target`, or all
/// of them where no value is asked for.
pub open spec fn selected(candidates: Seq<BufferValue>, target: Option<usize>) -> Seq<BufferValue> {
    match target {
        Some(value) => candidates.filter(has_value(value as int)),
        None => candidates,
    }
}

/// The part of the candidates that is handed back: the first hundred.
pub open spec fn shown(candidates: Seq<BufferValue>) -> Seq<BufferValue> {
    if candidates.len() <= SHOWN_LIMIT {
        candidates
    } else {
        candidates.take(SHOWN_LIMIT as int)
    }
}

/// The regions that the chunks stand for.
pub open spec fn regions_of(memory: Seq<MemoryChunk>) -> Seq<Region> {
    memory.map_values(|chunk: MemoryChunk| chunk@)
}

/// Slides the window over one region and appends to `found` what the scan
/// keeps of it.
pub fn scan_chunk(
    chunk: &MemoryChunk,
    sizing: ValueSize,
    target: Option<usize>,
    found: &mut Vec<BufferValue>,
)
    ensures
        final(found)@ == old(found)@ + selected(region_candidates(chunk@, sizing), target),
{
    let data = chunk.data();
    let start = chunk.start_adress();
    let width = sizing.byte_len();
    let ghost before = found@;
    let ghost all = region_candidates(chunk@, sizing);
    if data.len() < width {
        proof {
            assert(all =~= Seq::<BufferValue>::empty());
            if let Some(value) = target {
                reveal(Seq::filter);
            }
            assert(before + selected(all, target) =~= before);
        }
        return ;
    }
    let count = data.len() - width + 1;
    let mut at: usize = 0;
    proof {
        if let Some(value) = target {
            reveal(Seq::filter);
        }
        assert(all.take(0) =~= Seq::<BufferValue>::empty());
        assert(before + selected(all.take(0), target) =~= before);
    }
    while at < count
        invariant
            at <= count == all.len(),
            count == window_count(data@.len() as int, sizing),
            width == sizing.width(),
            data@ == chunk@.data,
            start == chunk@.start,
            chunk@.wf(),
            all == region_candidates(chunk@, sizing),
            found@ == before + selected(all.take(at as int), target),
        decreases count - at,
    {
        let value = match decode_at(data, at, sizing) {
            Some(value) => value,
            None => 0,
        };
        let entry = BufferValue { offset: start + at, value };
        proof {
            assert(entry == all[at as int]);
            all.lemma_take_succ_push(at as int);
            if let Some(wanted) = target {
                all.take(at as int).lemma_filter_push(entry, has_value(wanted as int));
            }
        }
        let keep = match target {
            Some(wanted) => value as usize == wanted,
            None => true,
        };
        if keep {
            found.push(entry);
        }
        proof {
            assert(found@ =~= before + selected(all.take(at + 1), target));
        }
        at += 1;
    }
    assert(all.take(at as int) == all);
}

/// Slides the window over every region, in order, and collects what the
/// scan keeps.
pub fn scan_memory(memory: &Vec<MemoryChunk>, sizing: ValueSize, target: Option<usize>) -> (found:
    Vec<BufferValue>)
    ensures
        found@ == selected(all_candidates(regions_of(memory@), sizing), target),
{
    let ghost regions = regions_of(memory@);
    let mut found: Vec<BufferValue> = Vec::new();
    let mut i: usize = 0;
    proof {
        if let Some(value) = target {
            reveal(Seq::filter);
        }
        assert(regions.take(0) =~= Seq::<Region>::empty());
        assert(all_candidates(regions.take(0), sizing) =~= Seq::<BufferValue>::empty());
    }
    while i < memory.len()
        invariant
            i <= memory@.len() == regions.len(),
            regions == regions_of(memory@),
            found@ == selected(all_candidates(regions.take(i as int), sizing), target),
        decreases memory@.len() - i,
    {
        proof {
            regions.lemma_flat_map_take_append(candidates_of(sizing), i as int);
            if let Some(value) = target {
                Seq::filter_distributes_over_add(
                    all_candidates(regions.take(i as int), sizing),
                    region_candidates(regions[i as int], sizing),
                    has_value(value as int),
                );
            }
        }
        scan_chunk(&memory[i], sizing, target, &mut found);
        i += 1;
    }
    assert(regions.take(i as int) == regions);
    found
}

/// The part of `entries` that is handed back: a copy of the first hundred.
pub fn first_entries(entries: &Vec<BufferValue>) -> (head: Vec<BufferValue>)
    ensures
        head@ == shown(entries@),
        head@.len() <= SHOWN_LIMIT,
{
    let n = if entries.len() <= SHOWN_LIMIT {
        entries.len()
    } else {
        SHOWN_LIMIT
    };
    let mut head: Vec<BufferValue> = Vec::new();
    let mut i: usize = 0;
    while i < n
        invariant
            i <= n <= entries@.len(),
            head@ == entries@.take(i as int),
        decreases n - i,
    {
        head.push(entries[i]);
        assert(entries@.take(i + 1) =~= entries@.take(i as int).push(entries@[i as int]));
        i += 1;
    }
    assert(entries@.take(entries@.len() as int) == entries@);
    head
}

/// The candidates with their values replaced by fresh samples, one sample
/// for each candidate, in order.
pub open spec fn refreshed(entries: Seq<BufferValue>, samples: Seq<u32>) -> Seq<BufferValue> {
    Seq::new(entries.len(), |i: int| BufferValue { offset: entries[i].offset, value: samples[i] })
}

/// What narrowing to a value leaves: the candidates whose fresh sample is
/// `target`, with that sample as their value.
pub open spec fn narrow_equal(entries: Seq<BufferValue>, samples: Seq<u32>, target: int) -> Seq<
    BufferValue,
> {
    refreshed(entries, samples).filter(has_value(target))
}

/// What narrowing by change makes of one candidate and its fresh sample:
/// the candidate stays, with the sample as its value, if the sample differs
/// from the value that it had, where a change is expected, or equals it,
/// where none is.
pub open spec fn change_verdict(expect_changed: bool) -> spec_fn((BufferValue, u32)) -> Option<
    BufferValue,
> {
    |pair: (BufferValue, u32)|
        if (pair.1 != pair.0.value) == expect_changed {
            Some(BufferValue { offset: pair.0.offset, value: pair.1 })
        } else {
            None
        }
}

/// What narrowing by change leaves: the candidates that `change_verdict`
/// keeps, in their order.
pub open spec fn narrow_changed(
    entries: Seq<BufferValue>,
    samples: Seq<u32>,
    expect_changed: bool,
) -> Seq<BufferValue> {
    entries.zip_with(samples).filter_map(change_verdict(expect_changed))
}

impl Buffer {
    /// Samples the memory of process `pid` at every candidate, in order.
    /// The samples are whatever the process holds at that moment; the first
    /// read that fails ends the sampling with its error.
    pub fn sample(&self, pid: i32) -> (samples: Result<Vec<u32>, ProcessError>)
        ensures
            samples matches Ok(values) ==> values@.len() == self.data@.len(),
            samples matches Err(e) ==> e == ProcessError::UnknownError,
            self.data@.len() == 0 ==> samples is Ok,
    {
        let mut values: Vec<u32> = Vec::new();
        let mut i: usize = 0;
        while i < self.data.len()
            invariant
                i <= self.data@.len(),
                values@.len() == i,
            decreases self.data@.len() - i,
        {
            let variable = Variable { position: self.data[i].offset, size: self.sizing };
            match get_value(pid, &variable) {
                Ok(value) => values.push(value),
                Err(e) => {
                    return Err(e);
                },
            }
            i += 1;
        }
        Ok(values)
    }

    /// Replaces the value of every candidate by its fresh sample. Without
    /// one sample for each candidate nothing changes and the call fails.
    pub fn update(&mut self, samples: &Vec<u32>) -> (done: Result<(), ProcessError>)
        ensures
            final(self).sizing == old(self).sizing,
            samples@.len() == old(self).data@.len() ==> done is Ok && final(self).data@ == refreshed(
                old(self).data@,
                samples@,
            ),
            samples@.len() != old(self).data@.len() ==> done == Err::<(), ProcessError>(
                ProcessError::UnknownError,
            ) && final(self).data@ == old(self).data@,
    {
        if samples.len() != self.data.len() {
            return Err(ProcessError::UnknownError);
        }
        let ghost before = self.data@;
        let mut i: usize = 0;
        while i < self.data.len()
            invariant
                i <= self.data@.len() == before.len() == samples@.len(),
                self.sizing == old(self).sizing,
                forall|j: int| 0 <= j < i ==> self.data@[j] == refreshed(before, samples@)[j],
                forall|j: int| i <= j < before.len() ==> self.data@[j] == before[j],
            decreases self.data@.len() - i,
        {
            let entry = BufferValue { offset: self.data[i].offset, value: samples[i] };
            self.data.set(i, entry);
            i += 1;
        }
        assert(self.data@ =~= refreshed(before, samples@));
        Ok(())
    }

    /// Narrows to a value: samples replace the values, and only candidates
    /// whose sample is `target` stay. Without one sample for each candidate
    /// nothing changes and the call fails.
    pub fn filter_equal(&mut self, samples: &Vec<u32>, target: usize) -> (done: Result<
        (),
        ProcessError,
    >)
        ensures
            final(self).sizing == old(self).sizing,
            samples@.len() == old(self).data@.len() ==> done is Ok && final(self).data@
                == narrow_equal(old(self).data@, samples@, target as int),
            samples@.len() != old(self).data@.len() ==> done == Err::<(), ProcessError>(
                ProcessError::UnknownError,
            ) && final(self).data@ == old(self).data@,
    {
        if samples.len() != self.data.len() {
            return Err(ProcessError::UnknownError);
        }
        let ghost fresh = refreshed(self.data@, samples@);
        let mut kept: Vec<BufferValue> = Vec::new();
        let mut i: usize = 0;
        proof {
            reveal(Seq::filter);
            assert(fresh.take(0) =~= Seq::<BufferValue>::empty());
        }
        while i < self.data.len()
            invariant
                i <= self.data@.len() == samples@.len() == fresh.len(),
                fresh == refreshed(self.data@, samples@),
                kept@ == fresh.take(i as int).filter(has_value(target as int)),
            decreases self.data@.len() - i,
        {
            let entry = BufferValue { offset: self.data[i].offset, value: samples[i] };
            proof {
                fresh.lemma_take_succ_push(i as int);
                fresh.take(i as int).lemma_filter_push(entry, has_value(target as int));
            }
            if entry.value as usize == target {
                kept.push(entry);
            }
            i += 1;
        }
        assert(fresh.take(i as int) == fresh);
        self.data = kept;
        Ok(())
    }

    /// Narrows by change: samples replace the values, and only candidates
    /// stay whose sample differs from the value that they had, or, where no
    /// change is expected, equals it. Without one sample for each candidate
    /// nothing changes and the call fails.
    pub fn filter_changed(&mut self, samples: &Vec<u32>, expect_changed: bool) -> (done: Result<
        (),
        ProcessError,
    >)
        ensures
            final(self).sizing == old(self).sizing,
            samples@.len() == old(self).data@.len() ==> done is Ok && final(self).data@
                == narrow_changed(old(self).data@, samples@, expect_changed),
            samples@.len() != old(self).data@.len() ==> done == Err::<(), ProcessError>(
                ProcessError::UnknownError,
            ) && final(self).data@ == old(self).data@,
    {
        if samples.len() != self.data.len() {
            return Err(ProcessError::UnknownError);
        }
        let ghost pairs = self.data@.zip_with(samples@);
        let mut kept: Vec<BufferValue> = Vec::new();
        let mut i: usize = 0;
        proof {
            assert(pairs.take(0) =~= Seq::<(BufferValue, u32)>::empty());
        }
        while i < self.data.len()
            invariant
                i <= self.data@.len() == samples@.len() == pairs.len(),
                pairs == self.data@.zip_with(samples@),
                kept@ == pairs.take(i as int).filter_map(change_verdict(expect_changed)),
            decreases self.data@.len() - i,
        {
            let old_value = self.data[i].value;
            let sample = samples[i];
            proof {
                assert(pairs[i as int] == (self.data@[i as int], sample));
                pairs.lemma_filter_map_take_succ(change_verdict(expect_changed), i as int);
            }
            if (sample != old_value) == expect_changed {
                kept.push(BufferValue { offset: self.data[i].offset, value: sample });
            }
            i += 1;
        }
        assert(pairs.take(i as int) == pairs);
        self.data = kept;
        Ok(())
    }
}

/// A candidate of all the regions is a candidate of one of them.
pub proof fn lemma_candidate_has_region(regions: Seq<Region>, size: ValueSize, entry: BufferValue)
    requires
        all_candidates(regions, size).contains(entry),
    ensures
        exists|which: int|
            0 <= which < regions.len() && #[trigger] region_candidates(
                regions[which],
                size,
            ).contains(entry),
    decreases regions.len(),
{
    broadcast use vstd::seq_lib::group_seq_properties;

    if regions.len() == 0 {
        assert(all_candidates(regions, size) =~= Seq::<BufferValue>::empty());
    } else {
        let front = regions.drop_last();
        let last = regions.last();
        assert(regions == front.push(last));
        front.lemma_flat_map_push(candidates_of(size), last);
        if region_candidates(last, size).contains(entry) {
            assert(region_candidates(regions[regions.len() - 1], size).contains(entry));
        } else {
            lemma_candidate_has_region(front, size, entry);
            let which = choose|which: int|
                0 <= which < front.len() && #[trigger] region_candidates(
                    front[which],
                    size,
                ).contains(entry);
            assert(region_candidates(regions[which], size).contains(entry));
        }
    }
}

/// A candidate of one of the regions is a candidate of all the regions.
pub proof fn lemma_region_candidate_is_candidate(
    regions: Seq<Region>,
    which: int,
    size: ValueSize,
    entry: BufferValue,
)
    requires
        0 <= which < regions.len(),
        region_candidates(regions[which], size).contains(entry),
    ensures
        all_candidates(regions, size).contains(entry),
    decreases regions.len(),
{
    broadcast use vstd::seq_lib::group_seq_properties;

    let front = regions.drop_last();
    let last = regions.last();
    assert(regions == front.push(last));
    front.lemma_flat_map_push(candidates_of(size), last);
    if which < front.len() {
        lemma_region_candidate_is_candidate(front, which, size, entry);
    }
}

/// A value scan finds a value where it stands: if the window that starts
/// `at` bytes into one of the regions spells a value, the scan for that
/// value keeps the candidate of that window.
pub proof fn lemma_scan_finds_value(regions: Seq<Region>, which: int, at: int, size: ValueSize)
    requires
        0 <= which < regions.len(),
        0 <= at,
        at + size.width() <= regions[which].data.len(),
    ensures
        selected(
            all_candidates(regions, size),
            Some(candidate_at(regions[which], at, size).value as usize),
        ).contains(candidate_at(regions[which], at, size)),
{
    let entry = candidate_at(regions[which], at, size);
    let all = all_candidates(regions, size);
    assert(region_candidates(regions[which], size)[at] == entry);
    lemma_region_candidate_is_candidate(regions, which, size, entry);
    let i = choose|i: int| 0 <= i < all.len() && all[i] == entry;
    all.lemma_filter_contains(has_value(entry.value as int), i);
}

/// Whether no two of the regions share an address.
pub open spec fn apart(regions: Seq<Region>) -> bool {
    forall|i: int, j: int|
        0 <= i < regions.len() && 0 <= j < regions.len() && i != j ==> (#[trigger] regions[i]).end()
            <= (#[trigger] regions[j]).start || regions[j].end() <= regions[i].start
}

/// A value scan keeps no address where another value stands: if the window
/// that starts `at` bytes into one of the regions spells a value other than
/// `target`, the scan for `target` keeps no candidate at the address of
/// that window. The regions are those of one address space: well formed, and
/// no two of them share an address.
pub proof fn lemma_scan_skips_other_value(
    regions: Seq<Region>,
    which: int,
    at: int,
    size: ValueSize,
    target: usize,
)
    requires
        forall|i: int| 0 <= i < regions.len() ==> (#[trigger] regions[i]).wf(),
        apart(regions),
        0 <= which < regions.len(),
        0 <= at,
        at + size.width() <= regions[which].data.len(),
        candidate_at(regions[which], at, size).value != target,
    ensures
        forall|entry: BufferValue|
            selected(all_candidates(regions, size), Some(target)).contains(entry) ==> entry.offset
                != regions[which].start + at,
{
    let all = all_candidates(regions, size);
    let kept = selected(all, Some(target));
    assert forall|entry: BufferValue| kept.contains(entry) implies entry.offset != regions[which].start
        + at by {
        let k = choose|k: int| 0 <= k < kept.len() && kept[k] == entry;
        all.lemma_filter_pred(has_value(target as int), k);
        all.lemma_filter_contains_rev(has_value(target as int), entry);
        lemma_candidate_has_region(regions, size, entry);
        let other = choose|other: int|
            0 <= other < regions.len() && #[trigger] region_candidates(
                regions[other],
                size,
            ).contains(entry);
        let found = region_candidates(regions[other], size);
        let i = choose|i: int| 0 <= i < found.len() && found[i] == entry;
        assert(entry == candidate_at(regions[other], i, size));
        assert(regions[other].wf());
        assert(regions[which].wf());
        if entry.offset == regions[which].start + at {
            assert(other == which);
            assert(i == at);
        }
    }
}

/// After a narrowing to a value every candidate holds that value.
pub proof fn lemma_narrow_equal_values(entries: Seq<BufferValue>, samples: Seq<u32>, target: int)
    ensures
        forall|i: int|
            0 <= i < narrow_equal(entries, samples, target).len() ==> (#[trigger] narrow_equal(
                entries,
                samples,
                target,
            )[i]).value == target,
{
    let fresh = refreshed(entries, samples);
    assert forall|i: int| 0 <= i < narrow_equal(entries, samples, target).len() implies (
    #[trigger] narrow_equal(entries, samples, target)[i]).value == target by {
        fresh.lemma_filter_pred(has_value(target), i);
    }
}

/// Where every sample equals the value that its candidate had, a narrowing
/// that expects a change leaves nothing, and one that expects none leaves
/// every candidate as it was.
pub proof fn lemma_same_samples(entries: Seq<BufferValue>, samples: Seq<u32>)
    requires
        samples.len() == entries.len(),
        forall|i: int| 0 <= i < entries.len() ==> samples[i] == (#[trigger] entries[i]).value,
    ensures
        narrow_changed(entries, samples, true) == Seq::<BufferValue>::empty(),
        narrow_changed(entries, samples, false) == entries,
    decreases entries.len(),
{
    if entries.len() > 0 {
        let pairs = entries.zip_with(samples);
        assert(pairs.drop_last() =~= entries.drop_last().zip_with(samples.drop_last()));
        assert(pairs.last() == (entries.last(), samples.last()));
        lemma_same_samples(entries.drop_last(), samples.drop_last());
        assert(narrow_changed(entries, samples, false) =~= entries);
    } else {
        assert(narrow_changed(entries, samples, false) =~= entries);
    }
}

/// Where one sample differs from the value that its candidate had and every
/// other sample equals it, a narrowing that expects a change leaves exactly
/// that candidate, with the sample as its value.
pub proof fn lemma_one_changed_sample(entries: Seq<BufferValue>, samples: Seq<u32>, changed: int)
    requires
        samples.len() == entries.len(),
        0 <= changed < entries.len(),
        samples[changed] != entries[changed].value,
        forall|i: int|
            0 <= i < entries.len() && i != changed ==> samples[i] == (#[trigger] entries[i]).value,
    ensures
        narrow_changed(entries, samples, true) == seq![
            BufferValue { offset: entries[changed].offset, value: samples[changed] },
        ],
    decreases entries.len(),
{
    let pairs = entries.zip_with(samples);
    assert(pairs.drop_last() =~= entries.drop_last().zip_with(samples.drop_last()));
    assert(pairs.last() == (entries.last(), samples.last()));
    if changed == entries.len() - 1 {
        lemma_same_samples(entries.drop_last(), samples.drop_last());
        assert(narrow_changed(entries, samples, true) =~= seq![
            BufferValue { offset: entries[changed].offset, value: samples[changed] },
        ]);
    } else {
        lemma_one_changed_sample(entries.drop_last(), samples.drop_last(), changed);
    }
}

/// Candidates that were narrowed to a value, and whose memory still holds
/// what was sampled then, do not survive a narrowing that expects a change.
pub proof fn lemma_narrowing_without_change(
    entries: Seq<BufferValue>,
    first: Seq<u32>,
    target: int,
    second: Seq<u32>,
)
    requires
        first.len() == entries.len(),
        second.len() == narrow_equal(entries, first, target).len(),
        forall|i: int| 0 <= i < second.len() ==> second[i] == target,
    ensures
        narrow_changed(narrow_equal(entries, first, target), second, true) == Seq::<
            BufferValue,
        >::empty(),
{
    lemma_narrow_equal_values(entries, first, target);
    lemma_same_samples(narrow_equal(entries, first, target), second);
}

/// Candidates that were narrowed to a value, one of which has since been
/// given another value in memory while the others hold what was sampled,
/// are narrowed to exactly that one by a narrowing that expects a change.
pub proof fn lemma_narrowing_with_one_change(
    entries: Seq<BufferValue>,
    first: Seq<u32>,
    target: int,
    second: Seq<u32>,
    changed: int,
)
    requires
        first.len() == entries.len(),
        second.len() == narrow_equal(entries, first, target).len(),
        0 <= changed < second.len(),
        second[changed] != target,
        forall|i: int| 0 <= i < second.len() && i != changed ==> second[i] == target,
    ensures
        narrow_changed(narrow_equal(entries, first, target), second, true) == seq![
            BufferValue {
                offset: narrow_equal(entries, first, target)[changed].offset,
                value: second[changed],
            },
        ],
{
    lemma_narrow_equal_values(entries, first, target);
    lemma_one_changed_sample(narrow_equal(entries, first, target), second, changed);
}

/// Whether `from` says where each candidate of `after` stood in `before`:
/// at an index of `before` with the same address, later candidates at
/// later indices.
pub open spec fn picks(before: Seq<BufferValue>, after: Seq<BufferValue>, from: Seq<int>) -> bool {
    &&& from.len() == after.len()
    &&& forall|j: int|
        0 <= j < from.len() ==> 0 <= #[trigger] from[j] < before.len() && after[j].offset
            == before[from[j]].offset
    &&& forall|j: int, k: int| 0 <= j < k < from.len() ==> #[trigger] from[j] < #[trigger] from[k]
}

/// Whether `after` is `before` with candidates taken away: it keeps
/// addresses of `before` only, each at most once, in their order.
pub open spec fn thinned(before: Seq<BufferValue>, after: Seq<BufferValue>) -> bool {
    exists|from: Seq<int>| picks(before, after, from)
}

/// Where the candidates that a narrowing by change leaves stood before.
proof fn lemma_changed_picks(entries: Seq<BufferValue>, samples: Seq<u32>, expect_changed: bool) -> (from:
    Seq<int>)
    requires
        samples.len() == entries.len(),
    ensures
        picks(entries, narrow_changed(entries, samples, expect_changed), from),
    decreases entries.len(),
{
    if entries.len() == 0 {
        Seq::empty()
    } else {
        let pairs = entries.zip_with(samples);
        let front = entries.drop_last();
        assert(pairs.drop_last() =~= front.zip_with(samples.drop_last()));
        assert(pairs.last() == (entries.last(), samples.last()));
        let before = lemma_changed_picks(front, samples.drop_last(), expect_changed);
        if change_verdict(expect_changed)(pairs.last()) is Some {
            before.push(entries.len() - 1)
        } else {
            before
        }
    }
}

/// Where the candidates that a narrowing to a value leaves stood before.
proof fn lemma_equal_picks(entries: Seq<BufferValue>, samples: Seq<u32>, target: int) -> (from: Seq<
    int,
>)
    requires
        samples.len() == entries.len(),
    ensures
        picks(entries, narrow_equal(entries, samples, target), from),
    decreases entries.len(),
{
    reveal(Seq::filter);
    if entries.len() == 0 {
        Seq::empty()
    } else {
        let fresh = refreshed(entries, samples);
        let front = entries.drop_last();
        assert(fresh.drop_last() =~= refreshed(front, samples.drop_last()));
        let before = lemma_equal_picks(front, samples.drop_last(), target);
        if has_value(target)(fresh.last()) {
            before.push(entries.len() - 1)
        } else {
            before
        }
    }
}

/// Narrowing only takes candidates away: what it leaves are candidates
/// that were there, at their addresses and in their order.
pub proof fn lemma_narrowing_thins(
    entries: Seq<BufferValue>,
    samples: Seq<u32>,
    target: int,
    expect_changed: bool,
)
    requires
        samples.len() == entries.len(),
    ensures
        thinned(entries, narrow_equal(entries, samples, target)),
        thinned(entries, narrow_changed(entries, samples, expect_changed)),
        narrow_equal(entries, samples, target).len() <= entries.len(),
        narrow_changed(entries, samples, expect_changed).len() <= entries.len(),
{
    let a = lemma_equal_picks(entries, samples, target);
    let b = lemma_changed_picks(entries, samples, expect_changed);
    lemma_picks_len(entries, narrow_equal(entries, samples, target), a);
    lemma_picks_len(entries, narrow_changed(entries, samples, expect_changed), b);
}

/// Candidates that are picked out of others are no more than those.
proof fn lemma_picks_len(before: Seq<BufferValue>, after: Seq<BufferValue>, from: Seq<int>)
    requires
        picks(before, after, from),
    ensures
        after.len() <= before.len(),
    decreases after.len(),
{
    if after.len() > 0 {
        let n = after.len() - 1;
        assert forall|j: int| 0 <= j < n implies 0 <= #[trigger] from.drop_last()[j] < from[n] by {
            assert(from.drop_last()[j] == from[j]);
        }
        lemma_picks_len(before.take(from[n]), after.drop_last(), from.drop_last());
    }
}

} // verus!
