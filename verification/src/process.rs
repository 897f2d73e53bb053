//! The process handle: a process id with its name, a snapshot of its heap
//! and stack regions, and at most one scan buffer.

use crate::maps::described;
use crate::maps::get_memory_chunks;
use crate::maps::hold_entries;
use crate::memory::Region;
use crate::scan::all_candidates;
use crate::scan::first_entries;
use crate::scan::narrow_changed;
use crate::scan::narrow_equal;
use crate::scan::refreshed;
use crate::scan::regions_of;
use crate::scan::scan_memory;
use crate::scan::selected;
use crate::scan::shown;
use crate::text::chars_of;
use crate::text::fields_of;
use crate::text::lines_of;
use crate::text::split_fields;
use crate::text::split_lines;
use vstd::prelude::*;
use vstd::slice::slice_subrange;
use vstd::string::StrSliceExecFns;

pub use crate::codec::ValueSize;
pub use crate::discovery::ProcessListItem;
pub use crate::error::ProcessError;
pub use crate::memory::get_raw_memory;
pub use crate::memory::Location;
pub use crate::memory::MemoryChunk;
pub use crate::memory::Variable;
pub use crate::scan::Buffer;
pub use crate::scan::BufferValue;

verus! {

/// The name of a process as its status text gives it: the last field of the
/// first line. `None` where the text has no line or its first line no field.
pub open spec fn name_in(status: Seq<char>) -> Option<Seq<char>> {
    let lines = lines_of(status);
    if lines.len() == 0 {
        None
    } else if fields_of(lines[0]).len() == 0 {
        None
    } else {
        Some(fields_of(lines[0]).last())
    }
}

/// The name of a process. `status` is its status text, or `None` where that
/// could not be read. A text that cannot be read or that gives no name is
/// `NotFoundError`.
pub fn get_name(status: Option<&str>) -> (name: Result<String, ProcessError>)
    ensures
        match name {
            Ok(text) => status matches Some(content) && name_in(content@) == Some(text@),
            Err(e) => e == ProcessError::NotFoundError && (status matches Some(content) ==> name_in(
                content@,
            ) is None),
        },
{
    let content = match status {
        Some(content) => content,
        None => {
            return Err(ProcessError::NotFoundError);
        },
    };
    let chars = chars_of(content);
    let lines = split_lines(chars.as_slice());
    if lines.len() == 0 {
        return Err(ProcessError::NotFoundError);
    }
    let (line_from, line_to) = lines[0];
    let line = slice_subrange(chars.as_slice(), line_from, line_to);
    let fields = split_fields(line);
    if fields.len() == 0 {
        return Err(ProcessError::NotFoundError);
    }
    let (from, to) = fields[fields.len() - 1];
    let text = content.substring_char(line_from + from, line_from + to);
    assert(text@ =~= line@.subrange(from as int, to as int));
    Ok(text.to_owned())
}

/// Whether two snapshots have the same regions: as many, each of the same
/// kind and at the same addresses as its counterpart.
pub open spec fn same_layout(a: Seq<Region>, b: Seq<Region>) -> bool {
    &&& a.len() == b.len()
    &&& forall|i: int|
        0 <= i < a.len() ==> (#[trigger] a[i]).location == b[i].location && a[i].start
            == b[i].start && a[i].end() == b[i].end()
}

/// Whether two snapshots have the same regions.
fn layouts_agree(a: &Vec<MemoryChunk>, b: &Vec<MemoryChunk>) -> (same: bool)
    ensures
        same == same_layout(regions_of(a@), regions_of(b@)),
{
    if a.len() != b.len() {
        return false;
    }
    let mut i: usize = 0;
    while i < a.len()
        invariant
            i <= a@.len() == b@.len(),
            forall|j: int|
                0 <= j < i ==> (#[trigger] regions_of(a@)[j]).location == regions_of(b@)[j].location
                    && regions_of(a@)[j].start == regions_of(b@)[j].start && regions_of(a@)[j].end()
                    == regions_of(b@)[j].end(),
        decreases a@.len() - i,
    {
        assert(regions_of(a@)[i as int] == a@[i as int]@);
        assert(regions_of(b@)[i as int] == b@[i as int]@);
        if a[i].location() != b[i].location() || a[i].start_adress() != b[i].start_adress()
            || a[i].end_adress() != b[i].end_adress() {
            return false;
        }
        i += 1;
    }
    true
}

/// How many addresses `get_neighbors` reads: half of them below the address
/// that it is given, half from it on.
pub const NEIGHBORS: usize = 50;

/// A process that is looked into.
#[derive(Debug)]
pub struct Process {
    /// The heap and stack regions with the bytes that they held when they
    /// were last read.
    pub memory: Vec<MemoryChunk>,
    /// The candidates of the scan in progress, if there is one.
    pub buffer: Option<Buffer>,
    pub pid: i32,
    pub name: String,
}

impl Clone for Process {
    fn clone(&self) -> (copy: Process)
        ensures
            copy.pid == self.pid,
            copy.name@ == self.name@,
            copy.regions() == self.regions(),
            copy.buffer is Some == self.buffer is Some,
            self.buffer matches Some(buffer) ==> copy.buffer->0.data@ == buffer.data@
                && copy.buffer->0.sizing == buffer.sizing,
    {
        let memory = self.memory.clone();
        assert(regions_of(memory@) =~= regions_of(self.memory@));
        let buffer = match &self.buffer {
            Some(buffer) => Some(buffer.clone()),
            None => None,
        };
        Process { memory, buffer, pid: self.pid, name: self.name.clone() }
    }
}

impl Process {
    /// The regions of the snapshot.
    pub open spec fn regions(self) -> Seq<Region> {
        regions_of(self.memory@)
    }

    /// Attaches to process `pid`. `maps` and `status` are the description of
    /// its memory map and its status text, or `None` where one could not be
    /// read. The handle holds the heap and stack regions that the map
    /// describes, with their bytes, the name that the status gives, and no
    /// scan buffer.
    pub fn attach(pid: i32, maps: Option<&str>, status: Option<&str>) -> (process: Result<
        Process,
        ProcessError,
    >)
        ensures
            match process {
                Ok(p) => {
                    &&& p.pid == pid
                    &&& p.buffer is None
                    &&& maps matches Some(map) && described(map@) matches Some(entries)
                        && hold_entries(p.memory@, entries)
                    &&& status matches Some(text) && name_in(text@) == Some(p.name@)
                },
                Err(e) => if e == ProcessError::NotFoundError {
                    maps is None || status is None || name_in(status->0@) is None
                } else {
                    e == ProcessError::UnknownError && maps is Some
                },
            },
            maps is None ==> process is Err && process->Err_0 == ProcessError::NotFoundError,
            maps matches Some(map) && described(map@) is None ==> process is Err && process->Err_0
                == ProcessError::UnknownError,
    {
        let memory = match get_memory_chunks(pid, maps) {
            Ok(memory) => memory,
            Err(e) => {
                return Err(e);
            },
        };
        let name = match get_name(status) {
            Ok(name) => name,
            Err(e) => {
                return Err(e);
            },
        };
        Ok(Process { memory, buffer: None, pid, name })
    }

    /// Replaces the snapshot by the regions as they are now. `maps` is the
    /// description of the memory map, or `None` where it could not be read.
    /// Where the regions are no longer the same, the addresses of the scan
    /// buffer mean nothing any more, and the buffer is dropped. On failure
    /// nothing changes.
    pub fn refresh_memory(&mut self, maps: Option<&str>) -> (done: Result<(), ProcessError>)
        ensures
            final(self).pid == old(self).pid,
            final(self).name == old(self).name,
            match done {
                Ok(_) => {
                    &&& maps matches Some(map) && described(map@) matches Some(entries)
                        && hold_entries(final(self).memory@, entries)
                    &&& final(self).buffer == (if same_layout(
                        old(self).regions(),
                        final(self).regions(),
                    ) {
                        old(self).buffer
                    } else {
                        None
                    })
                },
                Err(e) => {
                    &&& final(self).memory == old(self).memory
                    &&& final(self).buffer == old(self).buffer
                    &&& e == (if maps is None {
                        ProcessError::NotFoundError
                    } else {
                        ProcessError::UnknownError
                    })
                },
            },
            maps matches Some(map) && described(map@) is None ==> done is Err,
    {
        let memory = match get_memory_chunks(self.pid, maps) {
            Ok(memory) => memory,
            Err(e) => {
                return Err(e);
            },
        };
        if !layouts_agree(&self.memory, &memory) {
            self.buffer = None;
        }
        self.memory = memory;
        Ok(())
    }

    /// Drops the scan buffer.
    pub fn reset_buffer(&mut self)
        ensures
            final(self).buffer is None,
            final(self).memory == old(self).memory,
            final(self).pid == old(self).pid,
            final(self).name == old(self).name,
    {
        self.buffer = None;
    }

    /// Writes `new_value` over the variable in the memory of the process.
    pub fn write(&self, value: &Variable, new_value: usize) -> (done: Result<(), ProcessError>)
        ensures
            done matches Err(e) ==> e == ProcessError::UnknownError,
    {
        crate::memory::write_value(self.pid, value, new_value)
    }

    /// Reads the variable from the memory of the process.
    pub fn get_value(&self, value: &Variable) -> (sample: Result<u32, ProcessError>)
        ensures
            sample matches Err(e) ==> e == ProcessError::UnknownError,
    {
        crate::memory::get_value(self.pid, value)
    }

    /// Scans the snapshot for `value` at the width of `sizing` bytes. Every
    /// address whose window spells `value` becomes a candidate of the new
    /// scan buffer; the first hundred of them are handed back. A width
    /// other than 1, 2 and 4 is refused, and the scan buffer stays as it
    /// was.
    pub fn populate_buffer_with_value(&mut self, value: usize, sizing: usize) -> (found: Result<
        Vec<BufferValue>,
        String,
    >)
        ensures
            final(self).memory == old(self).memory,
            final(self).pid == old(self).pid,
            final(self).name == old(self).name,
            match ValueSize::of_width(sizing as int) {
                Some(size) => {
                    &&& final(self).buffer matches Some(buffer) && buffer.sizing == size
                        && buffer.data@ == selected(
                        all_candidates(old(self).regions(), size),
                        Some(value),
                    )
                    &&& found matches Ok(head) && head@ == shown(final(self).buffer->0.data@)
                },
                None => {
                    &&& final(self).buffer == old(self).buffer
                    &&& found matches Err(message) && message@ == "size not supported"@
                },
            },
            found matches Ok(head) ==> head@.len() <= 100,
    {
        let size = match ValueSize::try_from(sizing) {
            Ok(size) => size,
            Err(message) => {
                return Err(message);
            },
        };
        let data = scan_memory(&self.memory, size, Some(value));
        let head = first_entries(&data);
        self.buffer = Some(Buffer { data, sizing: size });
        Ok(head)
    }

    /// Fills the scan buffer with a candidate for every window of the width
    /// of `sizing` bytes in the snapshot. A width other than 1, 2 and 4 is
    /// `UnknownError`, and the scan buffer stays as it was.
    pub fn populate_buffer(&mut self, sizing: usize) -> (done: Result<(), ProcessError>)
        ensures
            final(self).memory == old(self).memory,
            final(self).pid == old(self).pid,
            final(self).name == old(self).name,
            match ValueSize::of_width(sizing as int) {
                Some(size) => {
                    &&& final(self).buffer matches Some(buffer) && buffer.sizing == size
                        && buffer.data@ == all_candidates(old(self).regions(), size)
                    &&& done is Ok
                },
                None => {
                    &&& final(self).buffer == old(self).buffer
                    &&& done == Err::<(), ProcessError>(ProcessError::UnknownError)
                },
            },
    {
        let size = match ValueSize::try_from(sizing) {
            Ok(size) => size,
            Err(_) => {
                return Err(ProcessError::UnknownError);
            },
        };
        let data = scan_memory(&self.memory, size, None);
        self.buffer = Some(Buffer { data, sizing: size });
        Ok(())
    }

    /// Samples the memory of the process at every candidate and stores the
    /// samples as the candidates' values. Without a scan buffer, and where
    /// a read fails, the call fails with `UnknownError` and nothing
    /// changes.
    pub fn update_buffer(&mut self) -> (done: Result<(), ProcessError>)
        ensures
            final(self).memory == old(self).memory,
            final(self).pid == old(self).pid,
            final(self).name == old(self).name,
            old(self).buffer is None ==> done is Err,
            old(self).buffer matches Some(before) && before.data@.len() == 0 ==> done is Ok,
            match done {
                Ok(_) => {
                    &&& old(self).buffer matches Some(before)
                    &&& final(self).buffer matches Some(after)
                    &&& after.sizing == before.sizing
                    &&& exists|samples: Seq<u32>|
                        samples.len() == before.data@.len() && after.data@ == #[trigger] refreshed(
                            before.data@,
                            samples,
                        )
                },
                Err(e) => e == ProcessError::UnknownError && final(self).buffer == old(self).buffer,
            },
    {
        match &mut self.buffer {
            Some(buffer) => {
                let samples = match buffer.sample(self.pid) {
                    Ok(samples) => samples,
                    Err(e) => {
                        return Err(e);
                    },
                };
                buffer.update(&samples)
            },
            None => Err(ProcessError::UnknownError),
        }
    }

    /// Narrows the scan buffer to `value`: the memory of the process is
    /// sampled at every candidate, and the candidates whose sample is
    /// `value` stay, with it as their value. The first hundred of them are
    /// handed back. Without a scan buffer, and where a read fails, the call
    /// fails with `UnknownError` and nothing changes.
    pub fn scan_next(&mut self, value: usize) -> (found: Result<Vec<BufferValue>, ProcessError>)
        ensures
            final(self).memory == old(self).memory,
            final(self).pid == old(self).pid,
            final(self).name == old(self).name,
            old(self).buffer is None ==> found is Err,
            old(self).buffer matches Some(before) && before.data@.len() == 0 ==> found is Ok,
            match found {
                Ok(head) => {
                    &&& old(self).buffer matches Some(before)
                    &&& final(self).buffer matches Some(after)
                    &&& after.sizing == before.sizing
                    &&& exists|samples: Seq<u32>|
                        samples.len() == before.data@.len() && after.data@
                            == #[trigger] narrow_equal(before.data@, samples, value as int)
                    &&& head@ == shown(after.data@)
                    &&& head@.len() <= 100
                },
                Err(e) => e == ProcessError::UnknownError && final(self).buffer == old(self).buffer,
            },
    {
        match &mut self.buffer {
            Some(buffer) => {
                let samples = match buffer.sample(self.pid) {
                    Ok(samples) => samples,
                    Err(e) => {
                        return Err(e);
                    },
                };
                match buffer.filter_equal(&samples, value) {
                    Ok(_) => Ok(first_entries(&buffer.data)),
                    Err(e) => Err(e),
                }
            },
            None => Err(ProcessError::UnknownError),
        }
    }

    /// Narrows the scan buffer by change: the memory of the process is
    /// sampled at every candidate, and the candidates stay whose sample
    /// differs from the value that they had, where `is_changed`, or equals
    /// it, where not; the sample becomes their value. All that stay are
    /// handed back. Without a scan buffer, and where a read fails, the call
    /// fails with `UnknownError` and nothing changes.
    pub fn expect_change(&mut self, is_changed: bool) -> (left: Result<
        Vec<BufferValue>,
        ProcessError,
    >)
        ensures
            final(self).memory == old(self).memory,
            final(self).pid == old(self).pid,
            final(self).name == old(self).name,
            old(self).buffer is None ==> left is Err,
            old(self).buffer matches Some(before) && before.data@.len() == 0 ==> left is Ok,
            match left {
                Ok(all) => {
                    &&& old(self).buffer matches Some(before)
                    &&& final(self).buffer matches Some(after)
                    &&& after.sizing == before.sizing
                    &&& exists|samples: Seq<u32>|
                        samples.len() == before.data@.len() && after.data@
                            == #[trigger] narrow_changed(before.data@, samples, is_changed)
                    &&& all@ == after.data@
                },
                Err(e) => e == ProcessError::UnknownError && final(self).buffer == old(self).buffer,
            },
    {
        match &mut self.buffer {
            Some(buffer) => {
                let samples = match buffer.sample(self.pid) {
                    Ok(samples) => samples,
                    Err(e) => {
                        return Err(e);
                    },
                };
                match buffer.filter_changed(&samples, is_changed) {
                    Ok(_) => Ok(buffer.data.clone()),
                    Err(e) => Err(e),
                }
            },
            None => Err(ProcessError::UnknownError),
        }
    }

    /// The value of every window of the width of `sizing` bytes in the
    /// snapshot, region by region and by rising address. A width other than
    /// 1, 2 and 4 is refused.
    pub fn memory_values(&self, sizing: usize) -> (values: Result<Vec<u32>, String>)
        ensures
            match ValueSize::of_width(sizing as int) {
                Some(size) => values matches Ok(list) && list@ == all_candidates(
                    self.regions(),
                    size,
                ).map_values(|entry: BufferValue| entry.value),
                None => values matches Err(message) && message@ == "size not supported"@,
            },
    {
        let size = match ValueSize::try_from(sizing) {
            Ok(size) => size,
            Err(message) => {
                return Err(message);
            },
        };
        let entries = scan_memory(&self.memory, size, None);
        let mut list: Vec<u32> = Vec::new();
        let mut i: usize = 0;
        while i < entries.len()
            invariant
                i <= entries@.len(),
                list@ == entries@.take(i as int).map_values(|entry: BufferValue| entry.value),
            decreases entries@.len() - i,
        {
            list.push(entries[i].value);
            assert(list@ =~= entries@.take(i + 1).map_values(|entry: BufferValue| entry.value));
            i += 1;
        }
        assert(entries@.take(i as int) == entries@);
        Ok(list)
    }

    /// Reads the fifty four-byte values around `offset`: those at the
    /// addresses from 25 below it up to 24 above it. Where these addresses
    /// do not all exist, and where a read fails, the call fails with
    /// `UnknownError`.
    pub fn get_neighbors(&self, offset: usize) -> (around: Result<Vec<BufferValue>, ProcessError>)
        ensures
            match around {
                Ok(list) => {
                    &&& NEIGHBORS / 2 <= offset <= usize::MAX - NEIGHBORS / 2
                    &&& list@.len() == NEIGHBORS
                    &&& forall|i: int|
                        0 <= i < NEIGHBORS ==> (#[trigger] list@[i]).offset == offset - NEIGHBORS / 2
                            + i
                },
                Err(e) => e == ProcessError::UnknownError,
            },
            offset < NEIGHBORS / 2 || offset > usize::MAX - NEIGHBORS / 2 ==> around is Err,
    {
        let half = NEIGHBORS / 2;
        if offset < half || offset > usize::MAX - half {
            return Err(ProcessError::UnknownError);
        }
        let start = offset - half;
        let mut list: Vec<BufferValue> = Vec::new();
        let mut i: usize = 0;
        while i < NEIGHBORS
            invariant
                i <= NEIGHBORS,
                half == NEIGHBORS / 2,
                start == offset - half,
                offset <= usize::MAX - half,
                list@.len() == i,
                forall|j: int| 0 <= j < i ==> (#[trigger] list@[j]).offset == start + j,
            decreases NEIGHBORS - i,
        {
            let position = start + i;
            let value = match self.get_value(&Variable { position, size: ValueSize::U32 }) {
                Ok(value) => value,
                Err(e) => {
                    return Err(e);
                },
            };
            list.push(BufferValue { offset: position, value });
            i += 1;
        }
        Ok(list)
    }
}

} // verus!
