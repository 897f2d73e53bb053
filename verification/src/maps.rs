//! The region enumerator: reads the description of a process's memory map
//! and materialises the bytes of its heap and stack regions.

use crate::error::ProcessError;
use crate::memory::get_raw_memory;
use crate::memory::Location;
use crate::memory::MemoryChunk;
use crate::text::after_last;
use crate::text::chars_of;
use crate::text::cuts;
use crate::text::find_after_last;
use crate::text::find_first;
use crate::text::first_in;
use crate::text::lines_of;
use crate::text::parse_unsigned;
use crate::text::same_text;
use crate::text::split_lines;
use crate::text::unsigned_of;
use crate::text::within;
use crate::text::CharClass;
use crate::text::Radix;
use vstd::prelude::*;
use vstd::slice::slice_subrange;

verus! {

/// A heap or stack region as the map describes it: its kind and the
/// addresses of its first byte and after its last.
#[derive(Debug, Clone, Copy, PartialEq, Eq, Structural)]
pub struct MapEntry {
    pub location: Location,
    pub start_adress: usize,
    pub end_adress: usize,
}

/// What one line of the map says.
#[derive(Debug, Clone, Copy, PartialEq, Eq, Structural)]
pub enum MapLine {
    /// A heap or stack region.
    Entry(MapEntry),
    /// A region of another kind, which is passed over.
    Skipped,
    /// Not a line of a memory map.
    Malformed,
}

/// The kind of region that a label names: the heap and the stack have one.
pub open spec fn location_of(label: Seq<char>) -> Option<Location> {
    if label == "[heap]"@ {
        Some(Location::Heap)
    } else if label == "[stack]"@ {
        Some(Location::Stack)
    } else {
        None
    }
}

/// What the line says. Its first field, up to the first blank, is the
/// range: two hexadecimal addresses with a `-` between them. What follows
/// its last blank is the label. A line without a blank, or without a `-` in
/// its first field, is malformed. A line whose label names neither the heap
/// nor the stack is passed over, whatever its range. Of a heap or stack line
/// both addresses must be numbers that fit an address, the first below the
/// second.
pub open spec fn map_line(line: Seq<char>) -> MapLine {
    let range_end = first_in(line, 0, CharClass::Is(' '));
    let dash = first_in(line, 0, CharClass::Is('-'));
    let label = line.skip(after_last(line, CharClass::Is(' ')));
    if range_end >= line.len() || dash >= range_end {
        MapLine::Malformed
    } else {
        match location_of(label) {
            None => MapLine::Skipped,
            Some(location) => {
                let start = within(unsigned_of(line.subrange(0, dash), Radix::Hex), usize::MAX as int);
                let end = within(
                    unsigned_of(line.subrange(dash + 1, range_end), Radix::Hex),
                    usize::MAX as int,
                );
                if start is Some && end is Some && start->0 < end->0 {
                    MapLine::Entry(
                        MapEntry {
                            location,
                            start_adress: start->0 as usize,
                            end_adress: end->0 as usize,
                        },
                    )
                } else {
                    MapLine::Malformed
                }
            },
        }
    }
}

/// The region that the line describes, if it describes one.
pub open spec fn entry_of() -> spec_fn(Seq<char>) -> Option<MapEntry> {
    |line: Seq<char>|
        match map_line(line) {
            MapLine::Entry(entry) => Some(entry),
            _ => None,
        }
}

/// Whether none of the lines is malformed.
pub open spec fn sound(lines: Seq<Seq<char>>) -> bool {
    forall|i: int| 0 <= i < lines.len() ==> !(map_line(#[trigger] lines[i]) is Malformed)
}

/// The heap and stack regions that a map describes, in the order of its
/// lines; `None` where a line is malformed or no line describes one.
pub open spec fn described(content: Seq<char>) -> Option<Seq<MapEntry>> {
    let lines = lines_of(content);
    let entries = lines.filter_map(entry_of());
    if sound(lines) && entries.len() > 0 {
        Some(entries)
    } else {
        None
    }
}

/// Reads one line of the map.
pub fn parse_line(line: &[char]) -> (said: MapLine)
    ensures
        said == map_line(line@),
{
    let n = line.len();
    let range_end = find_first(line, 0, CharClass::Is(' '));
    let dash = find_first(line, 0, CharClass::Is('-'));
    if range_end >= n || dash >= range_end {
        return MapLine::Malformed;
    }
    let label_start = find_after_last(line, CharClass::Is(' '));
    let label = slice_subrange(line, label_start, n);
    assert(label@ == line@.skip(label_start as int));
    let location = if same_text(label, "[heap]") {
        Location::Heap
    } else if same_text(label, "[stack]") {
        Location::Stack
    } else {
        return MapLine::Skipped;
    };
    let limit: u64 = usize::MAX as u64;
    let start = parse_unsigned(slice_subrange(line, 0, dash), Radix::Hex, limit);
    let end = parse_unsigned(slice_subrange(line, dash + 1, range_end), Radix::Hex, limit);
    match (start, end) {
        (Some(start), Some(end)) => {
            if start < end {
                MapLine::Entry(
                    MapEntry { location, start_adress: start as usize, end_adress: end as usize },
                )
            } else {
                MapLine::Malformed
            }
        },
        _ => MapLine::Malformed,
    }
}

/// Reads the description of a memory map: its heap and stack regions in the
/// order of its lines. A malformed line, and a map without any heap or
/// stack region, are `UnknownError`.
pub fn parse_maps(content: &str) -> (entries: Result<Vec<MapEntry>, ProcessError>)
    ensures
        match entries {
            Ok(found) => described(content@) == Some(found@),
            Err(e) => e == ProcessError::UnknownError && described(content@) is None,
        },
{
    let chars = chars_of(content);
    let spans = split_lines(chars.as_slice());
    let ghost lines = lines_of(content@);
    let mut found: Vec<MapEntry> = Vec::new();
    let mut i: usize = 0;
    assert(lines.take(0) =~= Seq::<Seq<char>>::empty());
    while i < spans.len()
        invariant
            i <= spans@.len() == lines.len(),
            chars@ == content@,
            lines == lines_of(content@),
            cuts(chars@, spans@, lines),
            sound(lines.take(i as int)),
            found@ == lines.take(i as int).filter_map(entry_of()),
        decreases spans@.len() - i,
    {
        let (from, to) = spans[i];
        let line = slice_subrange(chars.as_slice(), from, to);
        assert(line@ == lines[i as int]);
        let said = parse_line(line);
        proof {
            lines.lemma_filter_map_take_succ(entry_of(), i as int);
            lines.lemma_take_succ_push(i as int);
        }
        match said {
            MapLine::Entry(entry) => {
                found.push(entry);
            },
            MapLine::Skipped => {},
            MapLine::Malformed => {
                return Err(ProcessError::UnknownError);
            },
        }
        assert forall|j: int| 0 <= j < i + 1 implies !(map_line(
            #[trigger] lines.take(i + 1)[j],
        ) is Malformed) by {
            if j < i {
                assert(lines.take(i + 1)[j] == lines.take(i as int)[j]);
            }
        }
        i += 1;
    }
    assert(lines.take(i as int) == lines);
    if found.len() == 0 {
        return Err(ProcessError::UnknownError);
    }
    Ok(found)
}

/// Whether the chunk is the region that the entry describes, with all of
/// its bytes.
pub open spec fn holds_entry(chunk: MemoryChunk, entry: MapEntry) -> bool {
    &&& chunk@.location == entry.location
    &&& chunk@.start == entry.start_adress
    &&& chunk@.end() == entry.end_adress
}

/// Whether the chunks are the regions that the entries describe, one for
/// one.
pub open spec fn hold_entries(memory: Seq<MemoryChunk>, entries: Seq<MapEntry>) -> bool {
    &&& memory.len() == entries.len()
    &&& forall|i: int| 0 <= i < memory.len() ==> holds_entry(#[trigger] memory[i], entries[i])
}

/// The heap and stack regions of process `pid`, with their bytes, read at
/// once. `maps` is the description of its memory map, or `None` where that
/// could not be read, which is `NotFoundError`. A description that is
/// malformed or names no heap or stack region is `UnknownError`, and so is
/// a region whose bytes cannot all be read.
pub fn get_memory_chunks(pid: i32, maps: Option<&str>) -> (memory: Result<
    Vec<MemoryChunk>,
    ProcessError,
>)
    ensures
        maps is None ==> memory == Err::<Vec<MemoryChunk>, ProcessError>(
            ProcessError::NotFoundError,
        ),
        maps matches Some(content) ==> match memory {
            Ok(chunks) => described(content@) matches Some(entries) && hold_entries(
                chunks@,
                entries,
            ),
            Err(e) => e == ProcessError::UnknownError,
        },
        maps matches Some(content) && described(content@) is None ==> memory is Err,
{
    let content = match maps {
        Some(content) => content,
        None => {
            return Err(ProcessError::NotFoundError);
        },
    };
    let entries = match parse_maps(content) {
        Ok(entries) => entries,
        Err(e) => {
            return Err(e);
        },
    };
    let mut memory: Vec<MemoryChunk> = Vec::new();
    let mut i: usize = 0;
    while i < entries.len()
        invariant
            i <= entries@.len(),
            maps == Some(content),
            described(content@) == Some(entries@),
            hold_entries(memory@, entries@.take(i as int)),
        decreases entries@.len() - i,
    {
        let entry = entries[i];
        proof {
            lemma_described_entries(content@, i as int);
        }
        let data = match get_raw_memory(pid, entry.start_adress, entry.end_adress) {
            Ok(data) => data,
            Err(e) => {
                return Err(e);
            },
        };
        let chunk = match MemoryChunk::new(entry.location, entry.start_adress, data) {
            Some(chunk) => chunk,
            None => {
                return Err(ProcessError::UnknownError);
            },
        };
        assert(holds_entry(chunk, entry));
        memory.push(chunk);
        assert forall|j: int| 0 <= j < memory@.len() implies holds_entry(
            #[trigger] memory@[j],
            entries@.take(i + 1)[j],
        ) by {
            if j < i {
                assert(entries@.take(i + 1)[j] == entries@.take(i as int)[j]);
            }
        }
        i += 1;
    }
    assert(entries@.take(i as int) == entries@);
    Ok(memory)
}

/// Every region that a map describes starts below its end.
pub proof fn lemma_described_entries(content: Seq<char>, i: int)
    requires
        described(content) is Some,
        0 <= i < described(content)->0.len(),
    ensures
        described(content)->0[i].start_adress < described(content)->0[i].end_adress,
{
    let lines = lines_of(content);
    let entries = lines.filter_map(entry_of());
    broadcast use Seq::lemma_filter_map_contains;

    assert(entries.contains(entries[i]));
}

/// A map none of whose lines describes a heap or stack region describes no
/// regions at all: to read it is an error, not an empty success.
pub proof fn lemma_map_without_regions(content: Seq<char>)
    requires
        forall|i: int|
            0 <= i < lines_of(content).len() ==> !(map_line(#[trigger] lines_of(content)[i])
                is Entry),
    ensures
        described(content) is None,
{
    let lines = lines_of(content);
    let entries = lines.filter_map(entry_of());
    if entries.len() > 0 {
        assert(entries.contains(entries[0]));
        lines.lemma_filter_map_contains(entry_of(), entries[0]);
        let line = choose|line: Seq<char>| #[trigger]
            lines.contains(line) && entry_of()(line) == Some(entries[0]);
        let i = choose|i: int| 0 <= i < lines.len() && lines[i] == line;
        assert(map_line(lines[i]) is Entry);
    }
}

} // verus!
