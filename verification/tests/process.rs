use bytes::Bytes;
use cheat_toolkit::codec::ValueSize;
use cheat_toolkit::memory::Location;
use cheat_toolkit::memory::MemoryChunk;
use cheat_toolkit::memory::Variable;
use cheat_toolkit::process::get_name;
use cheat_toolkit::process::NEIGHBORS;
use cheat_toolkit::scan::Buffer;
use cheat_toolkit::scan::BufferValue;
use cheat_toolkit::Process;
use cheat_toolkit::ProcessError;

fn own_pid() -> i32 {
    nix::unistd::getpid().as_raw()
}

fn address_of(bytes: &[u8]) -> usize {
    let text = format!("{:p}", &bytes[0]);
    usize::from_str_radix(text.trim_start_matches("0x"), 16).unwrap()
}

fn heap_line(start: usize, len: usize) -> String {
    format!("{:x}-{:x} rw-p 00000000 00:00 0                          [heap]\n", start, start + len)
}

fn chunk(start: usize, bytes: &[u8]) -> MemoryChunk {
    MemoryChunk::new(Location::Heap, start, Bytes::from(bytes.to_vec())).unwrap()
}

fn entry(offset: usize, value: u32) -> BufferValue {
    BufferValue { offset, value }
}

fn snapshot(memory: Vec<MemoryChunk>) -> Process {
    Process { memory, buffer: None, pid: own_pid(), name: String::from("game") }
}

fn entries_of(process: &Process) -> Vec<BufferValue> {
    process.buffer.as_ref().unwrap().data.clone()
}

#[test]
fn name_is_the_last_field_of_the_first_line() {
    assert_eq!(get_name(Some("Name:\tbash\nUmask:\t0022\nState:\tS (sleeping)\n")), Ok(String::from("bash")));
    assert_eq!(get_name(Some("Name:\tWeb Content\n")), Ok(String::from("Content")));
    assert_eq!(get_name(Some("solo")), Ok(String::from("solo")));
    assert_eq!(get_name(Some("  a  b  \r\nc")), Ok(String::from("b")));
    assert_eq!(get_name(Some("Name:\tjeu\u{00A0}é\n")), Ok(String::from("é")));
}

#[test]
fn name_that_is_missing_is_not_found() {
    assert_eq!(get_name(None), Err(ProcessError::NotFoundError));
    assert_eq!(get_name(Some("")), Err(ProcessError::NotFoundError));
    assert_eq!(get_name(Some("\nName:\tbash\n")), Err(ProcessError::NotFoundError));
    assert_eq!(get_name(Some("   \t \nName:\tbash\n")), Err(ProcessError::NotFoundError));
}

#[test]
fn attach_reads_regions_and_name() {
    let heap: Vec<u8> = (0..48).collect();
    let at = address_of(&heap);
    let maps = heap_line(at, 48);
    let process = Process::attach(own_pid(), Some(&maps), Some("Name:\tgame\n")).unwrap();
    assert_eq!(process.pid, own_pid());
    assert_eq!(process.name, "game");
    assert!(process.buffer.is_none());
    assert_eq!(process.memory.len(), 1);
    assert_eq!(process.memory[0].location(), Location::Heap);
    assert_eq!(process.memory[0].start_adress(), at);
    assert_eq!(process.memory[0].end_adress(), at + 48);
    assert_eq!(process.memory[0].data(), heap.as_slice());
}

#[test]
fn attach_without_a_map_is_not_found() {
    let outcome = Process::attach(own_pid(), None, Some("Name:\tgame\n"));
    assert!(matches!(outcome, Err(ProcessError::NotFoundError)));
}

#[test]
fn attach_without_heap_or_stack_is_unknown_error() {
    let outcome = Process::attach(own_pid(), Some("1000-2000 r-xp 0 08:01 7 /usr/bin/game\n"), Some("Name:\tgame\n"));
    assert!(matches!(outcome, Err(ProcessError::UnknownError)));
}

#[test]
fn attach_without_a_name_is_not_found() {
    let heap: Vec<u8> = vec![1; 16];
    let maps = heap_line(address_of(&heap), 16);
    let outcome = Process::attach(own_pid(), Some(&maps), None);
    assert!(matches!(outcome, Err(ProcessError::NotFoundError)));
    let outcome = Process::attach(own_pid(), Some(&maps), Some(""));
    assert!(matches!(outcome, Err(ProcessError::NotFoundError)));
    assert_eq!(heap.len(), 16);
}

#[test]
fn refresh_reads_the_regions_again() {
    let heap: Vec<u8> = vec![0; 16];
    let at = address_of(&heap);
    let maps = heap_line(at, 16);
    let mut process = Process::attach(own_pid(), Some(&maps), Some("Name:\tgame\n")).unwrap();
    assert_eq!(process.memory[0].data(), &[0; 16]);
    let variable = Variable { position: at + 4, size: ValueSize::U32 };
    assert_eq!(process.write(&variable, 0x0403_0201), Ok(()));
    assert_eq!(process.memory[0].data(), &[0; 16]);
    assert_eq!(process.refresh_memory(Some(&maps)), Ok(()));
    assert_eq!(process.memory[0].data(), &[0, 0, 0, 0, 1, 2, 3, 4, 0, 0, 0, 0, 0, 0, 0, 0]);
    assert_eq!(heap.len(), 16);
}

#[test]
fn refresh_keeps_the_buffer_while_the_regions_stay() {
    let heap: Vec<u8> = vec![3; 16];
    let at = address_of(&heap);
    let maps = heap_line(at, 16);
    let mut process = Process::attach(own_pid(), Some(&maps), Some("Name:\tgame\n")).unwrap();
    assert_eq!(process.populate_buffer(4), Ok(()));
    let before = entries_of(&process);
    assert_eq!(before.len(), 13);
    assert_eq!(process.refresh_memory(Some(&maps)), Ok(()));
    assert_eq!(entries_of(&process), before);
    assert_eq!(heap.len(), 16);
}

#[test]
fn refresh_drops_the_buffer_when_the_regions_change() {
    let heap: Vec<u8> = vec![3; 32];
    let at = address_of(&heap);
    let mut process = Process::attach(own_pid(), Some(&heap_line(at, 16)), Some("Name:\tgame\n")).unwrap();
    assert_eq!(process.populate_buffer(4), Ok(()));
    assert!(process.buffer.is_some());
    assert_eq!(process.refresh_memory(Some(&heap_line(at, 32))), Ok(()));
    assert!(process.buffer.is_none());
    assert_eq!(process.memory[0].end_adress(), at + 32);
    assert_eq!(heap.len(), 32);
}

#[test]
fn refresh_that_fails_changes_nothing() {
    let heap: Vec<u8> = vec![3; 16];
    let at = address_of(&heap);
    let mut process = Process::attach(own_pid(), Some(&heap_line(at, 16)), Some("Name:\tgame\n")).unwrap();
    assert_eq!(process.populate_buffer(4), Ok(()));
    assert_eq!(process.refresh_memory(None), Err(ProcessError::NotFoundError));
    assert_eq!(process.refresh_memory(Some("")), Err(ProcessError::UnknownError));
    assert_eq!(process.refresh_memory(Some("junk\n")), Err(ProcessError::UnknownError));
    assert_eq!(process.refresh_memory(Some("8-18 rw-p 0 00:00 0 [heap]\n")), Err(ProcessError::UnknownError));
    assert_eq!(process.memory.len(), 1);
    assert_eq!(process.memory[0].start_adress(), at);
    assert_eq!(entries_of(&process).len(), 13);
    assert_eq!(heap.len(), 16);
}

#[test]
fn scan_for_a_value_fills_the_buffer() {
    let mut process = snapshot(vec![chunk(0, &[0x00, 0x00, 0x00, 0x2A, 0x00, 0x00, 0x00, 0x00])]);
    assert_eq!(process.populate_buffer_with_value(42, 4), Ok(vec![entry(3, 42)]));
    assert_eq!(entries_of(&process), vec![entry(3, 42)]);
    assert_eq!(process.buffer.as_ref().unwrap().sizing, ValueSize::U32);
    assert_eq!(process.populate_buffer_with_value(0, 4), Ok(vec![entry(4, 0)]));
    assert_eq!(entries_of(&process), vec![entry(4, 0)]);
}

#[test]
fn scan_without_a_match_is_an_empty_success() {
    let mut process = snapshot(vec![chunk(0, &[1, 2, 3, 4, 5, 6, 7, 8])]);
    assert_eq!(process.populate_buffer_with_value(42, 4), Ok(Vec::new()));
    assert_eq!(entries_of(&process), Vec::new());
}

#[test]
fn scan_hands_back_the_first_hundred_and_keeps_all() {
    let mut process = snapshot(vec![chunk(0x1000, &[0; 300])]);
    let shown = process.populate_buffer_with_value(0, 4).unwrap();
    assert_eq!(shown.len(), 100);
    let all = entries_of(&process);
    assert_eq!(all.len(), 297);
    assert_eq!(shown, all[..100].to_vec());
    assert_eq!(shown[0], entry(0x1000, 0));
    assert_eq!(shown[99], entry(0x1000 + 99, 0));
    assert_eq!(all[296], entry(0x1000 + 296, 0));
}

#[test]
fn scan_at_other_widths() {
    let mut process = snapshot(vec![chunk(0, &[0x34, 0x12, 0x00, 0x34])]);
    assert_eq!(process.populate_buffer_with_value(0x34, 1), Ok(vec![entry(0, 0x34), entry(3, 0x34)]));
    assert_eq!(process.buffer.as_ref().unwrap().sizing, ValueSize::U8);
    assert_eq!(process.populate_buffer_with_value(0x1234, 2), Ok(vec![entry(0, 0x1234)]));
    assert_eq!(process.buffer.as_ref().unwrap().sizing, ValueSize::U16);
}

#[test]
fn scan_refuses_other_widths() {
    let mut process = snapshot(vec![chunk(0, &[0; 8])]);
    assert_eq!(process.populate_buffer_with_value(0, 4).unwrap().len(), 5);
    assert_eq!(process.populate_buffer_with_value(0, 3), Err(String::from("size not supported")));
    assert_eq!(process.populate_buffer_with_value(0, 0), Err(String::from("size not supported")));
    assert_eq!(process.populate_buffer_with_value(0, 8), Err(String::from("size not supported")));
    assert_eq!(entries_of(&process).len(), 5);
    assert_eq!(process.populate_buffer(3), Err(ProcessError::UnknownError));
    assert_eq!(entries_of(&process).len(), 5);
}

#[test]
fn populate_keeps_every_window() {
    let mut process = snapshot(vec![chunk(100, &[1, 2, 3, 4, 5]), chunk(200, &[9, 9, 9, 9])]);
    assert_eq!(process.populate_buffer(4), Ok(()));
    assert_eq!(
        entries_of(&process),
        vec![entry(100, 0x0403_0201), entry(101, 0x0504_0302), entry(200, 0x0909_0909)]
    );
    assert_eq!(process.populate_buffer(1), Ok(()));
    assert_eq!(entries_of(&process).len(), 9);
}

#[test]
fn memory_values_are_the_values_of_every_window() {
    let process = snapshot(vec![chunk(100, &[1, 2, 3, 4, 5]), chunk(200, &[9, 9, 9, 9])]);
    assert_eq!(process.memory_values(4), Ok(vec![0x0403_0201, 0x0504_0302, 0x0909_0909]));
    assert_eq!(process.memory_values(2), Ok(vec![0x0201, 0x0302, 0x0403, 0x0504, 0x0909, 0x0909, 0x0909]));
    assert_eq!(process.memory_values(1), Ok(vec![1, 2, 3, 4, 5, 9, 9, 9, 9]));
    assert_eq!(process.memory_values(5), Err(String::from("size not supported")));
}

#[test]
fn narrowing_without_a_buffer_is_unknown_error() {
    let mut process = snapshot(vec![chunk(0, &[0; 8])]);
    assert_eq!(process.scan_next(0), Err(ProcessError::UnknownError));
    assert_eq!(process.expect_change(true), Err(ProcessError::UnknownError));
    assert_eq!(process.expect_change(false), Err(ProcessError::UnknownError));
    assert_eq!(process.update_buffer(), Err(ProcessError::UnknownError));
    assert!(process.buffer.is_none());
}

#[test]
fn narrowing_after_a_reset_is_unknown_error() {
    let mut process = snapshot(vec![chunk(0, &[0; 8])]);
    assert_eq!(process.populate_buffer(4), Ok(()));
    process.reset_buffer();
    assert!(process.buffer.is_none());
    assert_eq!(process.scan_next(0), Err(ProcessError::UnknownError));
    assert_eq!(process.expect_change(true), Err(ProcessError::UnknownError));
}

#[test]
fn narrowing_an_empty_buffer_is_an_empty_success() {
    let mut process = snapshot(vec![chunk(0, &[1; 8])]);
    assert_eq!(process.populate_buffer_with_value(42, 4), Ok(Vec::new()));
    assert_eq!(process.scan_next(42), Ok(Vec::new()));
    assert_eq!(process.expect_change(true), Ok(Vec::new()));
    assert_eq!(process.update_buffer(), Ok(()));
}

#[test]
fn narrowing_that_cannot_read_changes_nothing() {
    let mut process = snapshot(Vec::new());
    process.buffer = Some(Buffer { data: vec![entry(8, 1), entry(16, 2)], sizing: ValueSize::U32 });
    assert_eq!(process.scan_next(1), Err(ProcessError::UnknownError));
    assert_eq!(process.expect_change(true), Err(ProcessError::UnknownError));
    assert_eq!(process.update_buffer(), Err(ProcessError::UnknownError));
    assert_eq!(entries_of(&process), vec![entry(8, 1), entry(16, 2)]);
}

#[test]
fn narrowing_follows_the_memory_of_the_process() {
    let value: u32 = 0xDEAD_BEEF;
    let mut planted: Vec<u8> = vec![0; 16];
    planted[0..4].copy_from_slice(&value.to_le_bytes());
    planted[8..12].copy_from_slice(&value.to_le_bytes());
    let at = address_of(&planted);
    let maps = heap_line(at, 16);
    let mut process = Process::attach(own_pid(), Some(&maps), Some("Name:\tgame\n")).unwrap();

    let found = process.populate_buffer_with_value(value as usize, 4).unwrap();
    assert_eq!(found, vec![entry(at, value), entry(at + 8, value)]);
    assert_eq!(process.scan_next(value as usize), Ok(vec![entry(at, value), entry(at + 8, value)]));
    assert_eq!(process.expect_change(true), Ok(Vec::new()));
    assert_eq!(entries_of(&process), Vec::new());

    assert_eq!(process.populate_buffer_with_value(value as usize, 4).unwrap().len(), 2);
    assert_eq!(process.scan_next(value as usize).unwrap().len(), 2);
    let second = Variable { position: at + 8, size: ValueSize::U32 };
    assert_eq!(process.write(&second, 77), Ok(()));
    assert_eq!(process.expect_change(true), Ok(vec![entry(at + 8, 77)]));
    assert_eq!(entries_of(&process), vec![entry(at + 8, 77)]);

    assert_eq!(process.expect_change(false), Ok(vec![entry(at + 8, 77)]));
    assert_eq!(process.scan_next(78), Ok(Vec::new()));
    assert_eq!(planted.len(), 16);
}

#[test]
fn narrowing_to_a_value_samples_before_it_compares() {
    let mut planted: Vec<u8> = vec![0; 12];
    planted[0] = 5;
    planted[4] = 5;
    planted[8] = 5;
    let at = address_of(&planted);
    let mut process = Process::attach(own_pid(), Some(&heap_line(at, 12)), Some("Name:\tgame\n")).unwrap();
    assert_eq!(
        process.populate_buffer_with_value(5, 4),
        Ok(vec![entry(at, 5), entry(at + 4, 5), entry(at + 8, 5)])
    );
    assert_eq!(process.write(&Variable { position: at + 4, size: ValueSize::U32 }, 6), Ok(()));
    assert_eq!(process.scan_next(6), Ok(vec![entry(at + 4, 6)]));
    assert_eq!(planted.len(), 12);
}

#[test]
fn update_stores_what_memory_holds_now() {
    let planted: Vec<u8> = vec![1, 0, 0, 0, 2, 0, 0, 0];
    let at = address_of(&planted);
    let mut process = Process::attach(own_pid(), Some(&heap_line(at, 8)), Some("Name:\tgame\n")).unwrap();
    assert_eq!(process.populate_buffer_with_value(1, 4), Ok(vec![entry(at, 1)]));
    assert_eq!(process.write(&Variable { position: at, size: ValueSize::U32 }, 9), Ok(()));
    assert_eq!(process.update_buffer(), Ok(()));
    assert_eq!(entries_of(&process), vec![entry(at, 9)]);
    assert_eq!(planted.len(), 8);
}

#[test]
fn narrowing_reads_four_bytes_at_narrow_widths() {
    let planted: Vec<u8> = vec![0x2A, 0x00, 0x00, 0x00, 0x2A, 0x01, 0x00, 0x00, 0x00, 0x00, 0x00, 0x00];
    let at = address_of(&planted);
    let mut process = Process::attach(own_pid(), Some(&heap_line(at, 12)), Some("Name:\tgame\n")).unwrap();
    assert_eq!(
        process.populate_buffer_with_value(0x2A, 1),
        Ok(vec![entry(at, 0x2A), entry(at + 4, 0x2A)])
    );
    assert_eq!(process.scan_next(0x2A), Ok(vec![entry(at, 0x2A)]));
    assert_eq!(planted.len(), 12);
}

#[test]
fn narrowing_to_a_value_hands_back_the_first_hundred() {
    let planted: Vec<u8> = vec![0; 204];
    let at = address_of(&planted);
    let mut process = Process::attach(own_pid(), Some(&heap_line(at, 204)), Some("Name:\tgame\n")).unwrap();
    assert_eq!(process.populate_buffer_with_value(0, 4).unwrap().len(), 100);
    assert_eq!(entries_of(&process).len(), 201);
    let shown = process.scan_next(0).unwrap();
    assert_eq!(shown.len(), 100);
    assert_eq!(entries_of(&process).len(), 201);
    assert_eq!(shown, entries_of(&process)[..100].to_vec());
    let left = process.expect_change(false).unwrap();
    assert_eq!(left.len(), 201);
    assert_eq!(planted.len(), 204);
}

#[test]
fn process_reads_and_writes_a_variable() {
    let planted: Vec<u8> = vec![0; 4];
    let at = address_of(&planted);
    let process = snapshot(Vec::new());
    let variable = Variable { position: at, size: ValueSize::U32 };
    assert_eq!(process.get_value(&variable), Ok(0));
    assert_eq!(process.write(&variable, 1234), Ok(()));
    assert_eq!(process.get_value(&variable), Ok(1234));
    assert_eq!(planted.len(), 4);
}

#[test]
fn neighbors_are_the_fifty_values_around_an_address() {
    let planted: Vec<u8> = (0..64).collect();
    let at = address_of(&planted);
    let process = snapshot(Vec::new());
    let around = process.get_neighbors(at + 25).unwrap();
    assert_eq!(around.len(), 50);
    assert_eq!(NEIGHBORS, 50);
    for (i, neighbor) in around.iter().enumerate() {
        assert_eq!(neighbor.offset, at + i);
        let bytes = [planted[i], planted[i + 1], planted[i + 2], planted[i + 3]];
        assert_eq!(neighbor.value, u32::from_le_bytes(bytes));
    }
}

#[test]
fn neighbors_beyond_the_address_space_are_unknown_error() {
    let process = snapshot(Vec::new());
    assert_eq!(process.get_neighbors(0), Err(ProcessError::UnknownError));
    assert_eq!(process.get_neighbors(24), Err(ProcessError::UnknownError));
    assert_eq!(process.get_neighbors(usize::MAX), Err(ProcessError::UnknownError));
    assert_eq!(process.get_neighbors(usize::MAX - 24), Err(ProcessError::UnknownError));
    assert_eq!(process.get_neighbors(25), Err(ProcessError::UnknownError));
}

#[test]
fn process_copy_holds_the_same() {
    let mut process = snapshot(vec![chunk(0x10, &[1, 2, 3, 4])]);
    assert_eq!(process.populate_buffer(4), Ok(()));
    let copy = process.clone();
    assert_eq!(copy.pid, process.pid);
    assert_eq!(copy.name, "game");
    assert_eq!(copy.memory.len(), 1);
    assert_eq!(copy.memory[0].start_adress(), 0x10);
    assert_eq!(copy.memory[0].data(), &[1, 2, 3, 4]);
    assert_eq!(entries_of(&copy), vec![entry(0x10, 0x0403_0201)]);
}
