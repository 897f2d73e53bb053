use cheat_toolkit::codec::decode_at;
use cheat_toolkit::codec::decode_u32_le;
use cheat_toolkit::codec::encode_i32_le;
use cheat_toolkit::codec::encode_sized;
use cheat_toolkit::codec::ValueSize;
use cheat_toolkit::memory::Location;
use cheat_toolkit::ProcessError;

#[test]
fn decode_reads_little_endian() {
    assert_eq!(decode_u32_le([0x2A, 0, 0, 0]), 42);
    assert_eq!(decode_u32_le([0, 0, 0, 0x2A]), 0x2A00_0000);
    assert_eq!(decode_u32_le([0x78, 0x56, 0x34, 0x12]), 0x1234_5678);
    assert_eq!(decode_u32_le([0xFF, 0xFF, 0xFF, 0xFF]), u32::MAX);
    assert_eq!(decode_u32_le([0, 0, 0, 0]), 0);
}

#[test]
fn decode_agrees_with_std() {
    let samples: [[u8; 4]; 4] = [[1, 2, 3, 4], [0xEF, 0xBE, 0xAD, 0xDE], [0, 0, 1, 0], [9, 0, 0, 0x80]];
    for bytes in samples {
        assert_eq!(decode_u32_le(bytes), u32::from_le_bytes(bytes));
    }
}

#[test]
fn encode_writes_little_endian() {
    assert_eq!(encode_i32_le(42), [0x2A, 0, 0, 0]);
    assert_eq!(encode_i32_le(0x1234_5678), [0x78, 0x56, 0x34, 0x12]);
    assert_eq!(encode_i32_le(0), [0, 0, 0, 0]);
    assert_eq!(encode_i32_le(0xFFFF_FFFF), [0xFF, 0xFF, 0xFF, 0xFF]);
}

#[test]
fn encode_agrees_with_a_cast_to_i32() {
    let samples: [usize; 5] = [0, 1, 0x7FFF_FFFF, 0x8000_0000, 0xFFFF_FFFF];
    for value in samples {
        assert_eq!(encode_i32_le(value), (value as i32).to_le_bytes());
    }
}

#[test]
fn encode_drops_bits_above_the_32nd() {
    let wide: usize = 0x1_0000_002A_u64 as usize;
    if usize::BITS > 32 {
        assert_eq!(encode_i32_le(wide), [0x2A, 0, 0, 0]);
    }
}

#[test]
fn encode_sized_keeps_the_low_bytes() {
    assert_eq!(encode_sized(0x1234_5678, ValueSize::U8), vec![0x78]);
    assert_eq!(encode_sized(0x1234_5678, ValueSize::U16), vec![0x78, 0x56]);
    assert_eq!(encode_sized(0x1234_5678, ValueSize::U32), vec![0x78, 0x56, 0x34, 0x12]);
    assert_eq!(encode_sized(256, ValueSize::U8), vec![0]);
    assert_eq!(encode_sized(65536 + 7, ValueSize::U16), vec![7, 0]);
}

#[test]
fn value_round_trips_at_width_one() {
    let values: [usize; 4] = [0, 1, 0x7F, 0xFF];
    for value in values {
        let bytes = encode_sized(value, ValueSize::U8);
        assert_eq!(bytes.len(), 1);
        assert_eq!(decode_at(&bytes, 0, ValueSize::U8), Some(value as u32));
    }
}

#[test]
fn value_round_trips_at_width_two() {
    let values: [usize; 5] = [0, 1, 0xFF, 0x100, 0xFFFF];
    for value in values {
        let bytes = encode_sized(value, ValueSize::U16);
        assert_eq!(bytes.len(), 2);
        assert_eq!(decode_at(&bytes, 0, ValueSize::U16), Some(value as u32));
    }
}

#[test]
fn value_round_trips_at_width_four() {
    let values: [usize; 6] = [0, 1, 0xFFFF, 0x1_0000, 0x7FFF_FFFF, 0xFFFF_FFFF];
    for value in values {
        let bytes = encode_sized(value, ValueSize::U32);
        assert_eq!(bytes.len(), 4);
        assert_eq!(decode_at(&bytes, 0, ValueSize::U32), Some(value as u32));
    }
}

#[test]
fn value_too_wide_does_not_round_trip() {
    let bytes = encode_sized(0x1234, ValueSize::U8);
    assert_eq!(decode_at(&bytes, 0, ValueSize::U8), Some(0x34));
}

#[test]
fn decode_at_reads_windows_at_every_offset() {
    let data: [u8; 6] = [0x01, 0x02, 0x03, 0x04, 0x05, 0x06];
    assert_eq!(decode_at(&data, 0, ValueSize::U8), Some(0x01));
    assert_eq!(decode_at(&data, 5, ValueSize::U8), Some(0x06));
    assert_eq!(decode_at(&data, 6, ValueSize::U8), None);
    assert_eq!(decode_at(&data, 1, ValueSize::U16), Some(0x0302));
    assert_eq!(decode_at(&data, 4, ValueSize::U16), Some(0x0605));
    assert_eq!(decode_at(&data, 5, ValueSize::U16), None);
    assert_eq!(decode_at(&data, 0, ValueSize::U32), Some(0x0403_0201));
    assert_eq!(decode_at(&data, 1, ValueSize::U32), Some(0x0504_0302));
    assert_eq!(decode_at(&data, 2, ValueSize::U32), Some(0x0605_0403));
    assert_eq!(decode_at(&data, 3, ValueSize::U32), None);
    assert_eq!(decode_at(&data, usize::MAX, ValueSize::U32), None);
}

#[test]
fn decode_at_of_short_data_is_none() {
    let data: [u8; 3] = [1, 2, 3];
    assert_eq!(decode_at(&data, 0, ValueSize::U32), None);
    let empty: [u8; 0] = [];
    assert_eq!(decode_at(&empty, 0, ValueSize::U8), None);
}

#[test]
fn value_size_from_byte_length() {
    assert_eq!(ValueSize::try_from(1), Ok(ValueSize::U8));
    assert_eq!(ValueSize::try_from(2), Ok(ValueSize::U16));
    assert_eq!(ValueSize::try_from(4), Ok(ValueSize::U32));
}

#[test]
fn value_size_refuses_other_lengths() {
    let refused: [usize; 6] = [0, 3, 5, 8, 16, usize::MAX];
    for length in refused {
        assert_eq!(ValueSize::try_from(length), Err(String::from("size not supported")));
    }
}

#[test]
fn value_size_to_byte_length() {
    assert_eq!(usize::from(ValueSize::U8), 1);
    assert_eq!(usize::from(ValueSize::U16), 2);
    assert_eq!(usize::from(ValueSize::U32), 4);
    assert_eq!(ValueSize::U8.byte_len(), 1);
    assert_eq!(ValueSize::U16.byte_len(), 2);
    assert_eq!(ValueSize::U32.byte_len(), 4);
    let through_into: usize = ValueSize::U16.into();
    assert_eq!(through_into, 2);
}

#[test]
fn value_size_converts_there_and_back() {
    let sizes: [ValueSize; 3] = [ValueSize::U8, ValueSize::U16, ValueSize::U32];
    for size in sizes {
        assert_eq!(ValueSize::try_from(usize::from(size)), Ok(size));
    }
}

#[test]
fn process_error_texts() {
    assert_eq!(ProcessError::NotFoundError.to_string(), "Process is not found");
    assert_eq!(ProcessError::UnknownError.to_string(), "Unknown error occured");
}

#[test]
fn location_texts() {
    assert_eq!(Location::Heap.to_string(), "HEAP");
    assert_eq!(Location::Stack.to_string(), "STACK");
    assert_eq!(Location::Misc.to_string(), "MISC");
}
