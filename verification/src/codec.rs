//! The value codec: widths of one, two and four bytes, and the little-endian
//! reading and writing of unsigned values at those widths.

use vstd::prelude::*;
use vstd::std_specs::convert::FromSpecImpl;
use vstd::std_specs::convert::TryFromSpecImpl;

verus! {

/// Width of a scalar in the target's memory: one, two or four bytes.
#[derive(Debug, Clone, Copy, PartialEq, Eq, Structural)]
pub enum ValueSize {
    U8,
    U16,
    U32,
}

impl ValueSize {
    /// Number of bytes that a value of this width occupies.
    pub open spec fn width(self) -> int {
        match self {
            ValueSize::U8 => 1,
            ValueSize::U16 => 2,
            ValueSize::U32 => 4,
        }
    }

    /// The width of `n` bytes, where there is one: only 1, 2 and 4 have one.
    pub open spec fn of_width(n: int) -> Option<ValueSize> {
        if n == 1 {
            Some(ValueSize::U8)
        } else if n == 2 {
            Some(ValueSize::U16)
        } else if n == 4 {
            Some(ValueSize::U32)
        } else {
            None
        }
    }

    /// Number of distinct values of this width: 256 to the power of `width`.
    pub open spec fn modulus(self) -> int {
        match self {
            ValueSize::U8 => 0x100,
            ValueSize::U16 => 0x1_0000,
            ValueSize::U32 => 0x1_0000_0000,
        }
    }

    /// Number of bytes that a value of this width occupies.
    pub fn byte_len(self) -> (n: usize)
        ensures
            n == self.width(),
    {
        match self {
            ValueSize::U8 => 1,
            ValueSize::U16 => 2,
            ValueSize::U32 => 4,
        }
    }
}

/// The checked conversion from a byte length. Its message is a `String`, of
/// which only the text is stated, so the trait's own spec function is left
/// unused and the contract stands on `try_from` itself.
impl TryFrom<usize> for ValueSize {
    type Error = String;

    fn try_from(value: usize) -> (r: Result<ValueSize, String>)
        ensures
            match r {
                Ok(size) => ValueSize::of_width(value as int) == Some(size),
                Err(message) => ValueSize::of_width(value as int).is_none()
                    && message@ == "size not supported"@,
            },
    {
        match value {
            1 => Ok(ValueSize::U8),
            2 => Ok(ValueSize::U16),
            4 => Ok(ValueSize::U32),
            _ => Err("size not supported".to_owned()),
        }
    }
}

impl TryFromSpecImpl<usize> for ValueSize {
    open spec fn obeys_try_from_spec() -> bool {
        false
    }

    open spec fn try_from_spec(value: usize) -> Result<ValueSize, String> {
        arbitrary()
    }
}

impl From<ValueSize> for usize {
    fn from(value: ValueSize) -> (n: usize) {
        value.byte_len()
    }
}

impl FromSpecImpl<ValueSize> for usize {
    open spec fn obeys_from_spec() -> bool {
        true
    }

    open spec fn from_spec(value: ValueSize) -> usize {
        value.width() as usize
    }
}

/// The unsigned value that the first `size.width()` bytes of `bytes` spell in
/// little-endian order.
pub open spec fn decode(bytes: Seq<u8>, size: ValueSize) -> int
    recommends
        bytes.len() >= size.width(),
{
    match size {
        ValueSize::U8 => bytes[0] as int,
        ValueSize::U16 => bytes[0] + 0x100 * bytes[1],
        ValueSize::U32 => bytes[0] + 0x100 * bytes[1] + 0x1_0000 * bytes[2] + 0x100_0000 * bytes[3],
    }
}

/// Byte `index` of `value` in little-endian order: the digit of weight
/// 256 to the power of `index`.
pub open spec fn le_byte(value: int, index: int) -> u8 {
    if index == 0 {
        (value % 0x100) as u8
    } else if index == 1 {
        ((value / 0x100) % 0x100) as u8
    } else if index == 2 {
        ((value / 0x1_0000) % 0x100) as u8
    } else {
        ((value / 0x100_0000) % 0x100) as u8
    }
}

/// The `size.width()` low bytes of `value`, least significant first. A value
/// that does not fit the width loses its high bytes.
pub open spec fn encode(value: int, size: ValueSize) -> Seq<u8> {
    Seq::new(size.width() as nat, |i: int| le_byte(value, i))
}

/// Reads four bytes as an unsigned little-endian value.
pub fn decode_u32_le(bytes: [u8; 4]) -> (value: u32)
    ensures
        value == decode(bytes@, ValueSize::U32),
{
    (bytes[0] as u32) + 0x100 * (bytes[1] as u32) + 0x1_0000 * (bytes[2] as u32) + 0x100_0000 * (
    bytes[3] as u32)
}

/// Writes the low 32 bits of `value` as four little-endian bytes. Bits above
/// the 32nd are dropped, as a cast to a 32-bit integer drops them.
pub fn encode_i32_le(value: usize) -> (bytes: [u8; 4])
    ensures
        bytes@ == encode(value as int, ValueSize::U32),
{
    let bytes: [u8; 4] = [
        (value % 0x100) as u8,
        ((value / 0x100) % 0x100) as u8,
        ((value / 0x1_0000) % 0x100) as u8,
        ((value / 0x100_0000) % 0x100) as u8,
    ];
    assert(bytes@ =~= encode(value as int, ValueSize::U32));
    bytes
}

/// Reads the window of `size.width()` bytes that starts at `at`, widened to
/// 32 bits; `None` where the window does not lie within `data`.
pub fn decode_at(data: &[u8], at: usize, size: ValueSize) -> (value: Option<u32>)
    ensures
        at + size.width() <= data@.len() ==> value == Some(
            decode(data@.subrange(at as int, at + size.width()), size) as u32,
        ) && value->0 == decode(data@.subrange(at as int, at + size.width()), size),
        at + size.width() > data@.len() ==> value is None,
{
    let width = size.byte_len();
    if data.len() < width || at > data.len() - width {
        return None;
    }
    let value: u32 = match size {
        ValueSize::U8 => data[at] as u32,
        ValueSize::U16 => (data[at] as u32) + 0x100 * (data[at + 1] as u32),
        ValueSize::U32 => decode_u32_le([data[at], data[at + 1], data[at + 2], data[at + 3]]),
    };
    Some(value)
}

/// Writes `value` as `size.width()` little-endian bytes: the low bytes of the
/// four that `encode_i32_le` gives.
pub fn encode_sized(value: usize, size: ValueSize) -> (bytes: Vec<u8>)
    ensures
        bytes@ == encode(value as int, size),
{
    let full = encode_i32_le(value);
    let width = size.byte_len();
    let mut bytes: Vec<u8> = Vec::new();
    let mut i: usize = 0;
    while i < width
        invariant
            i <= width == size.width(),
            full@ == encode(value as int, ValueSize::U32),
            bytes@ == encode(value as int, ValueSize::U32).take(i as int),
        decreases width - i,
    {
        bytes.push(full[i]);
        i += 1;
    }
    assert(bytes@ =~= encode(value as int, size));
    bytes
}

/// A value that fits the width comes back unchanged when it is written and
/// then read at that width.
pub proof fn lemma_encode_then_decode(value: int, size: ValueSize)
    requires
        0 <= value < size.modulus(),
    ensures
        encode(value, size).len() == size.width(),
        decode(encode(value, size), size) == value,
{
}

/// Bytes that are read and then written at the same width come back
/// unchanged.
pub proof fn lemma_decode_then_encode(bytes: Seq<u8>, size: ValueSize)
    requires
        bytes.len() == size.width(),
    ensures
        0 <= decode(bytes, size) < size.modulus(),
        encode(decode(bytes, size), size) == bytes,
{
    let value = decode(bytes, size);
    match size {
        ValueSize::U8 => {},
        ValueSize::U16 => {
            assert(value / 0x100 == bytes[1] as int);
        },
        ValueSize::U32 => {
            let high = bytes[1] + 0x100 * bytes[2] + 0x1_0000 * bytes[3];
            assert(value == bytes[0] + 0x100 * high);
            assert(value / 0x100 == high);
            assert(value / 0x1_0000 == bytes[2] + 0x100 * bytes[3]);
            assert(value / 0x100_0000 == bytes[3] as int);
        },
    }
    assert(encode(value, size) =~= bytes);
}

/// Writing at a narrower width keeps the low bytes of the four-byte form.
pub proof fn lemma_encode_truncates(value: int, size: ValueSize)
    ensures
        encode(value, size) == encode(value, ValueSize::U32).take(size.width()),
{
    assert(encode(value, size) =~= encode(value, ValueSize::U32).take(size.width()));
}

} // verus!
