//! Memory of another process: regions with their bytes, and the transfers
//! that read and write them.

use crate::codec::decode_at;
use crate::codec::encode_sized;
use crate::codec::ValueSize;
use crate::error::ProcessError;
use bytes::Bytes;
use nix::errno::Errno;
use nix::sys::uio::process_vm_readv;
use nix::sys::uio::process_vm_writev;
use nix::sys::uio::RemoteIoVec;
use nix::unistd::Pid;
use std::io::IoSlice;
use std::io::IoSliceMut;
use vstd::prelude::*;

verus! {

/// `bytes::Bytes`, a shared buffer of bytes. Nothing of its inside is known
/// here but through `contents`.
#[verifier::external_type_specification]
#[verifier::external_body]
pub struct ExBytes(bytes::Bytes);

/// `nix::errno::Errno`, the error of a system call. It is only ever carried.
#[verifier::external_type_specification]
#[verifier::external_body]
pub struct ExErrno(nix::errno::Errno);

/// The bytes that a `Bytes` holds, in order.
pub uninterp spec fn contents(data: &Bytes) -> Seq<u8>;

/// `Clone::clone` of `bytes::Bytes`: the copy shares the buffer, so it holds
/// the same bytes.
pub assume_specification[ <bytes::Bytes as Clone>::clone ](data: &bytes::Bytes) -> (copy:
    bytes::Bytes)
    ensures
        contents(&copy) == contents(data),
;

/// `Bytes::from` on a `Vec<u8>`: the buffer takes the vector over and holds
/// its bytes unchanged.
#[verifier::external_body]
pub(crate) fn bytes_from_vec(bytes: Vec<u8>) -> (data: Bytes)
    ensures
        contents(&data) == bytes@,
{
    Bytes::from(bytes)
}

/// `AsRef::<[u8]>::as_ref` of `Bytes`: the slice of all the bytes held.
#[verifier::external_body]
pub(crate) fn bytes_as_slice(data: &Bytes) -> (slice: &[u8])
    ensures
        slice@ == contents(data),
{
    data.as_ref()
}

/// `nix::sys::uio::process_vm_readv` with one local segment, `buffer`, and
/// one remote segment of the same length at `address`. It returns what the
/// call returned: the number of bytes transferred, or the error. What
/// arrives in `buffer` is whatever the other process holds; only the length
/// of `buffer` is known to stay.
#[verifier::external_body]
pub(crate) fn vm_read(pid: i32, address: usize, buffer: &mut Vec<u8>) -> (outcome: Result<
    usize,
    Errno,
>)
    ensures
        final(buffer)@.len() == old(buffer)@.len(),
{
    let remote = [RemoteIoVec { base: address, len: buffer.len() }];
    let mut local = [IoSliceMut::new(buffer.as_mut_slice())];
    process_vm_readv(Pid::from_raw(pid), &mut local, &remote)
}

/// `nix::sys::uio::process_vm_writev` with one local segment, `bytes`, and
/// one remote segment of the same length at `address`. It returns what the
/// call returned; nothing is known of it beforehand.
#[verifier::external_body]
pub(crate) fn vm_write(pid: i32, address: usize, bytes: &[u8]) -> (outcome: Result<usize, Errno>) {
    let remote = [RemoteIoVec { base: address, len: bytes.len() }];
    let local = [IoSlice::new(bytes)];
    process_vm_writev(Pid::from_raw(pid), &local, &remote)
}

/// What kind of region a span of memory is.
#[derive(Debug, Clone, Copy, PartialEq, Eq, Structural)]
pub enum Location {
    Heap,
    Stack,
    Misc,
}

impl Location {
    /// The name of the kind.
    pub open spec fn text(self) -> Seq<char> {
        match self {
            Location::Heap => "HEAP"@,
            Location::Stack => "STACK"@,
            Location::Misc => "MISC"@,
        }
    }

    /// The name of the kind.
    pub fn to_string(&self) -> (name: String)
        ensures
            name@ == self.text(),
    {
        match self {
            Location::Heap => "HEAP".to_owned(),
            Location::Stack => "STACK".to_owned(),
            Location::Misc => "MISC".to_owned(),
        }
    }
}

/// One scalar in the target's memory: where it is and how wide. It holds no
/// value.
#[derive(Debug, Clone, Copy, PartialEq, Eq, Structural)]
pub struct Variable {
    pub position: usize,
    pub size: ValueSize,
}

/// A region as the contracts see it: its kind, the address of its first
/// byte, and its bytes.
pub struct Region {
    pub location: Location,
    pub start: int,
    pub data: Seq<u8>,
}

impl Region {
    /// The address after the last byte.
    pub open spec fn end(self) -> int {
        self.start + self.data.len()
    }

    /// A region is not empty and lies within the address space.
    pub open spec fn wf(self) -> bool {
        &&& 0 <= self.start
        &&& self.data.len() > 0
        &&& self.end() <= usize::MAX
    }
}

/// A region of the target's memory with the bytes that it held when it was
/// read: a snapshot, which goes stale as the target runs.
#[derive(Debug)]
pub struct MemoryChunk {
    location: Location,
    start_adress: usize,
    end_adress: usize,
    data: Bytes,
}

impl View for MemoryChunk {
    type V = Region;

    closed spec fn view(&self) -> Region {
        Region { location: self.location, start: self.start_adress as int, data: contents(&self.data) }
    }
}

impl Clone for MemoryChunk {
    fn clone(&self) -> (copy: MemoryChunk)
        ensures
            copy@ == self@,
    {
        proof {
            use_type_invariant(self);
        }
        MemoryChunk {
            location: self.location,
            start_adress: self.start_adress,
            end_adress: self.end_adress,
            data: self.data.clone(),
        }
    }
}

impl MemoryChunk {
    #[verifier::type_invariant]
    spec fn well_formed(self) -> bool {
        &&& self@.wf()
        &&& self.end_adress == self@.end()
    }

    /// The region of kind `location` that starts at `start_adress` and holds
    /// `data`; `None` where `data` is empty or would reach beyond the
    /// address space.
    pub fn new(location: Location, start_adress: usize, data: Bytes) -> (chunk: Option<MemoryChunk>)
        ensures
            match chunk {
                Some(c) => c@ == (Region {
                    location,
                    start: start_adress as int,
                    data: contents(&data),
                }) && c@.wf(),
                None => contents(&data).len() == 0 || start_adress + contents(&data).len()
                    > usize::MAX,
            },
    {
        let len = bytes_as_slice(&data).len();
        if len == 0 || len > usize::MAX - start_adress {
            return None;
        }
        Some(MemoryChunk { location, start_adress, end_adress: start_adress + len, data })
    }

    /// The kind of the region.
    pub fn location(&self) -> (location: Location)
        ensures
            location == self@.location,
    {
        self.location
    }

    /// The address of the first byte.
    pub fn start_adress(&self) -> (address: usize)
        ensures
            address == self@.start,
            self@.wf(),
    {
        proof {
            use_type_invariant(self);
        }
        self.start_adress
    }

    /// The address after the last byte.
    pub fn end_adress(&self) -> (address: usize)
        ensures
            address == self@.end(),
            self@.wf(),
    {
        proof {
            use_type_invariant(self);
        }
        self.end_adress
    }

    /// The bytes of the region.
    pub fn data(&self) -> (data: &[u8])
        ensures
            data@ == self@.data,
            self@.wf(),
    {
        proof {
            use_type_invariant(self);
        }
        bytes_as_slice(&self.data)
    }
}

/// What a read gives once the transfer has returned: the bytes of `buffer`,
/// if exactly as many bytes arrived as `buffer` holds. A short transfer and
/// an error of the call are both `UnknownError`.
pub fn finish_read(buffer: Vec<u8>, outcome: Result<usize, Errno>) -> (data: Result<
    Bytes,
    ProcessError,
>)
    ensures
        match data {
            Ok(bytes) => contents(&bytes) == buffer@ && (outcome matches Ok(n) && n
                == buffer@.len()),
            Err(e) => e == ProcessError::UnknownError && !(outcome matches Ok(n) && n
                == buffer@.len()),
        },
{
    match outcome {
        Ok(n) => {
            if n == buffer.len() {
                Ok(bytes_from_vec(buffer))
            } else {
                Err(ProcessError::UnknownError)
            }
        },
        Err(_) => Err(ProcessError::UnknownError),
    }
}

/// What a write gives once the transfer has returned: `UnknownError` if the
/// call failed.
pub fn finish_write(outcome: Result<usize, Errno>) -> (done: Result<(), ProcessError>)
    ensures
        done == (if outcome is Ok {
            Ok::<(), ProcessError>(())
        } else {
            Err::<(), ProcessError>(ProcessError::UnknownError)
        }),
{
    match outcome {
        Ok(_) => Ok(()),
        Err(_) => Err(ProcessError::UnknownError),
    }
}

/// Reads `length` bytes at `address` in the memory of process `pid`, in one
/// transfer. What comes back is the bytes, all of them, or `UnknownError`:
/// never fewer bytes than were asked for. A length that no buffer can have,
/// or for which there is no room, is refused without a transfer.
pub fn read_memory(pid: i32, address: usize, length: usize) -> (data: Result<Bytes, ProcessError>)
    ensures
        data matches Ok(bytes) ==> contents(&bytes).len() == length,
        data matches Err(e) ==> e == ProcessError::UnknownError,
        length > isize::MAX ==> data is Err,
{
    if length > isize::MAX as usize {
        return Err(ProcessError::UnknownError);
    }
    let mut buffer: Vec<u8> = Vec::new();
    match buffer.try_reserve(length) {
        Ok(_) => {},
        Err(_) => {
            return Err(ProcessError::UnknownError);
        },
    }
    buffer.resize(length, 0u8);
    let outcome = vm_read(pid, address, &mut buffer);
    finish_read(buffer, outcome)
}

/// Reads the bytes from `start_adress` up to `end_adress` in the memory of
/// process `pid`. A range that ends before it starts is `UnknownError`.
pub fn get_raw_memory(pid: i32, start_adress: usize, end_adress: usize) -> (data: Result<
    Bytes,
    ProcessError,
>)
    ensures
        data matches Ok(bytes) ==> start_adress <= end_adress && contents(&bytes).len()
            == end_adress - start_adress,
        data matches Err(e) ==> e == ProcessError::UnknownError,
        end_adress < start_adress ==> data is Err,
{
    if end_adress < start_adress {
        return Err(ProcessError::UnknownError);
    }
    read_memory(pid, start_adress, end_adress - start_adress)
}

/// Reads the scalar at `value.position`. Four bytes are read and decoded
/// whatever `value.size` is: a narrower variable is read together with the
/// bytes that follow it. `get_value_sized` reads a variable at its own
/// width.
pub fn get_value(pid: i32, value: &Variable) -> (sample: Result<u32, ProcessError>)
    ensures
        sample matches Err(e) ==> e == ProcessError::UnknownError,
{
    match read_memory(pid, value.position, 4) {
        Ok(data) => {
            match decode_at(bytes_as_slice(&data), 0, ValueSize::U32) {
                Some(v) => Ok(v),
                None => Err(ProcessError::UnknownError),
            }
        },
        Err(e) => Err(e),
    }
}

/// Reads the scalar at `value.position` at its own width: as many bytes as
/// `value.size` has are read, and they alone are decoded.
pub fn get_value_sized(pid: i32, value: &Variable) -> (sample: Result<u32, ProcessError>)
    ensures
        sample matches Ok(v) ==> v < value.size.modulus(),
        sample matches Err(e) ==> e == ProcessError::UnknownError,
{
    match read_memory(pid, value.position, value.size.byte_len()) {
        Ok(data) => {
            match decode_at(bytes_as_slice(&data), 0, value.size) {
                Some(v) => {
                    proof {
                        crate::codec::lemma_decode_then_encode(contents(&data), value.size);
                    }
                    Ok(v)
                },
                None => Err(ProcessError::UnknownError),
            }
        },
        Err(e) => Err(e),
    }
}

/// Reads the scalar of every variable, in order. The first read that fails
/// ends the call with its error.
pub fn get_values(pid: i32, values: &Vec<Variable>) -> (samples: Result<Vec<u32>, ProcessError>)
    ensures
        samples matches Ok(list) ==> list@.len() == values@.len(),
        samples matches Err(e) ==> e == ProcessError::UnknownError,
        values@.len() == 0 ==> samples is Ok,
{
    let mut list: Vec<u32> = Vec::new();
    let mut i: usize = 0;
    while i < values.len()
        invariant
            i <= values@.len(),
            list@.len() == i,
        decreases values@.len() - i,
    {
        match get_value(pid, &values[i]) {
            Ok(value) => list.push(value),
            Err(e) => {
                return Err(e);
            },
        }
        i += 1;
    }
    Ok(list)
}

/// Writes `new_value` at `value.position`, as `value.size` little-endian
/// bytes, in one transfer. Bits of `new_value` above the width are dropped.
pub fn write_value(pid: i32, value: &Variable, new_value: usize) -> (done: Result<
    (),
    ProcessError,
>)
    ensures
        done matches Err(e) ==> e == ProcessError::UnknownError,
{
    let bytes = encode_sized(new_value, value.size);
    let outcome = vm_write(pid, value.position, bytes.as_slice());
    finish_write(outcome)
}

} // verus!
