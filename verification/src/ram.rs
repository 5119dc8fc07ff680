use vstd::prelude::*;
use crate::fault::Fault;

verus! {

/// Number of addressable bytes.
pub const RAM_SIZE_IN_BYTES: usize = 4096;

/// Whether the span of `count` bytes starting at `address` lies inside memory.
pub open spec fn span_in_bounds(address: int, count: int) -> bool {
    0 <= address && 0 <= count && address + count <= RAM_SIZE_IN_BYTES
}

/// Memory contents after storing `bytes` contiguously at `address`.
pub open spec fn stored(memory: Seq<u8>, address: int, bytes: Seq<u8>) -> Seq<u8> {
    Seq::new(
        memory.len(),
        |i: int| if address <= i < address + bytes.len() { bytes[i - address] } else { memory[i] },
    )
}

/// Round trip: the span that bytes were stored at then holds exactly those
/// bytes.
pub proof fn lemma_write_then_read(memory: Seq<u8>, address: int, bytes: Seq<u8>)
    requires
        memory.len() == RAM_SIZE_IN_BYTES,
        span_in_bounds(address, bytes.len() as int),
    ensures
        stored(memory, address, bytes).subrange(address, address + bytes.len()) == bytes,
{
    assert(stored(memory, address, bytes).subrange(address, address + bytes.len()) =~= bytes);
}

/// Memory with every byte zero.
pub open spec fn zeroed() -> Seq<u8> {
    Seq::new(RAM_SIZE_IN_BYTES as nat, |i: int| 0u8)
}

/// The machine's byte-addressable memory.
pub struct RAM {
    data: [u8; 4096],
}

impl View for RAM {
    type V = Seq<u8>;

    closed spec fn view(&self) -> Seq<u8> {
        self.data@
    }
}

impl RAM {
    /// A zero-filled memory.
    pub fn new() -> (ram: RAM)
        ensures
            ram@ == zeroed(),
    {
        let ram = RAM { data: [0u8; 4096] };
        proof {
            assert(ram@ =~= zeroed());
        }
        ram
    }

    /// The view always spans the whole address space.
    pub broadcast proof fn lemma_len(&self)
        ensures
            #[trigger] self@.len() == RAM_SIZE_IN_BYTES,
    {
    }

    /// Stores `data` contiguously from `address` and returns how many bytes
    /// were stored. A span that would pass the end of memory is rejected
    /// whole: nothing is written.
    pub fn write(&mut self, address: usize, data: &[u8]) -> (result: Result<usize, Fault>)
        ensures
            span_in_bounds(address as int, data@.len() as int) ==> {
                &&& result == Ok::<usize, Fault>(data@.len() as usize)
                &&& final(self)@ == stored(old(self)@, address as int, data@)
            },
            !span_in_bounds(address as int, data@.len() as int) ==> {
                &&& result == Err::<usize, Fault>(
                    (Fault::MemoryOutOfBounds { address, count: data@.len() as usize }),
                )
                &&& final(self)@ == old(self)@
            },
    {
        let number_of_bytes = data.len();
        if address > RAM_SIZE_IN_BYTES || number_of_bytes > RAM_SIZE_IN_BYTES - address {
            return Err(Fault::MemoryOutOfBounds { address, count: number_of_bytes });
        }
        let mut byte_index: usize = 0;
        while byte_index < number_of_bytes
            invariant
                byte_index <= number_of_bytes,
                number_of_bytes == data@.len(),
                address + number_of_bytes <= RAM_SIZE_IN_BYTES,
                self@ =~= stored(old(self)@, address as int, data@.take(byte_index as int)),
            decreases number_of_bytes - byte_index,
        {
            self.data[address + byte_index] = data[byte_index];
            byte_index += 1;
        }
        proof {
            assert(data@.take(number_of_bytes as int) =~= data@);
        }
        Ok(number_of_bytes)
    }

    /// A view of exactly `bytes_to_read` bytes starting at `address`.
    pub fn read(&self, address: usize, bytes_to_read: usize) -> (result: Result<&[u8], Fault>)
        ensures
            span_in_bounds(address as int, bytes_to_read as int) ==> {
                &&& result is Ok
                &&& result->Ok_0@ == self@.subrange(address as int, address + bytes_to_read)
            },
            !span_in_bounds(address as int, bytes_to_read as int) ==> result == Err::<&[u8], Fault>(
                (Fault::MemoryOutOfBounds { address, count: bytes_to_read }),
            ),
    {
        if address > RAM_SIZE_IN_BYTES || bytes_to_read > RAM_SIZE_IN_BYTES - address {
            return Err(Fault::MemoryOutOfBounds { address, count: bytes_to_read });
        }
        Ok(vstd::slice::slice_subrange(self.data.as_slice(), address, address + bytes_to_read))
    }
}

impl Default for RAM {
    /// A zero-filled memory.
    fn default() -> (ram: RAM)
        ensures
            ram@ == zeroed(),
    {
        RAM::new()
    }
}

} // verus!
