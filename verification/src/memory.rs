//! Regions of a process's address space.

use crate::bytes::pointer_width;
use crate::error::EngineError;
use vstd::prelude::*;

verus! {

/// Pages that are backed by storage.
pub const MEM_COMMIT: u32 = 0x1000;

/// Pages that belong to a mapped executable image.
pub const MEM_IMAGE: u32 = 0x100_0000;

/// Read-only pages.
pub const PAGE_READONLY: u32 = 0x02;

/// Pages that can be read and written.
pub const PAGE_READWRITE: u32 = 0x04;

/// Pages that are copied when written.
pub const PAGE_WRITECOPY: u32 = 0x08;

/// Pages that can be executed.
pub const PAGE_EXECUTE: u32 = 0x10;

/// Pages that can be executed and read.
pub const PAGE_EXECUTE_READ: u32 = 0x20;

/// Pages that can be executed, read and written.
pub const PAGE_EXECUTE_READWRITE: u32 = 0x40;

/// Pages that can be executed and are copied when written.
pub const PAGE_EXECUTE_WRITECOPY: u32 = 0x80;

/// A run of pages with the same attributes, as the operating system reports it.
#[derive(Debug, Clone, Copy)]
pub struct MemoryRegion {
    /// Address of the first page.
    pub base_address: usize,
    /// Address of the allocation that the pages belong to.
    pub allocation_base: usize,
    /// Protection that the allocation was made with.
    pub allocation_protect: u32,
    /// Size of the region in bytes.
    pub region_size: usize,
    /// Whether the pages are committed, reserved or free.
    pub state: u32,
    /// Current protection of the pages.
    pub protect: u32,
    /// Whether the pages are private, mapped or part of an image.
    pub type_: u32,
}

impl MemoryRegion {
    /// The region ends inside the address space.
    pub open spec fn fits(&self) -> bool {
        self.base_address + self.region_size <= usize::MAX
    }

    /// Address one past the last byte of a region that fits.
    pub open spec fn end(&self) -> int {
        self.base_address + self.region_size
    }
}

/// Memory that was allocated in the target process.
#[derive(Clone, Copy, Debug, PartialEq, Eq, Structural)]
pub struct AllocRegion {
    /// Address of the first byte.
    pub base_address: usize,
    /// Size in bytes.
    pub region_size: usize,
}

impl AllocRegion {
    /// The region ends inside the address space.
    pub open spec fn fits(&self) -> bool {
        self.base_address + self.region_size <= usize::MAX
    }

    /// The address lies in the region.
    pub open spec fn holds(&self, address: int) -> bool {
        self.base_address <= address < self.base_address + self.region_size
    }
}

/// Bytes to write at `address` in the target process.
#[derive(Debug, Clone)]
pub struct MemoryWrite {
    pub address: usize,
    pub data: Vec<u8>,
}

/// Writes as plain values: where, and what.
pub open spec fn writes_view(writes: Seq<MemoryWrite>) -> Seq<(int, Seq<u8>)> {
    Seq::new(writes.len(), |i: int| (writes[i].address as int, writes[i].data@))
}

/// The memory of a process: the byte at each address.
pub type Memory = Map<int, u8>;

/// Memory after `data` was written at `address`.
pub open spec fn write_to(memory: Memory, address: int, data: Seq<u8>) -> Memory {
    Map::new(
        |a: int| true,
        |a: int|
            if address <= a < address + data.len() {
                data[a - address]
            } else {
                memory[a]
            },
    )
}

/// Memory after the first `count` of the writes were made in order.
pub open spec fn write_all(memory: Memory, writes: Seq<(int, Seq<u8>)>, count: int) -> Memory
    decreases count,
{
    if count <= 0 {
        memory
    } else {
        write_to(write_all(memory, writes, count - 1), writes[count - 1].0, writes[count - 1].1)
    }
}

/// The bytes that memory holds from `address` on are `data`.
pub open spec fn holds_at(memory: Memory, address: int, data: Seq<u8>) -> bool {
    forall|i: int| 0 <= i < data.len() ==> memory[address + i] == #[trigger] data[i]
}

/// A request to read `length` bytes at `address` from the target process.
#[derive(Debug, Clone, Copy, PartialEq, Eq, Structural)]
pub struct ReadRequest {
    pub address: usize,
    pub length: usize,
}

/// What a transfer comes to. Transfers are all or nothing: a read that failed
/// and a read that brought another number of bytes than asked for are both
/// failures; otherwise the bytes are the result.
pub open spec fn transferred(request: ReadRequest, data: Option<Seq<u8>>) -> Result<
    Seq<u8>,
    EngineError,
> {
    match data {
        Some(bytes) => if bytes.len() == request.length {
            Ok(bytes)
        } else {
            Err(EngineError::MemoryTransfer)
        },
        None => Err(EngineError::MemoryTransfer),
    }
}

/// Judges the outcome of a read: the bytes that came, or `None` if the read
/// failed.
pub fn complete_read<'a>(request: ReadRequest, data: Option<&'a [u8]>) -> (outcome: Result<
    &'a [u8],
    EngineError,
>)
    ensures
        match transferred(
            request,
            match data {
                Some(bytes) => Some(bytes@),
                None => None,
            },
        ) {
            Ok(bytes) => outcome is Ok && outcome->Ok_0@ == bytes,
            Err(e) => outcome is Err && outcome->Err_0 == e,
        },
{
    match data {
        Some(bytes) => {
            if bytes.len() == request.length {
                Ok(bytes)
            } else {
                Err(EngineError::MemoryTransfer)
            }
        },
        None => Err(EngineError::MemoryTransfer),
    }
}

/// Judges the outcome of a write: the number of bytes that were written, or
/// `None` if the write failed. A write that moved another number of bytes
/// than it holds is a failure like one that failed.
pub fn complete_write(write: &MemoryWrite, written: Option<usize>) -> (outcome: Result<
    (),
    EngineError,
>)
    ensures
        outcome == if written == Some(write.data@.len() as usize) {
            Ok::<(), EngineError>(())
        } else {
            Err::<(), EngineError>(EngineError::MemoryTransfer)
        },
{
    match written {
        Some(count) => {
            if count == write.data.len() {
                Ok(())
            } else {
                Err(EngineError::MemoryTransfer)
            }
        },
        None => Err(EngineError::MemoryTransfer),
    }
}

/// The read that fetches a pointer at `address`: eight bytes on a 64-bit
/// machine, four on a 32-bit one.
pub fn read_pointer(address: usize) -> (request: ReadRequest)
    ensures
        request.address == address,
        request.length == pointer_width(),
{
    ReadRequest { address, length: (usize::BITS / 8) as usize }
}

/// The rights that a protection value grants, spelled with `R`, `W`, `X` and
/// `C`. The first of these bits that is set decides: execute, execute-read,
/// execute-read-write, execute-write-copy, read-only, read-write,
/// write-copy. Without any of them the text is `---`.
pub open spec fn protection_text(protect: u32) -> Seq<char> {
    if protect & PAGE_EXECUTE != 0 {
        "X"@
    } else if protect & PAGE_EXECUTE_READ != 0 {
        "RX"@
    } else if protect & PAGE_EXECUTE_READWRITE != 0 {
        "RWX"@
    } else if protect & PAGE_EXECUTE_WRITECOPY != 0 {
        "RWXC"@
    } else if protect & PAGE_READONLY != 0 {
        "R"@
    } else if protect & PAGE_READWRITE != 0 {
        "RW"@
    } else if protect & PAGE_WRITECOPY != 0 {
        "RWC"@
    } else {
        "---"@
    }
}

/// Spells out the rights that a protection value grants.
pub fn get_protection_string(protect: u32) -> (text: String)
    ensures
        text@ == protection_text(protect),
{
    let rights: &str = if protect & PAGE_EXECUTE != 0 {
        "X"
    } else if protect & PAGE_EXECUTE_READ != 0 {
        "RX"
    } else if protect & PAGE_EXECUTE_READWRITE != 0 {
        "RWX"
    } else if protect & PAGE_EXECUTE_WRITECOPY != 0 {
        "RWXC"
    } else if protect & PAGE_READONLY != 0 {
        "R"
    } else if protect & PAGE_READWRITE != 0 {
        "RW"
    } else if protect & PAGE_WRITECOPY != 0 {
        "RWC"
    } else {
        "---"
    };
    rights.to_string()
}

/// A walk through the address space of a process that gathers its committed
/// regions. The walk asks the operating system about one address at a time,
/// starting at zero, and goes on behind the region that the answer
/// describes.
#[derive(Debug)]
pub struct RegionWalk {
    /// The address to ask about next.
    pub address: usize,
    /// Whether the walk is over.
    pub done: bool,
    /// The committed regions met so far, in ascending order of the walk.
    pub regions: Vec<MemoryRegion>,
}

impl RegionWalk {
    /// A walk that starts at address zero.
    pub fn new() -> (walk: RegionWalk)
        ensures
            walk.address == 0,
            !walk.done,
            walk.regions@.len() == 0,
    {
        RegionWalk { address: 0, done: false, regions: Vec::new() }
    }

    /// The address to ask about next, or `None` when the walk is over.
    pub fn next_query(&self) -> (address: Option<usize>)
        ensures
            address == if self.done {
                None
            } else {
                Some(self.address)
            },
    {
        if self.done {
            None
        } else {
            Some(self.address)
        }
    }

    /// Takes in the answer to the query: the region that holds the address,
    /// or `None` if the operating system had none to report, which ends the
    /// walk. A committed region is kept. The walk goes on at the address
    /// asked about plus the size of the region; it ends where that leaves
    /// the address space, or where a region without size would halt it.
    pub fn on_query(&mut self, answer: Option<MemoryRegion>)
        requires
            !old(self).done,
        ensures
            final(self).regions@ == match answer {
                Some(region) => if region.state == MEM_COMMIT {
                    old(self).regions@.push(region)
                } else {
                    old(self).regions@
                },
                None => old(self).regions@,
            },
            final(self).done == match answer {
                Some(region) => region.region_size == 0 || old(self).address + region.region_size
                    > usize::MAX,
                None => true,
            },
            !final(self).done ==> final(self).address == old(self).address
                + answer->0.region_size,
            final(self).done ==> final(self).address == old(self).address,
    {
        match answer {
            None => {
                self.done = true;
            },
            Some(region) => {
                if region.state == MEM_COMMIT {
                    self.regions.push(region);
                }
                if region.region_size == 0 {
                    self.done = true;
                } else {
                    match self.address.checked_add(region.region_size) {
                        Some(next) => {
                            self.address = next;
                        },
                        None => {
                            self.done = true;
                        },
                    }
                }
            },
        }
    }
}

} // verus!
