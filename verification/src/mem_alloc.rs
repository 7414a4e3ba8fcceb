//! An arena of named variables in the target process.
//!
//! The arena is one region of memory that was allocated in the target
//! process. Variables are carved from it one behind the other. The arena
//! never grows and never takes a variable back: it is freed as a whole.

use crate::bytes::convert_string_utf16_to_scan_data;
use crate::bytes::copy_bytes;
use crate::bytes::units_le_bytes;
use crate::bytes::utf16_encode;
use crate::error::EngineError;
use crate::memory::writes_view;
use crate::memory::AllocRegion;
use crate::memory::MemoryWrite;
use crate::memory::ReadRequest;
use vstd::prelude::*;
use vstd::utf8::encode_utf8;

verus! {

/// What kind of value a variable holds.
#[derive(Debug, Clone, Copy, PartialEq, Eq, Structural)]
pub enum DataType {
    U8,
    U16,
    U32,
    U64,
    I8,
    I16,
    I32,
    I64,
    F32,
    F64,
    Bool,
    Pointer,
    ByteArray,
}

impl DataType {
    /// Number of bytes that a value of the type takes up; for a byte array,
    /// of one element.
    pub open spec fn width(&self) -> int {
        match *self {
            DataType::U8 | DataType::I8 | DataType::Bool | DataType::ByteArray => 1,
            DataType::U16 | DataType::I16 => 2,
            DataType::U32 | DataType::I32 | DataType::F32 => 4,
            DataType::U64 | DataType::I64 | DataType::F64 | DataType::Pointer => 8,
        }
    }

    /// Computes the number of bytes that a value of the type takes up.
    pub fn size(&self) -> (size: usize)
        ensures
            size == self.width(),
    {
        match *self {
            DataType::U8 | DataType::I8 | DataType::Bool => 1,
            DataType::U16 | DataType::I16 => 2,
            DataType::U32 | DataType::I32 | DataType::F32 => 4,
            DataType::U64 | DataType::I64 | DataType::F64 => 8,
            DataType::Pointer => 8,
            DataType::ByteArray => 1,
        }
    }
}

/// A variable of an arena.
#[derive(Debug, Clone)]
pub struct Variable {
    pub name: String,
    pub address: usize,
    pub size: usize,
    pub data_type: DataType,
}

/// Index of the first variable at or after `from` that has the name, if
/// there is one.
pub open spec fn position_from(variables: Seq<Variable>, name: Seq<char>, from: int) -> Option<
    int,
>
    decreases variables.len() - from,
{
    if from < 0 || from >= variables.len() {
        None
    } else if variables[from].name@ == name {
        Some(from)
    } else {
        position_from(variables, name, from + 1)
    }
}

/// Index of the variable that has the name, if there is one.
pub open spec fn position(variables: Seq<Variable>, name: Seq<char>) -> Option<int> {
    position_from(variables, name, 0)
}

/// A position that is found lies in the list and holds the name; none is
/// found only if no variable has the name.
pub proof fn lemma_position_from(variables: Seq<Variable>, name: Seq<char>, from: int)
    requires
        0 <= from,
    ensures
        match position_from(variables, name, from) {
            Some(i) => from <= i < variables.len() && variables[i].name@ == name,
            None => forall|i: int| from <= i < variables.len() ==> (#[trigger] variables[i]).name@
                != name,
        },
    decreases variables.len() - from,
{
    if from < variables.len() && variables[from].name@ != name {
        lemma_position_from(variables, name, from + 1);
    }
}

/// An arena and its variables.
#[derive(Debug)]
pub struct MemoryAllocator {
    /// The process that the arena lies in.
    pub pid: u32,
    /// Address of the arena.
    pub allocated_addr: usize,
    /// Size of the arena.
    pub allocated_size: usize,
    /// Address of the next variable.
    pub next_free_addr: usize,
    /// Number of bytes that are left.
    pub next_free_size: usize,
    /// The variables, in the order in which they were made.
    pub variables: Vec<Variable>,
}

/// A string that was given a place in an arena, and the writes that put it
/// there.
#[derive(Debug)]
pub struct Placed {
    /// Address of the string.
    pub address: usize,
    /// The writes to make, in order.
    pub writes: Vec<MemoryWrite>,
}

/// The writes that put a string and its terminating zero at `address`.
pub open spec fn string_writes(address: int, text: Seq<u8>) -> Seq<(int, Seq<u8>)> {
    if text.len() > 0 {
        seq![(address, text), (address + text.len(), seq![0u8])]
    } else {
        seq![(address, seq![0u8])]
    }
}

/// The writes that put UTF-16 text at `address`, and a zero into the last two
/// of `size` bytes.
pub open spec fn wide_string_writes(address: int, text: Seq<u8>, size: int) -> Seq<
    (int, Seq<u8>),
> {
    if text.len() > 0 {
        seq![(address, text), (address + size - 2, seq![0u8, 0u8])]
    } else {
        seq![(address + size - 2, seq![0u8, 0u8])]
    }
}

impl MemoryAllocator {
    /// The arena as a region.
    pub open spec fn region(&self) -> AllocRegion {
        AllocRegion { base_address: self.allocated_addr, region_size: self.allocated_size }
    }

    /// The arena ends inside the address space; what is used and what is
    /// left make up the arena; the variables lie one behind the other in the
    /// used part, in the order in which they were made; no two have the same
    /// name.
    pub open spec fn wf(&self) -> bool {
        &&& self.allocated_addr + self.allocated_size <= usize::MAX
        &&& self.allocated_addr <= self.next_free_addr
        &&& self.next_free_addr + self.next_free_size == self.allocated_addr + self.allocated_size
        &&& forall|i: int|
            0 <= i < self.variables@.len() ==> self.allocated_addr <= (
            #[trigger] self.variables@[i]).address && self.variables@[i].address
                + self.variables@[i].size <= self.next_free_addr
        &&& forall|i: int, j: int|
            0 <= i < j < self.variables@.len() ==> (#[trigger] self.variables@[i]).address
                + self.variables@[i].size <= (#[trigger] self.variables@[j]).address
        &&& forall|i: int, j: int|
            0 <= i < j < self.variables@.len() ==> (#[trigger] self.variables@[i]).name@ != (
            #[trigger] self.variables@[j]).name@
    }

    /// What making a variable of `size` bytes called `name` comes to: it
    /// fails if the arena has fewer bytes left, or else if the name is
    /// taken; otherwise the variable gets the first free address.
    pub open spec fn allocation(&self, name: Seq<char>, size: int) -> Result<usize, EngineError> {
        if size > self.next_free_size {
            Err(EngineError::OutOfSpace)
        } else if position(self.variables@, name) is Some {
            Err(EngineError::VariableExists)
        } else {
            Ok(self.next_free_addr)
        }
    }

    /// An arena in the region `region` of the process `pid`, without
    /// variables. A region that ends outside the address space is refused.
    pub fn new(pid: u32, region: AllocRegion) -> (arena: Result<MemoryAllocator, EngineError>)
        ensures
            arena is Ok <==> region.fits(),
            arena is Err ==> arena == Err::<MemoryAllocator, EngineError>(
                EngineError::AllocationFailure,
            ),
            arena is Ok ==> {
                let a = arena->Ok_0;
                &&& a.wf()
                &&& a.pid == pid
                &&& a.region() == region
                &&& a.next_free_addr == region.base_address
                &&& a.next_free_size == region.region_size
                &&& a.variables@.len() == 0
            },
    {
        if region.region_size > usize::MAX - region.base_address {
            return Err(EngineError::AllocationFailure);
        }
        Ok(
            MemoryAllocator {
                pid,
                allocated_addr: region.base_address,
                allocated_size: region.region_size,
                next_free_addr: region.base_address,
                next_free_size: region.region_size,
                variables: Vec::new(),
            },
        )
    }

    /// Finds the variable called `name`.
    fn find(&self, name: &str) -> (index: Option<usize>)
        ensures
            match index {
                Some(i) => position(self.variables@, name@) == Some(i as int) && i
                    < self.variables@.len() && self.variables@[i as int].name@ == name@,
                None => position(self.variables@, name@) is None,
            },
    {
        let wanted = name.to_string();
        let mut i: usize = 0;
        while i < self.variables.len()
            invariant
                i <= self.variables@.len(),
                wanted@ == name@,
                position(self.variables@, name@) == position_from(
                    self.variables@,
                    name@,
                    i as int,
                ),
            decreases self.variables@.len() - i,
        {
            if self.variables[i].name == wanted {
                return Some(i);
            }
            i = i + 1;
        }
        None
    }

    /// Makes a variable of the given type.
    pub fn allocate_var(&mut self, name: &str, data_type: DataType) -> (address: Result<
        usize,
        EngineError,
    >)
        requires
            old(self).wf(),
        ensures
            final(self).wf(),
            address == old(self).allocation(name@, data_type.width()),
            address is Err ==> *final(self) == *old(self),
            address is Ok ==> final(self).grown(*old(self), name@, data_type.width(), data_type),
    {
        let size = data_type.size();
        self.allocate_var_with_size(name, data_type, size)
    }

    /// This arena is `before` with one more variable, at the first address
    /// that was free.
    pub open spec fn grown(
        &self,
        before: MemoryAllocator,
        name: Seq<char>,
        size: int,
        data_type: DataType,
    ) -> bool {
        &&& self.pid == before.pid
        &&& self.region() == before.region()
        &&& self.next_free_addr == before.next_free_addr + size
        &&& self.next_free_size == before.next_free_size - size
        &&& self.variables@.len() == before.variables@.len() + 1
        &&& self.variables@.take(before.variables@.len() as int) == before.variables@
        &&& self.variables@.last().name@ == name
        &&& self.variables@.last().address == before.next_free_addr
        &&& self.variables@.last().size == size
        &&& self.variables@.last().data_type == data_type
    }

    /// Makes a variable of the given type and size.
    pub fn allocate_var_with_size(&mut self, name: &str, data_type: DataType, size: usize) -> (address:
        Result<usize, EngineError>)
        requires
            old(self).wf(),
        ensures
            final(self).wf(),
            address == old(self).allocation(name@, size as int),
            address is Err ==> *final(self) == *old(self),
            address is Ok ==> final(self).grown(*old(self), name@, size as int, data_type),
    {
        if size > self.next_free_size {
            return Err(EngineError::OutOfSpace);
        }
        if self.find(name).is_some() {
            return Err(EngineError::VariableExists);
        }
        proof {
            lemma_position_from(self.variables@, name@, 0);
        }
        let address = self.next_free_addr;
        let ghost before = self.variables@;
        self.variables.push(Variable { name: name.to_string(), address, size, data_type });
        self.next_free_addr = self.next_free_addr + size;
        self.next_free_size = self.next_free_size - size;
        proof {
            assert(self.variables@.take(before.len() as int) =~= before);
            assert forall|i: int| 0 <= i < self.variables@.len() implies self.allocated_addr <= (
            #[trigger] self.variables@[i]).address && self.variables@[i].address
                + self.variables@[i].size <= self.next_free_addr by {
                if i < before.len() {
                    assert(self.variables@[i] == before[i]);
                }
            }
            assert forall|i: int, j: int| 0 <= i < j < self.variables@.len() implies (
            #[trigger] self.variables@[i]).address + self.variables@[i].size <= (
            #[trigger] self.variables@[j]).address by {
                assert(self.variables@[i] == before[i]);
                if j < before.len() {
                    assert(self.variables@[j] == before[j]);
                }
            }
            assert forall|i: int, j: int| 0 <= i < j < self.variables@.len() implies (
            #[trigger] self.variables@[i]).name@ != (#[trigger] self.variables@[j]).name@ by {
                assert(self.variables@[i] == before[i]);
                if j < before.len() {
                    assert(self.variables@[j] == before[j]);
                }
            }
        }
        Ok(address)
    }

    /// Makes a byte array for a string and its terminating zero, and says
    /// how to fill it: the text as UTF-8, then the zero.
    pub fn allocate_string(&mut self, name: &str, text: &str) -> (placed: Result<
        Placed,
        EngineError,
    >)
        requires
            old(self).wf(),
        ensures
            final(self).wf(),
            match old(self).allocation(name@, (encode_utf8(text@).len() + 1) as int) {
                Err(e) => placed is Err && placed->Err_0 == e && *final(self) == *old(self),
                Ok(address) => {
                    &&& placed is Ok
                    &&& placed->Ok_0.address == address
                    &&& final(self).grown(
                        *old(self),
                        name@,
                        (encode_utf8(text@).len() + 1) as int,
                        DataType::ByteArray,
                    )
                    &&& writes_view(placed->Ok_0.writes@) == string_writes(
                        address as int,
                        encode_utf8(text@),
                    )
                },
            },
    {
        let bytes = text.as_bytes();
        if bytes.len() >= self.next_free_size {
            return Err(EngineError::OutOfSpace);
        }
        let size = bytes.len() + 1;
        let address = match self.allocate_var_with_size(name, DataType::ByteArray, size) {
            Ok(address) => address,
            Err(e) => {
                return Err(e);
            },
        };
        let mut writes: Vec<MemoryWrite> = Vec::new();
        if bytes.len() > 0 {
            writes.push(MemoryWrite { address, data: copy_bytes(bytes) });
        }
        let mut zero: Vec<u8> = Vec::new();
        zero.push(0);
        writes.push(MemoryWrite { address: address + size - 1, data: zero });
        assert(writes_view(writes@) =~= string_writes(address as int, encode_utf8(text@)));
        Ok(Placed { address, writes })
    }

    /// Makes a byte array for a string as UTF-16 text and its terminating
    /// zero, and says how to fill it. The array is given two bytes for each
    /// byte that the text has as UTF-8, and two more; the zero is put into
    /// the last two.
    pub fn allocate_wide_string(&mut self, name: &str, text: &str) -> (placed: Result<
        Placed,
        EngineError,
    >)
        requires
            old(self).wf(),
        ensures
            final(self).wf(),
            match old(self).allocation(name@, (2 * encode_utf8(text@).len() + 2) as int) {
                Err(e) => placed is Err && placed->Err_0 == e && *final(self) == *old(self),
                Ok(address) => {
                    &&& placed is Ok
                    &&& placed->Ok_0.address == address
                    &&& final(self).grown(
                        *old(self),
                        name@,
                        (2 * encode_utf8(text@).len() + 2) as int,
                        DataType::ByteArray,
                    )
                    &&& writes_view(placed->Ok_0.writes@) == wide_string_writes(
                        address as int,
                        units_le_bytes(utf16_encode(text@)),
                        (2 * encode_utf8(text@).len() + 2) as int,
                    )
                },
            },
    {
        let length = text.as_bytes().len();
        if self.next_free_size < 2 || length > (self.next_free_size - 2) / 2 {
            return Err(EngineError::OutOfSpace);
        }
        let size = 2 * length + 2;
        let address = match self.allocate_var_with_size(name, DataType::ByteArray, size) {
            Ok(address) => address,
            Err(e) => {
                return Err(e);
            },
        };
        let data = convert_string_utf16_to_scan_data(text);
        let mut writes: Vec<MemoryWrite> = Vec::new();
        if data.len() > 0 {
            writes.push(MemoryWrite { address, data });
        }
        let mut zero: Vec<u8> = Vec::new();
        zero.push(0);
        zero.push(0);
        assert(zero@ =~= seq![0u8, 0u8]);
        writes.push(MemoryWrite { address: address + size - 2, data: zero });
        assert(writes_view(writes@) =~= wide_string_writes(
            address as int,
            units_le_bytes(utf16_encode(text@)),
            size as int,
        ));
        Ok(Placed { address, writes })
    }

    /// The address of the variable called `name`.
    pub fn get_var_address(&self, name: &str) -> (address: Option<usize>)
        ensures
            address == match position(self.variables@, name@) {
                Some(i) => Some(self.variables@[i].address),
                None => None,
            },
    {
        match self.find(name) {
            Some(i) => Some(self.variables[i].address),
            None => None,
        }
    }

    /// The write that gives the variable called `name` a value, which must
    /// be as large as the variable.
    pub fn write_var(&self, name: &str, value: &[u8]) -> (write: Result<MemoryWrite, EngineError>)
        ensures
            match position(self.variables@, name@) {
                None => write is Err && write->Err_0 == EngineError::VariableNotFound,
                Some(i) => if value@.len() != self.variables@[i].size {
                    write is Err && write->Err_0 == EngineError::SizeMismatch
                } else {
                    write is Ok && write->Ok_0.address == self.variables@[i].address
                        && write->Ok_0.data@ == value@
                },
            },
    {
        match self.find(name) {
            None => Err(EngineError::VariableNotFound),
            Some(i) => {
                if value.len() != self.variables[i].size {
                    Err(EngineError::SizeMismatch)
                } else {
                    Ok(MemoryWrite { address: self.variables[i].address, data: copy_bytes(value) })
                }
            },
        }
    }

    /// The write that puts bytes at the start of the variable called `name`,
    /// which must be large enough for them.
    pub fn write_byte_array(&self, name: &str, bytes: &[u8]) -> (write: Result<
        MemoryWrite,
        EngineError,
    >)
        ensures
            match position(self.variables@, name@) {
                None => write is Err && write->Err_0 == EngineError::VariableNotFound,
                Some(i) => if bytes@.len() > self.variables@[i].size {
                    write is Err && write->Err_0 == EngineError::SizeMismatch
                } else {
                    write is Ok && write->Ok_0.address == self.variables@[i].address
                        && write->Ok_0.data@ == bytes@
                },
            },
    {
        match self.find(name) {
            None => Err(EngineError::VariableNotFound),
            Some(i) => {
                if bytes.len() > self.variables[i].size {
                    Err(EngineError::SizeMismatch)
                } else {
                    Ok(MemoryWrite { address: self.variables[i].address, data: copy_bytes(bytes) })
                }
            },
        }
    }

    /// The read that fetches the variable called `name` as a value of `size`
    /// bytes, which must be the size of the variable.
    pub fn read_var(&self, name: &str, size: usize) -> (read: Result<ReadRequest, EngineError>)
        ensures
            read == match position(self.variables@, name@) {
                None => Err::<ReadRequest, EngineError>(EngineError::VariableNotFound),
                Some(i) => if size != self.variables@[i].size {
                    Err::<ReadRequest, EngineError>(EngineError::SizeMismatch)
                } else {
                    Ok::<ReadRequest, EngineError>(
                        ReadRequest { address: self.variables@[i].address, length: size },
                    )
                },
            },
    {
        match self.find(name) {
            None => Err(EngineError::VariableNotFound),
            Some(i) => {
                if size != self.variables[i].size {
                    Err(EngineError::SizeMismatch)
                } else {
                    Ok(ReadRequest { address: self.variables[i].address, length: size })
                }
            },
        }
    }

    /// The region to free in order to free the arena with all its
    /// variables.
    pub fn free(&self) -> (region: AllocRegion)
        ensures
            region == self.region(),
    {
        AllocRegion { base_address: self.allocated_addr, region_size: self.allocated_size }
    }
}

} // verus!
