//! Resolving the functions of a HashLink runtime by name.
//!
//! The runtime keeps, for the bytecode it has loaded, a table of pointers to
//! the compiled functions. The resolver finds that table in the memory of the
//! process and pairs it with the names from the bytecode file. It does so
//! step by step: it says what to scan for or read next, and is told what was
//! found.

use crate::allocation::wrap;
use crate::bytes::byte_array_to_dword;
use crate::bytes::byte_array_to_pointer;
use crate::bytes::convert_address_to_scan_data;
use crate::bytes::convert_string_utf16_to_scan_data;
use crate::bytes::le_bytes;
use crate::bytes::le_value;
use crate::bytes::pointer_width;
use crate::bytes::units_le_bytes;
use crate::bytes::utf16_encode;
use crate::error::EngineError;
use crate::memory::ReadRequest;
use crate::memory::MEM_IMAGE;
use crate::memory::PAGE_EXECUTE;
use crate::memory::PAGE_EXECUTE_READ;
use crate::memory::PAGE_EXECUTE_READWRITE;
use crate::memory::PAGE_READWRITE;
use crate::pattern::parse_pattern;
use crate::pattern::pattern_masks;
use crate::pattern::pattern_to_bytes;
use crate::pattern::pattern_values;
use crate::scanner::data_view;
use crate::scanner::RegionFilter;
use vstd::prelude::*;
use vstd::slice::slice_subrange;

verus! {

/// A function of the runtime: its name and where its code lies.
#[derive(Debug, Clone)]
pub struct HLFunction {
    pub name: String,
    pub address: usize,
}

/// A function as the bytecode file lists it: its index in the runtime's
/// function table, and its name.
#[derive(Debug, Clone)]
pub struct BytecodeFunction {
    pub findex: usize,
    pub name: String,
}

/// How far the resolver has come.
#[derive(Debug, Clone, Copy, PartialEq, Eq, Structural)]
pub enum Phase {
    /// Nothing was done yet.
    Uninitialized,
    /// The runtime's string allocator is searched for.
    LocatingAllocator,
    /// The name of the bytecode file is searched for.
    LocatingBootMarker,
    /// A pointer to that name is searched for.
    LocatingModuleStructure,
    /// The places that hold such a pointer are tried for a known version.
    DetectingVersion,
    /// The function table is read, and the names are awaited.
    EnumeratingFunctions,
    /// The functions are known.
    Ready,
    /// The resolver gave up.
    Failed,
}

/// Which read the resolver waits for.
#[derive(Debug, Clone, Copy, PartialEq, Eq, Structural)]
pub enum Stage {
    /// The pointer to the bytecode's header, to try a candidate.
    VersionPointer,
    /// The version number in that header.
    VersionValue,
    /// The pointer to the bytecode's header, to count the functions.
    CodePointer,
    /// The number of functions.
    FunctionCount,
    /// The pointer to the loaded module.
    ModulePointer,
    /// The pointer to the function table.
    TablePointer,
    /// The function table.
    Table,
    /// No read: the names from the bytecode file.
    Names,
}

/// A scan that the resolver asks for.
#[derive(Debug, Clone)]
pub struct ScanRequest {
    /// Bytes of the pattern.
    pub bytes: Vec<u8>,
    /// Which of them are compared.
    pub masks: Vec<bool>,
    /// The regions to search.
    pub filter: RegionFilter,
}

/// What the resolver needs next.
#[derive(Debug, Clone)]
pub enum Request {
    /// The addresses at which a pattern occurs.
    Scan(ScanRequest),
    /// Bytes of the process's memory.
    Read(ReadRequest),
    /// The functions listed in the bytecode file next to the executable.
    Names,
    /// Nothing: the resolver is not at work.
    Idle,
}

/// Machine code of the runtime's string allocator, with the operands left
/// open.
pub const ALLOCATOR_SIGNATURE: &'static str =
    "55 48 8B ?? 48 83 ?? ?? 48 89 ?? ?? 89 ?? ?? 48 B9 ?? ?? ?? ?? ?? ?? ?? ?? 48 B8 ?? ?? ?? ?? ?? ?? ?? ?? 48 83 ?? ?? FF ?? 48 89 ?? ?? ?? 48 83 ?? ?? 48 89 ?? ?? 48 8B ?? ?? 48 89 ?? ?? 8B ?? ?? 89 ?? ?? 48 83 ?? ?? 5D 48 C3";

/// Name of the bytecode file, which the runtime holds as UTF-16 text.
pub const BOOT_FILE: &'static str = "hlboot.dat";

/// Protection of regions that hold code.
pub const EXECUTABLE: u32 = PAGE_EXECUTE | PAGE_EXECUTE_READ | PAGE_EXECUTE_READWRITE;

/// Offset of the pointer to the bytecode's header in the module structure.
pub const CODE_OFFSET: usize = 0x8;

/// Offset of the pointer to the loaded module in the module structure.
pub const MODULE_OFFSET: usize = 0x10;

/// Offset of the pointer to the function table in the loaded module.
pub const TABLE_OFFSET: usize = 0x20;

/// The version is one that the resolver understands.
pub open spec fn known_version(value: u32) -> bool {
    value == 3 || value == 4 || value == 5
}

/// Offset of the number of functions in the bytecode's header, which moved
/// with version 4.
pub open spec fn count_offset(version: u32) -> int {
    if version >= 4 {
        32
    } else {
        28
    }
}

/// Computes the offset of the number of functions.
pub fn nfunctions_offset(version: u32) -> (offset: usize)
    ensures
        offset == count_offset(version),
{
    if version >= 4 {
        32
    } else {
        28
    }
}

/// The addresses of the functions called `name` among the first `upto`
/// functions, in the order of the table.
pub open spec fn addresses_named(functions: Seq<HLFunction>, name: Seq<char>, upto: int) -> Seq<
    usize,
>
    decreases upto,
{
    if upto <= 0 {
        Seq::empty()
    } else if functions[upto - 1].name@ == name {
        addresses_named(functions, name, upto - 1).push(functions[upto - 1].address)
    } else {
        addresses_named(functions, name, upto - 1)
    }
}

/// The addresses of all the functions called `name`, in the order of the
/// table.
pub open spec fn symbol(functions: Seq<HLFunction>, name: Seq<char>) -> Seq<usize> {
    addresses_named(functions, name, functions.len() as int)
}

/// What a lookup gives: the address at that index among the functions of
/// that name; or that the name is unknown; or that the index is too large,
/// with the largest that is not.
pub open spec fn lookup(functions: Seq<HLFunction>, name: Seq<char>, index: int) -> Result<
    usize,
    EngineError,
> {
    let found = symbol(functions, name);
    if 0 <= index < found.len() {
        Ok(found[index])
    } else if found.len() == 0 {
        Err(EngineError::SymbolNotFound)
    } else {
        Err(EngineError::SymbolIndexOutOfRange { max_index: (found.len() - 1) as usize })
    }
}

/// The functions of the first `upto` entries of the bytecode's list whose
/// index lies in the table, each with the address that the table holds for
/// it, in the order of the list.
pub open spec fn correlated(
    table: Seq<usize>,
    listed: Seq<BytecodeFunction>,
    upto: int,
) -> Seq<(Seq<char>, usize)>
    decreases upto,
{
    if upto <= 0 {
        Seq::empty()
    } else if listed[upto - 1].findex < table.len() {
        correlated(table, listed, upto - 1).push(
            (listed[upto - 1].name@, table[listed[upto - 1].findex as int]),
        )
    } else {
        correlated(table, listed, upto - 1)
    }
}

/// Functions as plain values: name and address.
pub open spec fn functions_view(functions: Seq<HLFunction>) -> Seq<(Seq<char>, usize)> {
    Seq::new(functions.len(), |i: int| (functions[i].name@, functions[i].address))
}

/// The pointers that a function table of `count` entries holds.
pub open spec fn table_entries(table: Seq<u8>, count: int) -> Seq<usize> {
    Seq::new(
        count as nat,
        |i: int|
            le_value(table.subrange(i * pointer_width(), (i + 1) * pointer_width())) as usize,
    )
}

/// Pairs the function table with the names from the bytecode file.
pub fn correlate(table: &Vec<usize>, listed: &Vec<BytecodeFunction>) -> (functions: Vec<
    HLFunction,
>)
    ensures
        functions_view(functions@) == correlated(table@, listed@, listed@.len() as int),
{
    let mut functions: Vec<HLFunction> = Vec::new();
    let mut i: usize = 0;
    assert(functions_view(functions@) =~= correlated(table@, listed@, 0));
    while i < listed.len()
        invariant
            i <= listed@.len(),
            functions_view(functions@) == correlated(table@, listed@, i as int),
        decreases listed@.len() - i,
    {
        let ghost before = functions@;
        if listed[i].findex < table.len() {
            let function = HLFunction {
                name: listed[i].name.clone(),
                address: table[listed[i].findex],
            };
            functions.push(function);
            assert(functions_view(functions@) =~= functions_view(before).push(
                (listed@[i as int].name@, table@[listed@[i as int].findex as int]),
            ));
        }
        i = i + 1;
    }
    functions
}

/// Reads the pointers out of a function table.
pub fn parse_function_table(table: &[u8], count: usize) -> (entries: Vec<usize>)
    requires
        table@.len() == count * pointer_width(),
    ensures
        entries@ == table_entries(table@, count as int),
{
    let width: usize = (usize::BITS / 8) as usize;
    let size = table.len();
    let mut entries: Vec<usize> = Vec::new();
    let mut i: usize = 0;
    let mut at: usize = 0;
    assert(entries@ =~= table_entries(table@, 0));
    while i < count
        invariant
            i <= count,
            width == pointer_width(),
            size == table@.len(),
            size == count * width,
            at == i * width,
            entries@ == table_entries(table@, i as int),
        decreases count - i,
    {
        assert(i * width + width <= count * width) by (nonlinear_arith)
            requires
                i < count,
                width >= 0,
        ;
        assert((i + 1) * width == i * width + width) by (nonlinear_arith);
        let entry = slice_subrange(table, at, at + width);
        let address = byte_array_to_pointer(entry);
        entries.push(address);
        i = i + 1;
        at = at + width;
        assert(entries@ =~= table_entries(table@, i as int));
    }
    entries
}

/// The resolver of one process.
#[derive(Debug)]
pub struct Hashlink {
    /// The process whose functions are resolved.
    pub pid: u32,
    /// Address of the runtime's string allocator.
    pub address_allocstring: usize,
    /// The functions, once they are known.
    pub functions: Vec<HLFunction>,
    /// Version of the runtime's bytecode format.
    pub hashlink_version: u32,
    /// Address of the name of the bytecode file.
    pub hlbootdat_address: usize,
    /// Address of the module structure.
    pub structure_address: usize,
    /// How far the resolver has come.
    pub phase: Phase,
    /// Which read it waits for.
    pub stage: Stage,
    /// Why it gave up, if it did.
    pub failure: Option<EngineError>,
    /// The places that may be the module structure.
    pub candidates: Vec<usize>,
    /// Index of the one that is being tried.
    pub candidate: usize,
    /// The pointer that was read last.
    pub pointer: usize,
    /// Number of functions in the table.
    pub nfunctions: u32,
    /// The function table.
    pub function_list: Vec<usize>,
}

/// The resolver as plain values.
pub struct ResolverModel {
    pub pid: u32,
    pub address_allocstring: usize,
    pub functions: Seq<(Seq<char>, usize)>,
    pub hashlink_version: u32,
    pub hlbootdat_address: usize,
    pub structure_address: usize,
    pub phase: Phase,
    pub stage: Stage,
    pub failure: Option<EngineError>,
    pub candidates: Seq<usize>,
    pub candidate: int,
    pub pointer: usize,
    pub nfunctions: u32,
    pub function_list: Seq<usize>,
}

/// A request as plain values.
pub enum RequestModel {
    Scan { bytes: Seq<u8>, masks: Seq<bool>, filter: RegionFilter },
    Read(ReadRequest),
    Names,
    Idle,
}

/// A mask that compares every position.
pub open spec fn all_exact(length: nat) -> Seq<bool> {
    Seq::new(length, |i: int| true)
}

/// The request as plain values.
pub open spec fn request_view(request: Request) -> RequestModel {
    match request {
        Request::Scan(scan) => RequestModel::Scan {
            bytes: scan.bytes@,
            masks: scan.masks@,
            filter: scan.filter,
        },
        Request::Read(read) => RequestModel::Read(read),
        Request::Names => RequestModel::Names,
        Request::Idle => RequestModel::Idle,
    }
}

/// The outcome of a scan as plain values.
pub open spec fn scan_view(found: Result<Vec<usize>, EngineError>) -> Result<
    Seq<usize>,
    EngineError,
> {
    match found {
        Ok(addresses) => Ok(addresses@),
        Err(e) => Err(e),
    }
}

/// The outcome of reading the bytecode file as plain values.
pub open spec fn names_view(listed: Result<Vec<BytecodeFunction>, EngineError>) -> Result<
    Seq<BytecodeFunction>,
    EngineError,
> {
    match listed {
        Ok(functions) => Ok(functions@),
        Err(e) => Err(e),
    }
}

impl ResolverModel {
    /// A resolver for the process `pid` that has done nothing yet.
    pub open spec fn fresh(pid: u32) -> ResolverModel {
        ResolverModel {
            pid,
            address_allocstring: 0,
            functions: Seq::empty(),
            hashlink_version: 0,
            hlbootdat_address: 0,
            structure_address: 0,
            phase: Phase::Uninitialized,
            stage: Stage::VersionPointer,
            failure: None,
            candidates: Seq::empty(),
            candidate: 0,
            pointer: 0,
            nfunctions: 0,
            function_list: Seq::empty(),
        }
    }

    /// A scan for bytes that are all compared.
    pub open spec fn exact_scan(bytes: Seq<u8>, filter: RegionFilter) -> RequestModel {
        RequestModel::Scan { bytes, masks: all_exact(bytes.len()), filter }
    }

    /// A read of a pointer.
    pub open spec fn pointer_read(address: int) -> RequestModel {
        RequestModel::Read(
            ReadRequest { address: wrap(address), length: pointer_width() as usize },
        )
    }

    /// What the resolver needs next.
    pub open spec fn request(self) -> RequestModel {
        match (self.phase, self.stage) {
            (Phase::LocatingAllocator, _) => RequestModel::Scan {
                bytes: pattern_values(parse_pattern(ALLOCATOR_SIGNATURE@)),
                masks: pattern_masks(parse_pattern(ALLOCATOR_SIGNATURE@)),
                filter: RegionFilter::Protection(EXECUTABLE),
            },
            (Phase::LocatingBootMarker, _) => Self::exact_scan(
                units_le_bytes(utf16_encode(BOOT_FILE@)),
                RegionFilter::Type(MEM_IMAGE),
            ),
            (Phase::LocatingModuleStructure, _) => Self::exact_scan(
                le_bytes(self.hlbootdat_address as nat, pointer_width()),
                RegionFilter::Protection(PAGE_READWRITE),
            ),
            (Phase::DetectingVersion, Stage::VersionPointer) => Self::pointer_read(
                self.structure_address + CODE_OFFSET,
            ),
            (Phase::DetectingVersion, Stage::VersionValue) => RequestModel::Read(
                ReadRequest { address: self.pointer, length: 4 },
            ),
            (Phase::EnumeratingFunctions, Stage::CodePointer) => Self::pointer_read(
                self.structure_address + CODE_OFFSET,
            ),
            (Phase::EnumeratingFunctions, Stage::FunctionCount) => RequestModel::Read(
                ReadRequest {
                    address: wrap(self.pointer + count_offset(self.hashlink_version)),
                    length: 4,
                },
            ),
            (Phase::EnumeratingFunctions, Stage::ModulePointer) => Self::pointer_read(
                self.structure_address + MODULE_OFFSET,
            ),
            (Phase::EnumeratingFunctions, Stage::TablePointer) => Self::pointer_read(
                self.pointer + TABLE_OFFSET,
            ),
            (Phase::EnumeratingFunctions, Stage::Table) => RequestModel::Read(
                ReadRequest {
                    address: self.pointer,
                    length: (self.nfunctions * pointer_width()) as usize,
                },
            ),
            (Phase::EnumeratingFunctions, Stage::Names) => RequestModel::Names,
            _ => RequestModel::Idle,
        }
    }

    /// The resolver after it gave up.
    pub open spec fn fail(self, error: EngineError) -> ResolverModel {
        ResolverModel { phase: Phase::Failed, failure: Some(error), ..self }
    }

    /// The resolver after it was set to work.
    pub open spec fn start(self) -> ResolverModel {
        if self.phase == Phase::Uninitialized {
            ResolverModel { phase: Phase::LocatingAllocator, ..self }
        } else {
            self
        }
    }

    /// The resolver after a scan. The first address found is the one that
    /// counts, except for the module structure, where every address found is
    /// a candidate. A scan that failed or found nothing ends the resolving.
    pub open spec fn after_scan(self, found: Result<Seq<usize>, EngineError>) -> ResolverModel {
        if self.phase != Phase::LocatingAllocator && self.phase != Phase::LocatingBootMarker
            && self.phase != Phase::LocatingModuleStructure {
            self
        } else {
            match found {
                Err(e) => self.fail(e),
                Ok(addresses) => if addresses.len() == 0 {
                    self.fail(EngineError::PatternNotFound)
                } else if self.phase == Phase::LocatingAllocator {
                    ResolverModel {
                        address_allocstring: addresses[0],
                        phase: Phase::LocatingBootMarker,
                        ..self
                    }
                } else if self.phase == Phase::LocatingBootMarker {
                    ResolverModel {
                        hlbootdat_address: addresses[0],
                        phase: Phase::LocatingModuleStructure,
                        ..self
                    }
                } else {
                    ResolverModel {
                        candidates: addresses,
                        candidate: 0,
                        structure_address: addresses[0],
                        phase: Phase::DetectingVersion,
                        stage: Stage::VersionPointer,
                        ..self
                    }
                },
            }
        }
    }

    /// The resolver after a candidate for the module structure was found
    /// wanting: on to the next one, or the end if there is none.
    pub open spec fn next_candidate(self) -> ResolverModel {
        if self.candidate + 1 < self.candidates.len() {
            ResolverModel {
                candidate: self.candidate + 1,
                structure_address: self.candidates[self.candidate + 1],
                stage: Stage::VersionPointer,
                ..self
            }
        } else {
            self.fail(EngineError::VersionDetection)
        }
    }

    /// The read brought all the bytes that were asked for.
    pub open spec fn complete(self, data: Option<Seq<u8>>) -> bool {
        self.request() is Read && data is Some && data->0.len() == self.request()->Read_0.length
    }

    /// The resolver after a read. While the version is detected a failed
    /// read, or a version that is not understood, rules out the candidate;
    /// while the functions are enumerated a failed read ends the resolving.
    pub open spec fn after_read(self, data: Option<Seq<u8>>) -> ResolverModel {
        if !(self.request() is Read) {
            self
        } else {
            self.after_pending_read(data)
        }
    }

    /// The resolver after a read that it had asked for.
    pub open spec fn after_pending_read(self, data: Option<Seq<u8>>) -> ResolverModel {
        let value = le_value(data->0);
        match (self.phase, self.stage) {
            (Phase::DetectingVersion, Stage::VersionPointer) => if self.complete(data) {
                ResolverModel { pointer: value as usize, stage: Stage::VersionValue, ..self }
            } else {
                self.next_candidate()
            },
            (Phase::DetectingVersion, Stage::VersionValue) => if self.complete(data)
                && known_version(value as u32) {
                ResolverModel {
                    hashlink_version: value as u32,
                    phase: Phase::EnumeratingFunctions,
                    stage: Stage::CodePointer,
                    ..self
                }
            } else {
                self.next_candidate()
            },
            (Phase::EnumeratingFunctions, _) => if !self.complete(data) {
                self.fail(EngineError::MemoryTransfer)
            } else {
                match self.stage {
                    Stage::CodePointer => ResolverModel {
                        pointer: value as usize,
                        stage: Stage::FunctionCount,
                        ..self
                    },
                    Stage::FunctionCount => ResolverModel {
                        nfunctions: value as u32,
                        stage: Stage::ModulePointer,
                        ..self
                    },
                    Stage::ModulePointer => ResolverModel {
                        pointer: value as usize,
                        stage: Stage::TablePointer,
                        ..self
                    },
                    Stage::TablePointer => if self.nfunctions * pointer_width() <= usize::MAX {
                        ResolverModel { pointer: value as usize, stage: Stage::Table, ..self }
                    } else {
                        self.fail(EngineError::MemoryTransfer)
                    },
                    Stage::Table => if self.nfunctions * pointer_width() <= usize::MAX {
                        ResolverModel {
                            function_list: table_entries(data->0, self.nfunctions as int),
                            stage: Stage::Names,
                            ..self
                        }
                    } else {
                        self.fail(EngineError::MemoryTransfer)
                    },
                    _ => self,
                }
            },
            _ => self,
        }
    }

    /// The resolver after the bytecode file was read: the functions listed
    /// there get the addresses that the table holds for them, and the
    /// resolver is ready. Without the file the resolving ends.
    pub open spec fn after_names(self, listed: Result<Seq<BytecodeFunction>, EngineError>)
        -> ResolverModel {
        if self.phase == Phase::EnumeratingFunctions && self.stage == Stage::Names {
            match listed {
                Ok(functions) => ResolverModel {
                    functions: self.functions + correlated(
                        self.function_list,
                        functions,
                        functions.len() as int,
                    ),
                    phase: Phase::Ready,
                    ..self
                },
                Err(e) => self.fail(e),
            }
        } else {
            self
        }
    }
}

impl View for Hashlink {
    type V = ResolverModel;

    open spec fn view(&self) -> ResolverModel {
        ResolverModel {
            pid: self.pid,
            address_allocstring: self.address_allocstring,
            functions: functions_view(self.functions@),
            hashlink_version: self.hashlink_version,
            hlbootdat_address: self.hlbootdat_address,
            structure_address: self.structure_address,
            phase: self.phase,
            stage: self.stage,
            failure: self.failure,
            candidates: self.candidates@,
            candidate: self.candidate as int,
            pointer: self.pointer,
            nfunctions: self.nfunctions,
            function_list: self.function_list@,
        }
    }
}

/// Builds a mask that compares every position.
pub fn exact_mask(length: usize) -> (masks: Vec<bool>)
    ensures
        masks@ == all_exact(length as nat),
{
    let mut masks: Vec<bool> = Vec::new();
    while masks.len() < length
        invariant
            masks@.len() <= length,
            masks@ == all_exact(masks@.len()),
        decreases length - masks@.len(),
    {
        masks.push(true);
        assert(masks@ =~= all_exact(masks@.len()));
    }
    masks
}

impl Hashlink {
    /// A resolver for the process `pid` that has done nothing yet.
    pub fn new(pid: u32) -> (resolver: Result<Hashlink, EngineError>)
        ensures
            resolver is Ok,
            resolver->Ok_0@ == ResolverModel::fresh(pid),
            resolver->Ok_0.wf(),
    {
        let resolver = Hashlink {
            pid,
            address_allocstring: 0,
            functions: Vec::new(),
            hashlink_version: 0,
            hlbootdat_address: 0,
            structure_address: 0,
            phase: Phase::Uninitialized,
            stage: Stage::VersionPointer,
            failure: None,
            candidates: Vec::new(),
            candidate: 0,
            pointer: 0,
            nfunctions: 0,
            function_list: Vec::new(),
        };
        assert(resolver@.functions =~= Seq::empty());
        assert(resolver@.candidates =~= Seq::empty());
        assert(resolver@.function_list =~= Seq::empty());
        Ok(resolver)
    }

    /// Sees to it that `cell` holds a resolver. An empty cell gets one for
    /// the process `pid`, set to work. A cell is filled once: a cell that
    /// holds a resolver keeps it, whatever process is named and however far
    /// that resolver has come.
    pub fn instance(cell: &mut Option<Hashlink>, pid: u32) -> (created: bool)
        ensures
            created == (*old(cell) is None),
            !created ==> *final(cell) == *old(cell),
            created ==> *final(cell) is Some && (*final(cell))->0@ == ResolverModel::fresh(
                pid,
            ).start() && (*final(cell))->0.wf(),
    {
        if cell.is_some() {
            return false;
        }
        match Hashlink::new(pid) {
            Ok(mut resolver) => {
                resolver.init_hashlink();
                *cell = Some(resolver);
            },
            Err(_) => {},
        }
        true
    }

    /// Sets the resolver to work. One that was set to work before is left as
    /// it is.
    pub fn init_hashlink(&mut self)
        ensures
            final(self)@ == old(self)@.start(),
            final(self).wf() == old(self).wf(),
    {
        if self.phase == Phase::Uninitialized {
            self.phase = Phase::LocatingAllocator;
        }
    }

    /// What the resolver needs next.
    pub fn next_request(&self) -> (request: Request)
        ensures
            request_view(request) == self@.request(),
    {
        let width: usize = (usize::BITS / 8) as usize;
        match self.phase {
            Phase::LocatingAllocator => {
                let (bytes, masks) = pattern_to_bytes(ALLOCATOR_SIGNATURE);
                Request::Scan(
                    ScanRequest { bytes, masks, filter: RegionFilter::Protection(EXECUTABLE) },
                )
            },
            Phase::LocatingBootMarker => {
                let bytes = convert_string_utf16_to_scan_data(BOOT_FILE);
                let masks = exact_mask(bytes.len());
                Request::Scan(ScanRequest { bytes, masks, filter: RegionFilter::Type(MEM_IMAGE) })
            },
            Phase::LocatingModuleStructure => {
                let bytes = convert_address_to_scan_data(self.hlbootdat_address);
                let masks = exact_mask(bytes.len());
                Request::Scan(
                    ScanRequest { bytes, masks, filter: RegionFilter::Protection(PAGE_READWRITE) },
                )
            },
            Phase::DetectingVersion => match self.stage {
                Stage::VersionPointer => Request::Read(
                    ReadRequest {
                        address: self.structure_address.wrapping_add(CODE_OFFSET),
                        length: width,
                    },
                ),
                Stage::VersionValue => Request::Read(
                    ReadRequest { address: self.pointer, length: 4 },
                ),
                _ => Request::Idle,
            },
            Phase::EnumeratingFunctions => match self.stage {
                Stage::CodePointer => Request::Read(
                    ReadRequest {
                        address: self.structure_address.wrapping_add(CODE_OFFSET),
                        length: width,
                    },
                ),
                Stage::FunctionCount => Request::Read(
                    ReadRequest {
                        address: self.pointer.wrapping_add(
                            nfunctions_offset(self.hashlink_version),
                        ),
                        length: 4,
                    },
                ),
                Stage::ModulePointer => Request::Read(
                    ReadRequest {
                        address: self.structure_address.wrapping_add(MODULE_OFFSET),
                        length: width,
                    },
                ),
                Stage::TablePointer => Request::Read(
                    ReadRequest {
                        address: self.pointer.wrapping_add(TABLE_OFFSET),
                        length: width,
                    },
                ),
                Stage::Table => Request::Read(
                    ReadRequest { address: self.pointer, length: self.table_size() },
                ),
                Stage::Names => Request::Names,
                _ => Request::Idle,
            },
            _ => Request::Idle,
        }
    }

    /// Size of the function table in bytes, as far as it fits a number.
    fn table_size(&self) -> (size: usize)
        ensures
            size == (self.nfunctions * pointer_width()) as usize,
    {
        let width: usize = (usize::BITS / 8) as usize;
        match (self.nfunctions as usize).checked_mul(width) {
            Some(size) => size,
            None => {
                let count: u64 = self.nfunctions as u64;
                #[verifier::truncate]
                ((count * 4) as usize)
            },
        }
    }

    /// Gives up.
    fn fail(&mut self, error: EngineError)
        ensures
            final(self)@ == old(self)@.fail(error),
    {
        self.phase = Phase::Failed;
        self.failure = Some(error);
    }

    /// Takes in the outcome of the scan that was asked for. A resolver that
    /// asked for none is left as it is.
    pub fn on_scan(&mut self, found: Result<Vec<usize>, EngineError>)
        ensures
            final(self)@ == old(self)@.after_scan(scan_view(found)),
            old(self).wf() ==> final(self).wf(),
    {
        if self.phase != Phase::LocatingAllocator && self.phase != Phase::LocatingBootMarker
            && self.phase != Phase::LocatingModuleStructure {
            return ;
        }
        match found {
            Err(e) => {
                self.fail(e);
            },
            Ok(addresses) => {
                if addresses.len() == 0 {
                    self.fail(EngineError::PatternNotFound);
                } else if self.phase == Phase::LocatingAllocator {
                    self.address_allocstring = addresses[0];
                    self.phase = Phase::LocatingBootMarker;
                } else if self.phase == Phase::LocatingBootMarker {
                    self.find_hlbootdat_address(addresses[0]);
                } else {
                    self.get_structure_address(addresses);
                }
            },
        }
    }

    /// Keeps the address of the bytecode file's name, and goes on to look for
    /// a pointer to it.
    fn find_hlbootdat_address(&mut self, address: usize)
        ensures
            final(self)@ == (ResolverModel {
                hlbootdat_address: address,
                phase: Phase::LocatingModuleStructure,
                ..old(self)@
            }),
    {
        self.hlbootdat_address = address;
        self.phase = Phase::LocatingModuleStructure;
    }

    /// Keeps the places that may be the module structure, and goes on to try
    /// the first.
    fn get_structure_address(&mut self, addresses: Vec<usize>)
        requires
            addresses@.len() > 0,
        ensures
            final(self)@ == (ResolverModel {
                candidates: addresses@,
                candidate: 0,
                structure_address: addresses@[0],
                phase: Phase::DetectingVersion,
                stage: Stage::VersionPointer,
                ..old(self)@
            }),
    {
        self.structure_address = addresses[0];
        self.candidates = addresses;
        self.candidate = 0;
        self.phase = Phase::DetectingVersion;
        self.stage = Stage::VersionPointer;
    }

    /// Tests the version number found behind a candidate, and keeps it if it
    /// is one of those understood.
    fn setup_hashlink_version(&mut self, value: u32) -> (known: bool)
        ensures
            known == known_version(value),
            known ==> final(self)@ == (ResolverModel { hashlink_version: value, ..old(self)@ }),
            !known ==> final(self)@ == old(self)@,
    {
        if value == 3 || value == 4 || value == 5 {
            self.hashlink_version = value;
            true
        } else {
            false
        }
    }

    /// Goes on to the next candidate for the module structure.
    fn next_candidate(&mut self)
        requires
            old(self).candidate <= old(self).candidates@.len(),
        ensures
            final(self)@ == old(self)@.next_candidate(),
            final(self).candidate <= final(self).candidates@.len(),
    {
        let count = self.candidates.len();
        if self.candidate < count && self.candidate + 1 < count {
            self.candidate = self.candidate + 1;
            self.structure_address = self.candidates[self.candidate];
            self.stage = Stage::VersionPointer;
        } else {
            self.fail(EngineError::VersionDetection);
        }
    }

    /// The index of the candidate lies in the list of candidates or at its
    /// end.
    pub open spec fn wf(&self) -> bool {
        self.candidate <= self.candidates@.len()
    }

    /// Takes in the outcome of the read that was asked for: the bytes read,
    /// or `None` if the read failed. A read of another length than asked for
    /// counts as failed. A resolver that asked for no read is left as it is.
    pub fn on_read(&mut self, data: Option<&[u8]>)
        requires
            old(self).wf(),
        ensures
            final(self).wf(),
            final(self)@ == old(self)@.after_read(data_view(data)),
    {
        let length = match self.next_request() {
            Request::Read(read) => read.length,
            _ => {
                return ;
            },
        };
        let width: usize = (usize::BITS / 8) as usize;
        let bytes: &[u8] = match data {
            Some(read) => read,
            None => {
                self.incomplete();
                return ;
            },
        };
        if bytes.len() != length {
            self.incomplete();
            return ;
        }
        match self.stage {
            Stage::VersionPointer => {
                self.pointer = byte_array_to_pointer(bytes);
                self.stage = Stage::VersionValue;
            },
            Stage::VersionValue => {
                let value = byte_array_to_dword(bytes);
                if self.setup_hashlink_version(value) {
                    self.phase = Phase::EnumeratingFunctions;
                    self.stage = Stage::CodePointer;
                } else {
                    self.next_candidate();
                }
            },
            Stage::CodePointer => {
                self.pointer = byte_array_to_pointer(bytes);
                self.stage = Stage::FunctionCount;
            },
            Stage::FunctionCount => {
                self.nfunctions = byte_array_to_dword(bytes);
                self.stage = Stage::ModulePointer;
            },
            Stage::ModulePointer => {
                self.pointer = byte_array_to_pointer(bytes);
                self.stage = Stage::TablePointer;
            },
            Stage::TablePointer => {
                if (self.nfunctions as usize).checked_mul(width).is_some() {
                    self.pointer = byte_array_to_pointer(bytes);
                    self.stage = Stage::Table;
                } else {
                    self.fail(EngineError::MemoryTransfer);
                }
            },
            Stage::Table => {
                if (self.nfunctions as usize).checked_mul(width).is_some() {
                    self.function_list = self.get_function_list(bytes);
                    self.stage = Stage::Names;
                } else {
                    self.fail(EngineError::MemoryTransfer);
                }
            },
            Stage::Names => {},
        }
    }

    /// Deals with a read that failed or fell short.
    fn incomplete(&mut self)
        requires
            old(self).wf(),
            old(self)@.request() is Read,
        ensures
            final(self).wf(),
            final(self)@ == if old(self).phase == Phase::DetectingVersion {
                old(self)@.next_candidate()
            } else {
                old(self)@.fail(EngineError::MemoryTransfer)
            },
    {
        if self.phase == Phase::DetectingVersion {
            self.next_candidate();
        } else {
            self.fail(EngineError::MemoryTransfer);
        }
    }

    /// Reads the function table that was read from the process.
    fn get_function_list(&self, table: &[u8]) -> (entries: Vec<usize>)
        requires
            table@.len() == self.nfunctions * pointer_width(),
        ensures
            entries@ == table_entries(table@, self.nfunctions as int),
    {
        parse_function_table(table, self.nfunctions as usize)
    }

    /// Takes in the functions that the bytecode file lists, or the reason
    /// why it could not be read. A resolver that did not ask for them is left
    /// as it is.
    pub fn on_names(&mut self, listed: Result<Vec<BytecodeFunction>, EngineError>)
        ensures
            final(self)@ == old(self)@.after_names(names_view(listed)),
            final(self).wf() == old(self).wf(),
    {
        if self.phase != Phase::EnumeratingFunctions || self.stage != Stage::Names {
            return ;
        }
        match listed {
            Ok(functions) => {
                let ghost before = self.functions@;
                let mut found = correlate(&self.function_list, &functions);
                let ghost added = found@;
                self.functions.append(&mut found);
                self.phase = Phase::Ready;
                assert(functions_view(self.functions@) =~= functions_view(before)
                    + functions_view(added));
            },
            Err(e) => {
                self.fail(e);
            },
        }
    }

    /// The address of the function called `name`; where several functions
    /// have that name, of the one at `idx` among them in the order of the
    /// table, or of the first without an index. An unknown name and an index
    /// that is too large are told apart.
    #[verifier::loop_isolation(false)]
    pub fn get_function_address(&self, name: &str, idx: Option<usize>) -> (address: Result<
        usize,
        EngineError,
    >)
        ensures
            address == lookup(
                self.functions@,
                name@,
                match idx {
                    Some(i) => i as int,
                    None => 0,
                },
            ),
    {
        let wanted = name.to_string();
        let target: usize = match idx {
            Some(i) => i,
            None => 0,
        };
        let mut found_count: usize = 0;
        let mut i: usize = 0;
        while i < self.functions.len()
            invariant
                i <= self.functions@.len(),
                wanted@ == name@,
                found_count == addresses_named(self.functions@, name@, i as int).len(),
                found_count <= i,
                found_count <= target,
            decreases self.functions@.len() - i,
        {
            if self.functions[i].name == wanted {
                if found_count == target {
                    proof {
                        let here = addresses_named(self.functions@, name@, i + 1);
                        assert(here[target as int] == self.functions@[i as int].address);
                        lemma_addresses_named_prefix(
                            self.functions@,
                            name@,
                            i + 1,
                            self.functions@.len() as int,
                        );
                    }
                    return Ok(self.functions[i].address);
                }
                found_count = found_count + 1;
            }
            i = i + 1;
        }
        if found_count == 0 {
            Err(EngineError::SymbolNotFound)
        } else {
            Err(EngineError::SymbolIndexOutOfRange { max_index: found_count - 1 })
        }
    }
}

/// Resolving is repeatable: what a lookup gives depends on the table, the
/// name and the index alone, so two lookups of one name and index in tables
/// that hold the same functions give the same address, or the same failure.
pub proof fn lemma_lookup_deterministic(
    first: Seq<HLFunction>,
    second: Seq<HLFunction>,
    name: Seq<char>,
    index: int,
)
    requires
        functions_view(first) == functions_view(second),
    ensures
        lookup(first, name, index) == lookup(second, name, index),
{
    assert(first.len() == functions_view(first).len());
    assert(second.len() == functions_view(second).len());
    lemma_addresses_named_same(first, second, name, first.len() as int);
}

/// Tables that hold the same functions hold the same addresses for a name.
pub proof fn lemma_addresses_named_same(
    first: Seq<HLFunction>,
    second: Seq<HLFunction>,
    name: Seq<char>,
    upto: int,
)
    requires
        functions_view(first) == functions_view(second),
        upto <= first.len(),
    ensures
        addresses_named(first, name, upto) == addresses_named(second, name, upto),
    decreases upto,
{
    if upto > 0 {
        lemma_addresses_named_same(first, second, name, upto - 1);
        assert(functions_view(first).len() == first.len());
        assert(functions_view(second).len() == second.len());
        assert(functions_view(first)[upto - 1] == (first[upto - 1].name@, first[upto - 1].address));
        assert(functions_view(second)[upto - 1] == (
            second[upto - 1].name@,
            second[upto - 1].address,
        ));
    }
}

/// The functions of a name found among more functions begin with those found
/// among fewer.
pub proof fn lemma_addresses_named_prefix(
    functions: Seq<HLFunction>,
    name: Seq<char>,
    fewer: int,
    more: int,
)
    requires
        0 <= fewer <= more,
    ensures
        addresses_named(functions, name, fewer).len() <= addresses_named(
            functions,
            name,
            more,
        ).len(),
        forall|k: int|
            0 <= k < addresses_named(functions, name, fewer).len() ==> addresses_named(
                functions,
                name,
                more,
            )[k] == #[trigger] addresses_named(functions, name, fewer)[k],
    decreases more - fewer,
{
    if fewer < more {
        lemma_addresses_named_prefix(functions, name, fewer, more - 1);
    }
}

} // verus!
