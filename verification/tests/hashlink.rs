use nas::bytes::{convert_address_to_scan_data, convert_string_utf16_to_scan_data};
use nas::error::EngineError;
use nas::hashlink::{
    correlate, nfunctions_offset, parse_function_table, BytecodeFunction, HLFunction, Hashlink,
    Phase, Request, Stage, ALLOCATOR_SIGNATURE, BOOT_FILE,
};
use nas::memory::{ReadRequest, MEM_IMAGE, PAGE_READWRITE};
use nas::pattern::pattern_to_bytes;
use nas::scanner::RegionFilter;

fn function(name: &str, address: usize) -> HLFunction {
    HLFunction { name: name.to_string(), address }
}

fn listed(findex: usize, name: &str) -> BytecodeFunction {
    BytecodeFunction { findex, name: name.to_string() }
}

fn table() -> Hashlink {
    let mut resolver = Hashlink::new(7).unwrap();
    resolver.functions = vec![
        function("init", 0x100),
        function("foo", 0x200),
        function("init", 0x300),
        function("bar", 0x400),
        function("init", 0x500),
    ];
    resolver
}

#[test]
fn lookup_by_name_and_index() {
    let resolver = table();
    assert_eq!(resolver.get_function_address("foo", None), Ok(0x200));
    assert_eq!(resolver.get_function_address("foo", Some(0)), Ok(0x200));
    assert_eq!(resolver.get_function_address("init", None), Ok(0x100));
    assert_eq!(resolver.get_function_address("init", Some(1)), Ok(0x300));
    assert_eq!(resolver.get_function_address("init", Some(2)), Ok(0x500));
}

#[test]
fn lookup_tells_unknown_name_from_index_out_of_range() {
    let resolver = table();
    assert_eq!(resolver.get_function_address("baz", None), Err(EngineError::SymbolNotFound));
    assert_eq!(resolver.get_function_address("", Some(3)), Err(EngineError::SymbolNotFound));
    assert_eq!(
        resolver.get_function_address("init", Some(3)),
        Err(EngineError::SymbolIndexOutOfRange { max_index: 2 })
    );
    assert_eq!(
        resolver.get_function_address("foo", Some(usize::MAX)),
        Err(EngineError::SymbolIndexOutOfRange { max_index: 0 })
    );
    let empty = Hashlink::new(1).unwrap();
    assert_eq!(empty.get_function_address("foo", None), Err(EngineError::SymbolNotFound));
}

#[test]
fn lookup_is_repeatable() {
    let resolver = table();
    let first = resolver.get_function_address("foo", Some(0));
    let second = resolver.get_function_address("foo", Some(0));
    assert_eq!(first, second);
    let other = table();
    assert_eq!(other.get_function_address("foo", Some(0)), first);
}

#[test]
fn functions_get_their_addresses_from_the_table() {
    let addresses = vec![0x10, 0x20, 0x30];
    let names = vec![listed(2, "c"), listed(0, "a"), listed(3, "out"), listed(2, "c"), listed(1, "b")];
    let functions: Vec<(String, usize)> =
        correlate(&addresses, &names).into_iter().map(|f| (f.name, f.address)).collect();
    assert_eq!(
        functions,
        vec![
            ("c".to_string(), 0x30),
            ("a".to_string(), 0x10),
            ("c".to_string(), 0x30),
            ("b".to_string(), 0x20),
        ]
    );
    assert!(correlate(&vec![], &names).is_empty());
}

#[test]
fn function_table_is_read_entry_by_entry() {
    let mut bytes = Vec::new();
    for address in [0x7FF6_0000_1000usize, 0, usize::MAX] {
        bytes.extend_from_slice(&address.to_le_bytes());
    }
    assert_eq!(parse_function_table(&bytes, 3), vec![0x7FF6_0000_1000, 0, usize::MAX]);
    assert!(parse_function_table(&[], 0).is_empty());
    assert_eq!(nfunctions_offset(3), 28);
    assert_eq!(nfunctions_offset(4), 32);
    assert_eq!(nfunctions_offset(5), 32);
}

fn expect_scan(resolver: &Hashlink) -> (Vec<u8>, Vec<bool>, RegionFilter) {
    match resolver.next_request() {
        Request::Scan(scan) => (scan.bytes, scan.masks, scan.filter),
        other => panic!("expected a scan, got {:?}", other),
    }
}

fn expect_read(resolver: &Hashlink) -> ReadRequest {
    match resolver.next_request() {
        Request::Read(read) => read,
        other => panic!("expected a read, got {:?}", other),
    }
}

const WIDTH: usize = std::mem::size_of::<usize>();

#[test]
fn resolver_walks_through_its_phases() {
    let mut resolver = Hashlink::new(42).unwrap();
    assert_eq!(resolver.pid, 42);
    assert_eq!(resolver.phase, Phase::Uninitialized);
    assert!(matches!(resolver.next_request(), Request::Idle));
    resolver.on_scan(Ok(vec![1]));
    resolver.on_read(Some(&[0; 8]));
    resolver.on_names(Ok(vec![]));
    assert_eq!(resolver.phase, Phase::Uninitialized);

    resolver.init_hashlink();
    assert_eq!(resolver.phase, Phase::LocatingAllocator);
    let (bytes, masks, filter) = expect_scan(&resolver);
    assert_eq!((bytes, masks), pattern_to_bytes(ALLOCATOR_SIGNATURE));
    assert!(matches!(filter, RegionFilter::Protection(0x70)));
    resolver.on_scan(Ok(vec![0xA000, 0xB000]));
    assert_eq!(resolver.address_allocstring, 0xA000);

    assert_eq!(resolver.phase, Phase::LocatingBootMarker);
    let (bytes, masks, filter) = expect_scan(&resolver);
    assert_eq!(bytes, convert_string_utf16_to_scan_data(BOOT_FILE));
    assert_eq!(bytes.len(), 20);
    assert_eq!(masks, vec![true; 20]);
    assert!(matches!(filter, RegionFilter::Type(MEM_IMAGE)));
    resolver.on_scan(Ok(vec![0x1234_5678]));
    assert_eq!(resolver.hlbootdat_address, 0x1234_5678);

    assert_eq!(resolver.phase, Phase::LocatingModuleStructure);
    let (bytes, masks, filter) = expect_scan(&resolver);
    assert_eq!(bytes, convert_address_to_scan_data(0x1234_5678));
    assert_eq!(masks, vec![true; WIDTH]);
    assert!(matches!(filter, RegionFilter::Protection(PAGE_READWRITE)));
    resolver.on_scan(Ok(vec![0x5000, 0x6000, 0x7000]));

    // first candidate: the pointer cannot be read
    assert_eq!(resolver.phase, Phase::DetectingVersion);
    assert_eq!(resolver.structure_address, 0x5000);
    assert_eq!(expect_read(&resolver), ReadRequest { address: 0x5008, length: WIDTH });
    resolver.on_read(None);
    // second candidate: the version is not known
    assert_eq!(resolver.structure_address, 0x6000);
    assert_eq!(expect_read(&resolver), ReadRequest { address: 0x6008, length: WIDTH });
    resolver.on_read(Some(&0x9000usize.to_le_bytes()));
    assert_eq!(expect_read(&resolver), ReadRequest { address: 0x9000, length: 4 });
    resolver.on_read(Some(&6u32.to_le_bytes()));
    // third candidate: version 4
    assert_eq!(resolver.structure_address, 0x7000);
    assert_eq!(expect_read(&resolver), ReadRequest { address: 0x7008, length: WIDTH });
    resolver.on_read(Some(&0x9100usize.to_le_bytes()));
    assert_eq!(expect_read(&resolver), ReadRequest { address: 0x9100, length: 4 });
    resolver.on_read(Some(&4u32.to_le_bytes()));
    assert_eq!(resolver.hashlink_version, 4);

    assert_eq!(resolver.phase, Phase::EnumeratingFunctions);
    assert_eq!(expect_read(&resolver), ReadRequest { address: 0x7008, length: WIDTH });
    resolver.on_read(Some(&0x9100usize.to_le_bytes()));
    assert_eq!(expect_read(&resolver), ReadRequest { address: 0x9100 + 32, length: 4 });
    resolver.on_read(Some(&3u32.to_le_bytes()));
    assert_eq!(resolver.nfunctions, 3);
    assert_eq!(expect_read(&resolver), ReadRequest { address: 0x7010, length: WIDTH });
    resolver.on_read(Some(&0xC000usize.to_le_bytes()));
    assert_eq!(expect_read(&resolver), ReadRequest { address: 0xC020, length: WIDTH });
    resolver.on_read(Some(&0xD000usize.to_le_bytes()));
    assert_eq!(expect_read(&resolver), ReadRequest { address: 0xD000, length: 3 * WIDTH });
    let mut entries = Vec::new();
    for address in [0x111usize, 0x222, 0x333] {
        entries.extend_from_slice(&address.to_le_bytes());
    }
    resolver.on_read(Some(&entries));
    assert_eq!(resolver.function_list, vec![0x111, 0x222, 0x333]);
    assert_eq!(resolver.stage, Stage::Names);
    assert!(matches!(resolver.next_request(), Request::Names));
    // a read that was not asked for changes nothing
    resolver.on_read(Some(&entries));
    assert_eq!(resolver.stage, Stage::Names);

    resolver.on_names(Ok(vec![listed(1, "main"), listed(9, "gone"), listed(0, "init"), listed(2, "init")]));
    assert_eq!(resolver.phase, Phase::Ready);
    assert!(matches!(resolver.next_request(), Request::Idle));
    assert_eq!(resolver.get_function_address("main", None), Ok(0x222));
    assert_eq!(resolver.get_function_address("init", Some(1)), Ok(0x333));
    assert_eq!(resolver.get_function_address("gone", None), Err(EngineError::SymbolNotFound));
    assert_eq!(resolver.failure, None);
}

fn at_version_detection(candidates: Vec<usize>) -> Hashlink {
    let mut resolver = Hashlink::new(1).unwrap();
    resolver.init_hashlink();
    resolver.on_scan(Ok(vec![0xA000]));
    resolver.on_scan(Ok(vec![0xB000]));
    resolver.on_scan(Ok(candidates));
    resolver
}

#[test]
fn resolver_fails_when_a_scan_finds_nothing() {
    for stage in 0..3 {
        let mut resolver = Hashlink::new(1).unwrap();
        resolver.init_hashlink();
        for _ in 0..stage {
            resolver.on_scan(Ok(vec![0x1000]));
        }
        let mut copy = Hashlink::new(1).unwrap();
        copy.init_hashlink();
        for _ in 0..stage {
            copy.on_scan(Ok(vec![0x1000]));
        }
        resolver.on_scan(Err(EngineError::PatternNotFound));
        assert_eq!(resolver.phase, Phase::Failed);
        assert_eq!(resolver.failure, Some(EngineError::PatternNotFound));
        copy.on_scan(Ok(vec![]));
        assert_eq!(copy.phase, Phase::Failed);
        assert_eq!(copy.failure, Some(EngineError::PatternNotFound));
        copy.on_scan(Ok(vec![1]));
        assert_eq!(copy.phase, Phase::Failed);
        assert!(matches!(copy.next_request(), Request::Idle));
    }
    let mut denied = Hashlink::new(1).unwrap();
    denied.init_hashlink();
    denied.on_scan(Err(EngineError::ProcessAccess));
    assert_eq!(denied.failure, Some(EngineError::ProcessAccess));
}

#[test]
fn resolver_fails_when_no_candidate_has_a_known_version() {
    let mut resolver = at_version_detection(vec![0x5000, 0x6000]);
    resolver.on_read(Some(&0x9000usize.to_le_bytes()));
    resolver.on_read(Some(&2u32.to_le_bytes()));
    assert_eq!(resolver.phase, Phase::DetectingVersion);
    resolver.on_read(Some(&0x9000usize.to_le_bytes()));
    resolver.on_read(Some(&[3, 0, 0]));
    assert_eq!(resolver.phase, Phase::Failed);
    assert_eq!(resolver.failure, Some(EngineError::VersionDetection));
    for version in [3u32, 4, 5] {
        let mut resolver = at_version_detection(vec![0x5000]);
        resolver.on_read(Some(&0x9000usize.to_le_bytes()));
        resolver.on_read(Some(&version.to_le_bytes()));
        assert_eq!(resolver.phase, Phase::EnumeratingFunctions);
        assert_eq!(resolver.hashlink_version, version);
        resolver.on_read(Some(&0x9000usize.to_le_bytes()));
        let offset = if version >= 4 { 32 } else { 28 };
        assert_eq!(expect_read(&resolver), ReadRequest { address: 0x9000 + offset, length: 4 });
    }
}

#[test]
fn resolver_fails_when_the_table_cannot_be_read() {
    for good in 0..5 {
        let mut resolver = at_version_detection(vec![0x5000]);
        resolver.on_read(Some(&0x9000usize.to_le_bytes()));
        resolver.on_read(Some(&5u32.to_le_bytes()));
        let answers: Vec<Vec<u8>> = vec![
            0x9000usize.to_le_bytes().to_vec(),
            1u32.to_le_bytes().to_vec(),
            0xC000usize.to_le_bytes().to_vec(),
            0xD000usize.to_le_bytes().to_vec(),
            0xE000usize.to_le_bytes().to_vec(),
        ];
        for answer in answers.iter().take(good) {
            resolver.on_read(Some(answer));
            assert_eq!(resolver.phase, Phase::EnumeratingFunctions);
        }
        resolver.on_read(None);
        assert_eq!(resolver.phase, Phase::Failed);
        assert_eq!(resolver.failure, Some(EngineError::MemoryTransfer));
    }
    let mut resolver = at_version_detection(vec![0x5000]);
    resolver.on_read(Some(&0x9000usize.to_le_bytes()));
    resolver.on_read(Some(&5u32.to_le_bytes()));
    resolver.on_read(Some(&0x9000usize.to_le_bytes()));
    resolver.on_read(Some(&0u32.to_le_bytes()));
    resolver.on_read(Some(&0xC000usize.to_le_bytes()));
    resolver.on_read(Some(&0xD000usize.to_le_bytes()));
    assert_eq!(expect_read(&resolver), ReadRequest { address: 0xD000, length: 0 });
    resolver.on_read(Some(&[]));
    resolver.on_names(Err(EngineError::ProcessAccess));
    assert_eq!(resolver.phase, Phase::Failed);
    assert_eq!(resolver.failure, Some(EngineError::ProcessAccess));
}

#[test]
fn instance_fills_a_cell_once() {
    let mut cell: Option<Hashlink> = None;
    assert!(Hashlink::instance(&mut cell, 11));
    assert_eq!(cell.as_ref().unwrap().pid, 11);
    assert_eq!(cell.as_ref().unwrap().phase, Phase::LocatingAllocator);
    cell.as_mut().unwrap().on_scan(Ok(vec![0x77]));
    assert!(!Hashlink::instance(&mut cell, 12));
    assert_eq!(cell.as_ref().unwrap().pid, 11);
    assert_eq!(cell.as_ref().unwrap().address_allocstring, 0x77);
}
