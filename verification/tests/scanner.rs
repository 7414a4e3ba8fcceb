use nas::error::EngineError;
use nas::memory::{MemoryRegion, ReadRequest, MEM_COMMIT, MEM_IMAGE, PAGE_EXECUTE_READ, PAGE_READWRITE};
use nas::pattern::{parse_word, pattern_to_bytes};
use nas::scanner::{
    aob_scan, aob_scan_mrprotect, aob_scan_mrtype, pattern_matches, scan_chunk, scan_region,
    AobScan, RegionFilter, CHUNK_SIZE,
};

fn region(base: usize, size: usize, protect: u32, type_: u32) -> MemoryRegion {
    MemoryRegion {
        base_address: base,
        allocation_base: base,
        allocation_protect: protect,
        region_size: size,
        state: MEM_COMMIT,
        protect,
        type_,
    }
}

/// Runs a scan against memory given as (base, bytes) blocks; what lies in no
/// block cannot be read.
fn drive(mut scan: AobScan, blocks: &[(usize, Vec<u8>)]) -> (Result<Vec<usize>, EngineError>, Vec<ReadRequest>) {
    let mut asked = Vec::new();
    while let Some(request) = scan.next_read() {
        asked.push(request);
        let data = blocks.iter().find_map(|(base, bytes)| {
            if request.address >= *base && request.address + request.length <= base + bytes.len() {
                Some(&bytes[request.address - base..request.address - base + request.length])
            } else {
                None
            }
        });
        scan.on_read(data);
    }
    (scan.finish(), asked)
}

#[test]
fn pattern_matches_with_wildcard() {
    let (bytes, masks) = pattern_to_bytes("12 34 ?? 56");
    assert!(pattern_matches(&[0x12, 0x34, 0xAA, 0x56], 0, &bytes, &masks));
    assert!(!pattern_matches(&[0x12, 0x34, 0xAA, 0x57], 0, &bytes, &masks));
    assert!(pattern_matches(&[0x00, 0x12, 0x34, 0x00, 0x56], 1, &bytes, &masks));
    assert!(!pattern_matches(&[0x00, 0x12, 0x34, 0x00, 0x56], 0, &bytes, &masks));
    assert!(!pattern_matches(&[0x12, 0x34, 0xAA], 0, &bytes, &masks));
    assert!(!pattern_matches(&[0x12, 0x34, 0xAA, 0x56], 1, &bytes, &masks));
    assert!(!pattern_matches(&[0x12, 0x34, 0xAA, 0x56], 9, &bytes, &masks));
    assert!(!pattern_matches(&[0x12, 0x34], 0, &[], &[]));
}

#[test]
fn parse_word_reads_bytes_and_wildcards() {
    let q: Vec<char> = "??".chars().collect();
    let p = parse_word(&q).unwrap();
    assert!(!p.exact);
    assert_eq!(p.value, 0);
    let w: Vec<char> = "+fF".chars().collect();
    let p = parse_word(&w).unwrap();
    assert!(p.exact);
    assert_eq!(p.value, 0xFF);
    for bad in ["", "+", "?", "100", "0x1", "1g", "-1", "++1"] {
        let chars: Vec<char> = bad.chars().collect();
        assert!(parse_word(&chars).is_none());
    }
}

#[test]
fn scan_chunk_appends_addresses_in_order() {
    let (bytes, masks) = pattern_to_bytes("AA ?? AA");
    let data = [0xAA, 0x00, 0xAA, 0x01, 0xAA, 0xAA, 0xAA];
    let mut matches = vec![7usize];
    scan_chunk(&data, 0x1000, &bytes, &masks, &mut matches);
    assert_eq!(matches, vec![7, 0x1000, 0x1002, 0x1004]);
    scan_chunk(&data[..2], 0x2000, &bytes, &masks, &mut matches);
    assert_eq!(matches.len(), 4);
}

#[test]
fn scan_region_finds_matches_across_chunk_boundaries() {
    let (bytes, masks) = pattern_to_bytes("DE AD ?? EF");
    let mut content = vec![0u8; 64];
    for at in [0usize, 6, 14, 15, 29, 60] {
        content[at] = 0xDE;
        content[at + 1] = 0xAD;
        content[at + 3] = 0xEF;
    }
    let mut whole = Vec::new();
    scan_chunk(&content, 0x5000, &bytes, &masks, &mut whole);
    assert_eq!(whole, vec![0x5000, 0x5006, 0x500F, 0x501D, 0x503C]);
    for chunk_size in 0..70usize {
        assert_eq!(scan_region(&content, 0x5000, &bytes, &masks, chunk_size), whole);
    }
    assert!(scan_region(&content[..3], 0x5000, &bytes, &masks, 16).is_empty());
    assert!(scan_region(&content, 0x5000, &[], &[], 16).is_empty());
}

#[test]
fn scan_reads_overlapping_chunks() {
    let regions = vec![region(0x10000, 0x2800, PAGE_READWRITE, 0)];
    let mut memory = vec![0u8; 0x2800];
    // one match that lies across the end of the first chunk
    memory[0xFFE] = 0x12;
    memory[0xFFF] = 0x34;
    memory[0x1000] = 0xAA;
    memory[0x1001] = 0x56;
    // one match at the very end of the region
    memory[0x27FC] = 0x12;
    memory[0x27FD] = 0x34;
    memory[0x27FF] = 0x56;
    let scan = aob_scan("12 34 ?? 56", regions).unwrap();
    assert_eq!(scan.chunk_size, CHUNK_SIZE);
    let (found, asked) = drive(scan, &[(0x10000, memory)]);
    assert_eq!(found, Ok(vec![0x10FFE, 0x127FC]));
    assert_eq!(
        asked,
        vec![
            ReadRequest { address: 0x10000, length: 0x1000 },
            ReadRequest { address: 0x10FFD, length: 0x1000 },
            ReadRequest { address: 0x11FFA, length: 0x806 },
        ]
    );
}

#[test]
fn scan_reports_no_match_as_error() {
    let regions = vec![region(0x10000, 0x100, PAGE_READWRITE, 0)];
    let scan = aob_scan("12 34 ?? 56", regions).unwrap();
    let (found, _) = drive(scan, &[(0x10000, vec![0u8; 0x100])]);
    assert_eq!(found, Err(EngineError::PatternNotFound));
    let mut memory = vec![0u8; 0x100];
    memory[..4].copy_from_slice(&[0x12, 0x34, 0xAA, 0x57]);
    let scan = aob_scan("12 34 ?? 56", vec![region(0x10000, 0x100, PAGE_READWRITE, 0)]).unwrap();
    assert_eq!(drive(scan, &[(0x10000, memory)]).0, Err(EngineError::PatternNotFound));
}

#[test]
fn scan_refuses_empty_pattern() {
    assert!(matches!(aob_scan("", vec![]), Err(EngineError::InvalidPattern)));
    assert!(matches!(aob_scan("zz ?", vec![]), Err(EngineError::InvalidPattern)));
    assert!(matches!(
        AobScan::with_pattern(vec![1, 2], vec![true], vec![], RegionFilter::Any, 16),
        Err(EngineError::InvalidPattern)
    ));
    assert!(matches!(
        AobScan::with_pattern(vec![], vec![], vec![], RegionFilter::Any, 16),
        Err(EngineError::InvalidPattern)
    ));
}

#[test]
fn scan_filters_regions() {
    let regions = vec![
        region(0x1000, 0x10, PAGE_READWRITE, 0),
        region(0x2000, 0x10, PAGE_EXECUTE_READ, MEM_IMAGE),
        region(0x3000, 0x2, PAGE_EXECUTE_READ, MEM_IMAGE),
        region(usize::MAX - 4, 0x10, PAGE_EXECUTE_READ, MEM_IMAGE),
        region(0x4000, 0x10, PAGE_EXECUTE_READ | PAGE_READWRITE, MEM_IMAGE),
    ];
    let blocks: Vec<(usize, Vec<u8>)> = vec![
        (0x1000, vec![0xCC; 0x10]),
        (0x2000, vec![0xCC; 0x10]),
        (0x3000, vec![0xCC; 0x2]),
        (0x4000, vec![0xCC; 0x10]),
    ];
    let all = drive(aob_scan("CC CC CC", regions.clone()).unwrap(), &blocks).0.unwrap();
    assert_eq!(all.len(), 14 * 3);
    assert!(all.windows(2).all(|w| w[0] < w[1]));
    let image = drive(aob_scan_mrtype("CC CC CC", regions.clone(), MEM_IMAGE).unwrap(), &blocks);
    assert_eq!(image.0.unwrap().len(), 14 * 2);
    assert_eq!(image.1.iter().map(|r| r.address).collect::<Vec<_>>(), vec![0x2000, 0x4000]);
    let writable = drive(aob_scan_mrprotect("CC CC CC", regions.clone(), PAGE_READWRITE).unwrap(), &blocks);
    assert_eq!(writable.1.iter().map(|r| r.address).collect::<Vec<_>>(), vec![0x1000, 0x4000]);
    let none = drive(aob_scan_mrtype("CC CC CC", regions, 0x20000).unwrap(), &blocks);
    assert_eq!(none.0, Err(EngineError::PatternNotFound));
    assert!(none.1.is_empty());
}

#[test]
fn scan_skips_a_chunk_that_cannot_be_read() {
    let regions = vec![region(0x10000, 0x3000, PAGE_READWRITE, 0)];
    let mut scan = AobScan::new("AB CD", regions, RegionFilter::Any, 0x1000).unwrap();
    assert_eq!(scan.next_read(), Some(ReadRequest { address: 0x10000, length: 0x1000 }));
    scan.on_read(None);
    assert_eq!(scan.next_read(), Some(ReadRequest { address: 0x11000, length: 0x1000 }));
    // a short read counts as failed
    scan.on_read(Some(&[0xAB, 0xCD]));
    assert_eq!(scan.next_read(), Some(ReadRequest { address: 0x12000, length: 0x1000 }));
    let mut chunk = vec![0u8; 0x1000];
    chunk[0xFFE] = 0xAB;
    chunk[0xFFF] = 0xCD;
    scan.on_read(Some(&chunk));
    assert_eq!(scan.next_read(), None);
    assert_eq!(scan.finish(), Ok(vec![0x12FFE]));
}

#[test]
fn scan_reads_a_pattern_longer_than_a_chunk_in_one_piece() {
    let regions = vec![region(0x100, 10, PAGE_READWRITE, 0)];
    let mut scan = AobScan::new("01 02 03 04 05 06", regions, RegionFilter::Any, 4).unwrap();
    assert_eq!(scan.next_read(), Some(ReadRequest { address: 0x100, length: 6 }));
    scan.on_read(Some(&[0, 1, 2, 3, 4, 5]));
    assert_eq!(scan.next_read(), Some(ReadRequest { address: 0x101, length: 6 }));
    scan.on_read(Some(&[1, 2, 3, 4, 5, 6]));
    assert_eq!(scan.next_read(), Some(ReadRequest { address: 0x102, length: 6 }));
    assert_eq!(scan.matches, vec![0x101]);
}

#[test]
fn parsed_patterns_start_scans() {
    let pattern = nas::pattern::PatternSpec::parse("12 ?? 56");
    assert_eq!(pattern.len(), 3);
    let (bytes, masks) = pattern.into_parts();
    assert_eq!((bytes, masks), (vec![0x12, 0, 0x56], vec![true, false, true]));
    let exact = nas::pattern::PatternSpec::exact(&[0xDE, 0xAD]);
    assert_eq!(exact.len(), 2);
    let scan = AobScan::with_spec(exact, vec![region(0x100, 8, PAGE_READWRITE, 0)], RegionFilter::Any, 16).unwrap();
    assert_eq!((scan.bytes.clone(), scan.masks.clone()), (vec![0xDE, 0xAD], vec![true, true]));
    let (found, _) = drive(scan, &[(0x100, vec![0, 0xDE, 0xAD, 0xDE, 0xAD, 0xDE, 0, 0])]);
    assert_eq!(found, Ok(vec![0x101, 0x103]));
    let empty = nas::pattern::PatternSpec::parse("  ");
    assert!(matches!(
        AobScan::with_spec(empty, vec![], RegionFilter::Any, 16),
        Err(EngineError::InvalidPattern)
    ));
}
