use nas::ce_scan::{aob_scan_ce, CeRequest, CeScan, BUFFER_SIZE, MAX_HIT_COUNT};
use nas::error::EngineError;
use nas::memory::{MemoryRegion, MEM_COMMIT, PAGE_EXECUTE_READ, PAGE_READWRITE};

fn region(base: usize, size: usize, protect: u32) -> MemoryRegion {
    MemoryRegion {
        base_address: base,
        allocation_base: base,
        allocation_protect: protect,
        region_size: size,
        state: MEM_COMMIT,
        protect,
        type_: 0x20000,
    }
}

fn run(mut scan: CeScan, regions: &[MemoryRegion], fill: &dyn Fn(u64) -> u8) -> (CeScan, Vec<CeRequest>) {
    let mut asked = Vec::new();
    loop {
        let request = scan.next_request();
        asked.push(request);
        match request {
            CeRequest::Done => break,
            CeRequest::Query(address) => {
                let found = regions.iter().find(|r| {
                    (r.base_address as u64) <= address
                        && address < (r.base_address + r.region_size) as u64
                });
                let answer = found.map(|r| MemoryRegion {
                    region_size: r.region_size - (address as usize - r.base_address),
                    ..*r
                });
                scan.on_query(answer);
            }
            CeRequest::Read { address, length } => {
                let buffer: Vec<u8> = (0..length as u64).map(|i| fill(address + i)).collect();
                scan.on_read(Some(&buffer));
            }
        }
    }
    (scan, asked)
}

#[test]
fn ranged_scan_is_refused_without_a_step_or_with_a_short_pattern() {
    assert!(matches!(
        aob_scan_ce(&[1, 2], "xx", 0, 10, 0, 4, vec![]),
        Err(EngineError::InvalidPattern)
    ));
    assert!(matches!(
        aob_scan_ce(&[1, 2], "x?x", 0, 10, 1, 4, vec![]),
        Err(EngineError::InvalidPattern)
    ));
    let scan = aob_scan_ce(&[1, 2, 3], "x?", 5, 10, 2, 4, vec![9]).unwrap();
    assert_eq!(scan.pattern, vec![1, 2, 3]);
    assert_eq!(scan.mask, b"x?".to_vec());
    assert_eq!((scan.position, scan.end, scan.inc, scan.protection), (5, 10, 2, 4));
    assert_eq!(scan.matches, vec![9]);
}

#[test]
fn ranged_scan_walks_regions_and_reads_the_wanted_ones() {
    let regions = [
        region(0x1000, 0x1000, PAGE_EXECUTE_READ),
        region(0x2000, 0x2000, PAGE_READWRITE),
        region(0x4000, 0x1000, PAGE_EXECUTE_READ),
    ];
    let fill = |address: u64| match address {
        0x2010 => 0xAB,
        0x2011 => 0x00,
        0x2012 => 0xCD,
        0x3FFD => 0xAB,
        0x3FFF => 0xCD,
        0x4000 => 0xAB,
        0x4002 => 0xCD,
        _ => 0x11,
    };
    let scan = aob_scan_ce(&[0xAB, 0, 0xCD], "x?x", 0x1000, 0x5000, 1, PAGE_READWRITE, vec![]).unwrap();
    let (scan, asked) = run(scan, &regions, &fill);
    assert_eq!(scan.matches, vec![0x2010, 0x3FFD]);
    assert_eq!(scan.outcome, Some(Ok(2)));
    assert_eq!(
        asked,
        vec![
            CeRequest::Query(0x1000),
            CeRequest::Query(0x2000),
            CeRequest::Read { address: 0x2000, length: BUFFER_SIZE },
            CeRequest::Read { address: 0x2FFE, length: BUFFER_SIZE },
            CeRequest::Read { address: 0x3FFC, length: 4 },
            CeRequest::Query(0x4000),
            CeRequest::Done,
        ]
    );
}

#[test]
fn ranged_scan_compares_at_every_step() {
    let regions = [region(0, 0x1000, PAGE_READWRITE)];
    let fill = |_address: u64| 0x77u8;
    let scan = aob_scan_ce(&[0x77], "x", 0, 0x1000, 0x400, PAGE_READWRITE, vec![]).unwrap();
    let (scan, _) = run(scan, &regions, &fill);
    assert_eq!(scan.matches, vec![0, 0x400, 0x800, 0xC00]);
    let scan = aob_scan_ce(&[0x77, 0x77], "xx", 0, 0x1000, 0xFFF, PAGE_READWRITE, vec![]).unwrap();
    let (scan, _) = run(scan, &regions, &fill);
    assert_eq!(scan.matches, vec![0]);
    let scan = aob_scan_ce(&[0x77, 0x77], "xx", 0, 0x1000, 0xFFE, PAGE_READWRITE, vec![]).unwrap();
    let (scan, _) = run(scan, &regions, &fill);
    assert_eq!(scan.matches, vec![0, 0xFFE]);
}

#[test]
fn ranged_scan_stops_at_the_hit_count() {
    let regions = [region(0, 0x3000, PAGE_READWRITE)];
    let fill = |_address: u64| 0x77u8;
    let scan = aob_scan_ce(&[0x77], "x", 0, 0x3000, 1, PAGE_READWRITE, vec![]).unwrap();
    let (scan, asked) = run(scan, &regions, &fill);
    assert_eq!(scan.matches.len(), MAX_HIT_COUNT);
    assert_eq!(scan.matches[4999], 4999);
    assert_eq!(scan.outcome, Some(Ok(5000)));
    assert_eq!(asked.len(), 4);
    // a list that is full already still takes one match
    let scan = aob_scan_ce(&[0x77], "x", 0, 0x3000, 1, PAGE_READWRITE, vec![1; 6000]).unwrap();
    let (scan, _) = run(scan, &regions, &fill);
    assert_eq!(scan.matches.len(), 6001);
    assert_eq!(scan.outcome, Some(Ok(6001)));
}

#[test]
fn ranged_scan_fails_where_a_region_cannot_be_queried() {
    let regions = [region(0x1000, 0x1000, PAGE_READWRITE)];
    let fill = |_address: u64| 0u8;
    let scan = aob_scan_ce(&[1], "x", 0x1000, 0x4000, 1, PAGE_READWRITE, vec![]).unwrap();
    let (scan, asked) = run(scan, &regions, &fill);
    assert_eq!(scan.outcome, Some(Err(-1)));
    assert_eq!(asked.last(), Some(&CeRequest::Done));
    assert!(asked.contains(&CeRequest::Query(0x2000)));
    // a failed read is passed over
    let mut scan = aob_scan_ce(&[1], "x", 0x1000, 0x2000, 1, PAGE_READWRITE, vec![]).unwrap();
    assert_eq!(scan.next_request(), CeRequest::Query(0x1000));
    scan.on_query(Some(regions[0]));
    assert_eq!(scan.next_request(), CeRequest::Read { address: 0x1000, length: BUFFER_SIZE });
    scan.on_read(None);
    assert_eq!(scan.next_request(), CeRequest::Done);
    assert_eq!(scan.outcome, Some(Ok(0)));
    // an empty range asks for nothing
    let mut empty = aob_scan_ce(&[1], "x", 0x2000, 0x2000, 1, PAGE_READWRITE, vec![]).unwrap();
    assert_eq!(empty.next_request(), CeRequest::Done);
}

#[test]
fn ranged_scan_finds_a_match_across_two_buffers() {
    let regions = [region(0x10000, 0x2000, PAGE_READWRITE)];
    let fill = |address: u64| match address {
        0x10FFF => 0x12,
        0x11000 => 0x34,
        _ => 0,
    };
    let scan = aob_scan_ce(&[0x12, 0x34], "xx", 0x10000, 0x12000, 1, PAGE_READWRITE, vec![]).unwrap();
    let (scan, asked) = run(scan, &regions, &fill);
    assert_eq!(scan.matches, vec![0x10FFF]);
    assert_eq!(scan.outcome, Some(Ok(1)));
    assert_eq!(
        asked,
        vec![
            CeRequest::Query(0x10000),
            CeRequest::Read { address: 0x10000, length: BUFFER_SIZE },
            CeRequest::Read { address: 0x10FFF, length: BUFFER_SIZE },
            CeRequest::Read { address: 0x11FFE, length: 2 },
            CeRequest::Done,
        ]
    );
    // every match once, in ascending order, whatever lies at the seams
    let dense = |_address: u64| 0x55u8;
    let scan = aob_scan_ce(&[0x55, 0x55, 0x55], "x?x", 0x10000, 0x12000, 1, PAGE_READWRITE, vec![]).unwrap();
    let (scan, _) = run(scan, &regions, &dense);
    let expected: Vec<u64> = (0x10000..0x12000 - 2).take(5000).collect();
    assert_eq!(scan.matches, expected);
}

#[test]
fn ranged_scan_counts_a_short_buffer_as_failed() {
    let mut scan = aob_scan_ce(&[7], "x", 0x1000, 0x3000, 1, PAGE_READWRITE, vec![]).unwrap();
    assert_eq!(scan.next_request(), CeRequest::Query(0x1000));
    scan.on_query(Some(region(0x1000, 0x2000, PAGE_READWRITE)));
    assert_eq!(scan.next_request(), CeRequest::Read { address: 0x1000, length: BUFFER_SIZE });
    scan.on_read(Some(&[7, 7, 7]));
    assert!(scan.matches.is_empty());
    assert_eq!(scan.next_request(), CeRequest::Read { address: 0x2000, length: BUFFER_SIZE });
    scan.on_read(Some(&vec![7u8; BUFFER_SIZE]));
    assert_eq!(scan.matches.len(), BUFFER_SIZE);
    assert_eq!(scan.next_request(), CeRequest::Done);
    // a region without room for the pattern is passed over
    let mut small = aob_scan_ce(&[1, 2, 3], "xxx", 0x1000, 0x2000, 1, PAGE_READWRITE, vec![]).unwrap();
    small.next_request();
    small.on_query(Some(region(0x1000, 2, PAGE_READWRITE)));
    assert_eq!(small.next_request(), CeRequest::Query(0x1002));
}
