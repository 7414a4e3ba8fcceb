use nas::allocation::{
    address_distance, granted_region, NearAllocation, Verdict, MAX_DISTANCE, PAGE_STEP,
};
use nas::error::EngineError;
use nas::memory::{AllocRegion, MemoryRegion, MEM_COMMIT, PAGE_READWRITE};

#[test]
fn distance_is_symmetric() {
    assert_eq!(address_distance(10, 3), 7);
    assert_eq!(address_distance(3, 10), 7);
    assert_eq!(address_distance(5, 5), 0);
    assert_eq!(address_distance(0, usize::MAX), usize::MAX);
}

#[test]
fn candidates_alternate_around_the_target() {
    let mut search = NearAllocation::new(0x7FF6_0000_0000, 0x1000, MAX_DISTANCE);
    let mut asked = Vec::new();
    for _ in 0..6 {
        asked.push(search.next_candidate().unwrap());
        assert_eq!(search.on_result(None), Verdict::Retry);
    }
    assert_eq!(
        asked,
        vec![
            0x7FF6_0000_0000,
            0x7FF6_0000_0000,
            0x7FF6_0000_1000,
            0x7FF5_FFFF_F000,
            0x7FF6_0000_2000,
            0x7FF5_FFFF_E000,
        ]
    );
    assert_eq!(PAGE_STEP, 0x1000);
    assert_eq!(MAX_DISTANCE, 0x7FFF_0000);
}

#[test]
fn candidates_wrap_round_the_address_space() {
    let mut low = NearAllocation::new(0x800, 16, 0x3000);
    low.on_result(None);
    low.on_result(None);
    assert_eq!(low.next_candidate(), Some(0x1800));
    low.on_result(None);
    assert_eq!(low.next_candidate(), Some(0x800usize.wrapping_sub(0x1000)));
    let mut high = NearAllocation::new(usize::MAX - 0x10, 16, 0x3000);
    high.on_result(None);
    high.on_result(None);
    assert_eq!(high.next_candidate(), Some((usize::MAX - 0x10).wrapping_add(0x1000)));
}

#[test]
fn memory_is_accepted_only_within_the_distance() {
    let target = 0x1_0000_0000usize;
    let mut search = NearAllocation::new(target, 0x40, 0x10_0000);
    assert_eq!(search.on_result(Some(target + 0x10_0000)), Verdict::Release(target + 0x10_0000));
    assert_eq!(search.on_result(Some(target - 0x10_0000)), Verdict::Release(target - 0x10_0000));
    assert_eq!(search.on_result(Some(0)), Verdict::Release(0));
    let near = search.on_result(Some(target - 0xF_FFFF));
    assert_eq!(
        near,
        Verdict::Accept(AllocRegion { base_address: target - 0xF_FFFF, region_size: 0x40 })
    );
    let mut search = NearAllocation::new(target, 0x40, 0x10_0000);
    assert_eq!(
        search.on_result(Some(target + 0xF_FFFF)),
        Verdict::Accept(AllocRegion { base_address: target + 0xF_FFFF, region_size: 0x40 })
    );
    // accepting leaves the search where it was
    assert_eq!(search, NearAllocation::new(target, 0x40, 0x10_0000));
}

#[test]
fn search_is_used_up_after_the_distance() {
    let mut search = NearAllocation::new(0x5000_0000, 8, 0x2001);
    let mut requests = 0;
    while let Some(address) = search.next_candidate() {
        assert!(address_distance(address, 0x5000_0000) < 0x2001);
        requests += 1;
        assert_eq!(search.on_result(None), Verdict::Retry);
    }
    assert_eq!(requests, 6);
    let none = NearAllocation::new(0x5000_0000, 8, 0);
    assert_eq!(none.next_candidate(), None);
    let mut whole = NearAllocation::new(0, 8, usize::MAX);
    whole.offset = usize::MAX - 0x10;
    whole.below = true;
    assert!(whole.next_candidate().is_some());
    whole.on_result(None);
    assert_eq!(whole.next_candidate(), None);
}

#[test]
fn a_search_against_an_allocator_that_rounds() {
    // grants memory only at 64 KB boundaries at or above 0x7000_0000
    let target = 0x7000_2345usize;
    let mut search = NearAllocation::new(target, 0x100, 0x2_0000);
    let mut released = Vec::new();
    let placed = loop {
        let hint = match search.next_candidate() {
            Some(hint) => hint,
            None => break None,
        };
        let granted = if hint >= 0x7000_0000 { Some(hint & !0xFFFF) } else { None };
        match search.on_result(granted) {
            Verdict::Accept(region) => break Some(region),
            Verdict::Release(address) => released.push(address),
            Verdict::Retry => {}
        }
    };
    assert_eq!(placed, Some(AllocRegion { base_address: 0x7000_0000, region_size: 0x100 }));
    assert!(released.is_empty());
}

#[test]
fn allocation_anywhere_needs_an_address_and_a_report() {
    let info = MemoryRegion {
        base_address: 0x9000,
        allocation_base: 0x9000,
        allocation_protect: PAGE_READWRITE,
        region_size: 0x2000,
        state: MEM_COMMIT,
        protect: PAGE_READWRITE,
        type_: 0x20000,
    };
    assert_eq!(
        granted_region(Some(0x9000), Some(info)),
        Ok(AllocRegion { base_address: 0x9000, region_size: 0x2000 })
    );
    assert_eq!(granted_region(None, Some(info)), Err(EngineError::AllocationFailure));
    assert_eq!(granted_region(Some(0x9000), None), Err(EngineError::AllocationFailure));
    assert_eq!(granted_region(None, None), Err(EngineError::AllocationFailure));
}
