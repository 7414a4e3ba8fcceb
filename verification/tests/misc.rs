use nas::attach::AttachError;
use nas::build_guide::{BuildGuide, BuildGuideManager, GroupData, NamedGroup};
use nas::error::EngineError;
use nas::memory::{
    complete_read, get_protection_string, read_pointer, MemoryRegion, ReadRequest, RegionWalk,
    MEM_COMMIT,
};
use nas::text::read_utf16_string;
use nas::winrate::{reason_for_kind, EndGameKind, Outcome, WinrateStats, WinrateStore};

#[test]
fn protection_strings() {
    let expected = [
        (0x10, "X"),
        (0x20, "RX"),
        (0x40, "RWX"),
        (0x80, "RWXC"),
        (0x02, "R"),
        (0x04, "RW"),
        (0x08, "RWC"),
        (0x00, "---"),
        (0x01, "---"),
        (0x100, "---"),
        (0x104, "RW"),
        (0x30, "X"),
        (0x06, "R"),
        (0x42, "RWX"),
    ];
    for (protect, text) in expected {
        assert_eq!(get_protection_string(protect), text);
    }
}

#[test]
fn transfers_are_all_or_nothing() {
    let request = ReadRequest { address: 0x10, length: 4 };
    assert_eq!(complete_read(request, Some(&[1, 2, 3, 4])), Ok(&[1u8, 2, 3, 4][..]));
    assert_eq!(complete_read(request, Some(&[1, 2, 3])), Err(EngineError::MemoryTransfer));
    assert_eq!(complete_read(request, Some(&[1, 2, 3, 4, 5])), Err(EngineError::MemoryTransfer));
    assert_eq!(complete_read(request, None), Err(EngineError::MemoryTransfer));
    assert_eq!(
        read_pointer(0x40),
        ReadRequest { address: 0x40, length: std::mem::size_of::<usize>() }
    );
}

fn answer(base: usize, size: usize, state: u32) -> MemoryRegion {
    MemoryRegion {
        base_address: base,
        allocation_base: base,
        allocation_protect: 4,
        region_size: size,
        state,
        protect: 4,
        type_: 0x20000,
    }
}

#[test]
fn region_walk_keeps_committed_regions() {
    let mut walk = RegionWalk::new();
    assert_eq!(walk.next_query(), Some(0));
    walk.on_query(Some(answer(0, 0x10000, 0x10000)));
    assert_eq!(walk.next_query(), Some(0x10000));
    walk.on_query(Some(answer(0x10000, 0x3000, MEM_COMMIT)));
    assert_eq!(walk.next_query(), Some(0x13000));
    walk.on_query(Some(answer(0x13000, 0x1000, 0x2000)));
    walk.on_query(Some(answer(0x14000, 0x1000, MEM_COMMIT)));
    assert_eq!(walk.next_query(), Some(0x15000));
    walk.on_query(None);
    assert_eq!(walk.next_query(), None);
    assert_eq!(
        walk.regions.iter().map(|r| (r.base_address, r.region_size)).collect::<Vec<_>>(),
        vec![(0x10000, 0x3000), (0x14000, 0x1000)]
    );
}

#[test]
fn region_walk_ends_at_the_end_of_the_address_space() {
    let mut walk = RegionWalk::new();
    walk.on_query(Some(answer(0, usize::MAX, MEM_COMMIT)));
    assert_eq!(walk.next_query(), Some(usize::MAX));
    walk.on_query(Some(answer(usize::MAX - 0xFFF, 0x1000, MEM_COMMIT)));
    assert_eq!(walk.next_query(), None);
    assert_eq!(walk.regions.len(), 2);
    let mut stuck = RegionWalk::new();
    stuck.on_query(Some(answer(0, 0, MEM_COMMIT)));
    assert_eq!(stuck.next_query(), None);
    assert_eq!(stuck.regions.len(), 1);
}

#[test]
fn utf16_text_is_read_up_to_the_zero() {
    let mut reader = read_utf16_string(0x5000);
    let text: Vec<u16> = "h\u{e9}\u{1F600}!".encode_utf16().collect();
    let mut asked = Vec::new();
    let mut units = text.iter().chain(std::iter::once(&0u16));
    while let Some(request) = reader.next_read() {
        asked.push(request.address);
        assert_eq!(request.length, 2);
        let unit = units.next().unwrap();
        assert_eq!(reader.on_read(Some(&unit.to_le_bytes())), Ok(()));
    }
    assert_eq!(asked, vec![0x5000, 0x5002, 0x5004, 0x5006, 0x5008, 0x500A]);
    assert_eq!(reader.text(), "h\u{e9}\u{1F600}!");
    assert!(reader.done);
}

#[test]
fn utf16_reader_reports_failed_reads_and_replaces_bad_units() {
    let mut reader = read_utf16_string(0x5000);
    assert_eq!(reader.on_read(None), Err(EngineError::MemoryTransfer));
    assert_eq!(reader.on_read(Some(&[0x41])), Err(EngineError::MemoryTransfer));
    assert_eq!(reader.on_read(Some(&[0, 0, 0])), Err(EngineError::MemoryTransfer));
    assert_eq!(reader.next_read(), Some(ReadRequest { address: 0x5000, length: 2 }));
    assert_eq!(reader.on_read(Some(&[0x41, 0x00])), Ok(()));
    assert_eq!(reader.on_read(Some(&[0x00, 0xD8])), Ok(()));
    assert_eq!(reader.on_read(Some(&[0x42, 0x00])), Ok(()));
    assert!(!reader.done);
    assert_eq!(reader.text(), "A\u{FFFD}B");
    assert_eq!(reader.on_read(Some(&[0, 0])), Ok(()));
    assert!(reader.done);
    assert_eq!(reader.units, vec![0x41, 0xD800, 0x42]);
    let empty = read_utf16_string(usize::MAX - 1);
    assert_eq!(empty.text(), "");
    let mut edge = read_utf16_string(usize::MAX - 1);
    edge.on_read(Some(&[1, 1])).unwrap();
    assert_eq!(edge.next_read(), Some(ReadRequest { address: 0, length: 2 }));
}

#[test]
fn end_game_kinds() {
    assert_eq!(EndGameKind::from_u32(0), EndGameKind::NoResult);
    assert_eq!(EndGameKind::from_u32(1), EndGameKind::Defeat);
    assert_eq!(EndGameKind::from_u32(2), EndGameKind::Victory);
    assert_eq!(EndGameKind::from_u32(7), EndGameKind::Mealsquirrel);
    assert_eq!(EndGameKind::from_u32(11), EndGameKind::Yggdrasil);
    assert_eq!(EndGameKind::from_u32(12), EndGameKind::NoResult);
    assert_eq!(EndGameKind::from_u32(u32::MAX), EndGameKind::NoResult);
    let reasons: Vec<Option<&str>> = (0..13).map(|v| reason_for_kind(EndGameKind::from_u32(v))).collect();
    assert_eq!(
        reasons,
        vec![
            None,
            None,
            Some("defaultVictory"),
            Some("fameVictory"),
            Some("helheimVictory"),
            Some("faithVictory"),
            Some("loreVictory"),
            Some("mealSquirrelVictory"),
            Some("odinSwordVictory"),
            Some("moneyVictory"),
            Some("owlTitanVictory"),
            Some("yggdrasilVictory"),
            None,
        ]
    );
}

#[test]
fn winrate_counts_games() {
    let mut stats = WinrateStats::new();
    stats.update_from_kind(EndGameKind::Fame, 100);
    stats.update_from_kind(EndGameKind::Defeat, 200);
    stats.update_from_kind(EndGameKind::Fame, 300);
    stats.update_from_kind(EndGameKind::NoResult, 400);
    stats.update_from_kind(EndGameKind::Lore, 500);
    assert_eq!(stats.total_wins, 4);
    assert_eq!(stats.total_losses, 1);
    let counts: Vec<(String, u32)> =
        stats.by_reason.iter().map(|c| (c.reason.clone(), c.count)).collect();
    assert_eq!(counts, vec![("fameVictory".to_string(), 2), ("loreVictory".to_string(), 1)]);
    let games: Vec<(Outcome, Option<String>, u64)> =
        stats.entries.iter().map(|e| (e.outcome, e.reason.clone(), e.timestamp)).collect();
    assert_eq!(
        games,
        vec![
            (Outcome::Win, Some("fameVictory".to_string()), 100),
            (Outcome::Loss, None, 200),
            (Outcome::Win, Some("fameVictory".to_string()), 300),
            (Outcome::Win, None, 400),
            (Outcome::Win, Some("loreVictory".to_string()), 500),
        ]
    );
}

#[test]
fn winrate_counts_stop_at_the_largest_number() {
    let mut stats = WinrateStats::new();
    stats.total_wins = u32::MAX;
    stats.total_losses = u32::MAX - 1;
    stats.update_from_kind(EndGameKind::Money, 1);
    stats.by_reason[0].count = u32::MAX;
    stats.update_from_kind(EndGameKind::Money, 2);
    stats.update_from_kind(EndGameKind::Defeat, 3);
    stats.update_from_kind(EndGameKind::Defeat, 4);
    assert_eq!(stats.total_wins, u32::MAX);
    assert_eq!(stats.total_losses, u32::MAX);
    assert_eq!(stats.by_reason[0].count, u32::MAX);
    assert_eq!(stats.by_reason.len(), 1);
    assert_eq!(stats.entries.len(), 4);
    let store = WinrateStore::new("data/winrate.json".to_string());
    assert_eq!(store.path(), "data/winrate.json");
}

fn guide(clan: &str) -> BuildGuide {
    BuildGuide {
        clan: clan.to_string(),
        lore_order: vec!["a".to_string()],
        groups: vec![NamedGroup {
            name: "start".to_string(),
            data: GroupData {
                buildings: vec!["house".to_string()],
                units: vec![],
                description: "first".to_string(),
            },
        }],
    }
}

#[test]
fn guides_are_kept_by_name() {
    let mut manager = BuildGuideManager::new("guides".to_string());
    assert!(manager.get_guide_names().is_empty());
    assert!(manager.get_guide("wolf").is_none());
    manager.insert("wolf".to_string(), guide("Wolf"));
    manager.insert("stag".to_string(), guide("Stag"));
    manager.insert("wolf".to_string(), guide("Fenrir"));
    assert_eq!(manager.get_guide_names(), vec!["wolf".to_string(), "stag".to_string()]);
    assert_eq!(manager.get_guide("wolf").unwrap().clan, "Fenrir");
    assert_eq!(manager.get_guide("stag").unwrap().clan, "Stag");
    assert_eq!(manager.get_guide("stag").unwrap().groups[0].data.buildings, vec!["house".to_string()]);
    assert!(manager.get_guide("goat").is_none());
    assert_eq!(manager.guides_dir, "guides");
}

#[test]
fn attach_errors_spell_themselves_out() {
    assert_eq!(
        AttachError::ProcessOpenError("denied".to_string()).message(),
        "Failed to open process: denied"
    );
    assert_eq!(AttachError::InvalidHandle.message(), "Invalid process handle");
    assert_eq!(
        AttachError::InjectionError("no dll".to_string()).message(),
        "Injection failed: no dll"
    );
}
