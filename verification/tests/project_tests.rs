use deepgrid_studio::character::{Character, GrowthType, Stats};
use deepgrid_studio::config::LimitsConfig;
use deepgrid_studio::dungeon::{Block, Facing, Floor, GridPos, Level};
use deepgrid_studio::event::{EventAction, EventDef, FlagJoin, TriggerKind};
use deepgrid_studio::item::{ItemCatalog, ItemPlacement};
use deepgrid_studio::monster::MonsterPlacement;
use deepgrid_studio::project::{
    block_to_char, char_to_block, check_characters, check_demos, level_from_map, map_from_level, validate_party,
    DemoDef, DOOR_GLYPH_BASE, LevelData, LevelError, Project, StairsLink, WallText,
};

/// A hand-built level exercising the grid glyphs.
fn sample_level() -> LevelData {
    let floor0 = Floor { width: 4, height: 3, blocks: vec![Block::Wall; 12] };
    let f1 = vec![
        Block::Empty,
        Block::Wall,
        Block::Water,
        Block::Fire,
        Block::Poison,
        Block::Ladder,
        Block::Door { kind: 0 },
        Block::Door { kind: 1 },
        Block::Horoscope { pass_from: Facing::West },
        Block::Horoscope { pass_from: Facing::East },
        Block::Horoscope { pass_from: Facing::North },
        Block::Horoscope { pass_from: Facing::South },
    ];
    let floor1 = Floor { width: 4, height: 3, blocks: f1 };
    LevelData {
        start: GridPos::new(0, 0, 1),
        start_facing: Facing::East,
        level: Level { floors: vec![floor0, floor1] },
        items: Vec::new(),
        monsters: Vec::new(),
        wall_texts: Vec::new(),
        stairs_links: Vec::new(),
        events: Vec::new(),
        open_doors: Vec::new(),
        bgm: String::new(),
    }
}

fn sample_character(id: &str) -> Character {
    Character {
        id: id.to_string(),
        first_name: "テスト".to_string(),
        last_name: "姓".to_string(),
        gender: "男".to_string(),
        birth_date: "1000-01-01".to_string(),
        age: 22,
        likes: "剣".to_string(),
        dislikes: "毒".to_string(),
        background: "戦士。\n二行目。".to_string(),
        growth: GrowthType::Average,
        items: Vec::new(),
        magics: Vec::new(),
        stats: Stats {
            level: 3,
            max_hp: 120,
            max_mp: 20,
            attack: 15,
            defense: 12,
            agility: 10,
            throwing: 8,
            carrying: 14,
            lung_capacity: 9,
            heat_resist: 7,
            poison_resist: 6,
            magic_knowledge: 4,
            concentration: 30,
            appraisal: 5,
            stealing: 3,
            bite: 2,
        },
        model: "models/party/knight.glb".to_string(),
        portrait: "projects/sample/portraits/knight.png".to_string(),
    }
}

#[test]
fn all_glyphs_round_trip_by_char() {
    // Every glyph except the door-open aliases '!'/'@' (which collapse to
    // Door{kind} and re-emit as '1'/'2' unless open).
    for c in [
        '#', '.', '~', '^', '%', 'H', '1', '2', '<', '>', 'n', 'v', 'o', 'u', 'd', 'W', 'A', 'V', 'K', 'S', 'P', 'T',
    ] {
        let block = char_to_block(c).expect("known glyph");
        assert_eq!(block_to_char(block), c, "glyph {c} did not round-trip");
    }
}

#[test]
fn open_door_glyphs_are_left_to_the_map_reader() {
    // '!' and '@' mark a door kind as initially open; the map reader handles
    // them, the per-glyph table does not.
    assert_eq!(char_to_block('!'), None);
    assert_eq!(char_to_block('@'), None);
    assert_eq!(char_to_block('?'), None);
}

#[test]
fn level_ron_round_trip() {
    let limits = LimitsConfig::default();
    let original = sample_level();
    let map = map_from_level(original.clone());
    let restored = level_from_map(map, &limits).expect("parse");
    assert_eq!(original, restored);
}

#[test]
fn open_door_glyph_round_trips() {
    let limits = LimitsConfig::default();
    let mut lvl = sample_level();
    lvl.open_doors = vec![0];
    let map = map_from_level(lvl.clone());
    assert!(map.floors[1].rows[1].contains('!'), "open door should be stored as '!'");
    let restored = level_from_map(map, &limits).expect("parse");
    assert_eq!(restored.open_doors, vec![0]);
    assert_eq!(restored.level.floors[1].blocks[6], Block::Door { kind: 0 });
}

#[test]
fn rejects_start_in_wall() {
    let limits = LimitsConfig::default();
    let mut lvl = sample_level();
    // Put a wall at the start cell (floor 1, 0,0) and expect rejection.
    lvl.level.floors[1].blocks[0] = Block::Wall;
    let map = map_from_level(lvl);
    assert_eq!(level_from_map(map, &limits), Err(LevelError::StartInWall { x: 0, y: 0 }));
}

#[test]
fn rejects_a_start_without_footing() {
    let limits = LimitsConfig::default();
    let mut lvl = sample_level();
    lvl.level.floors[0].blocks[0] = Block::Empty;
    let map = map_from_level(lvl);
    assert_eq!(level_from_map(map, &limits), Err(LevelError::NoFooting { x: 0, y: 0, floor: 1 }));
}

#[test]
fn rejects_duplicate_character_ids() {
    let limits = LimitsConfig::default();
    let dup = vec![sample_character("knight"), sample_character("knight")];
    assert!(check_characters(&dup, &limits, "characters.ron").is_err());
}

#[test]
fn rejects_too_many_characters() {
    let limits = LimitsConfig { max_characters: 1, ..LimitsConfig::default() };
    let two = vec![sample_character("a"), sample_character("b")];
    assert!(check_characters(&two, &limits, "characters.ron").is_err());
}

#[test]
fn party_validation() {
    let limits = LimitsConfig::default();
    let chars = vec![sample_character("knight"), sample_character("mage")];
    // Good roster resolves.
    assert!(validate_party(&vec!["knight".into(), "mage".into()], &chars, &limits).is_ok());
    // Unknown id is rejected.
    assert!(validate_party(&vec!["ghost".into()], &chars, &limits).is_err());
    // Oversize roster is rejected.
    let small = LimitsConfig { party_size: 1, ..LimitsConfig::default() };
    assert!(validate_party(&vec!["knight".into(), "mage".into()], &chars, &small).is_err());
}

fn demo(id: &str, lines: usize) -> DemoDef {
    DemoDef { id: id.to_string(), name: String::new(), lines: vec!["a".to_string(); lines], bgm: String::new() }
}

#[test]
fn demos_ron_limits_are_enforced() {
    let limits = LimitsConfig { max_demos: 1, ..LimitsConfig::default() };
    let ok = check_demos(&vec![demo("op", 1)], &limits, "demos.ron");
    assert!(ok.is_ok());
    let too_many = check_demos(&vec![demo("a", 0), demo("b", 0)], &limits, "demos.ron");
    assert!(too_many.unwrap_err().contains("max_demos"));
    let dup = check_demos(&vec![demo("a", 0), demo("a", 0)], &LimitsConfig::default(), "demos.ron");
    assert!(dup.unwrap_err().contains("duplicate"));
}

#[test]
fn fallback_project_is_playable_shell() {
    let p = Project::fallback("/nonexistent".to_string());
    assert_eq!(p.levels.len(), 1);
    // The start tile must satisfy the same rules load-time validation checks.
    let lvl = &p.levels[0];
    assert!(lvl.level.is_supported(lvl.start.x, lvl.start.y, lvl.start.floor));
    assert!(p.build_party(&ItemCatalog::default()).members.is_empty());
}

#[test]
fn build_party_gives_full_state() {
    let mut project = Project::fallback("/tmp/x".to_string());
    project.characters = vec![sample_character("knight")];
    project.party = vec!["knight".into()];
    project.characters_path = "characters.ron".into();
    let party = project.build_party(&ItemCatalog::default());
    assert_eq!(party.len(), 1);
    assert_eq!(party.members[0].state.hp, 120);
    assert_eq!(party.members[0].state.concentration, 30);
    assert!(!party.members[0].state.down);
}

#[test]
fn plan8_glyphs_and_events_round_trip() {
    let limits = LimitsConfig::default();
    let mut lvl = sample_level();
    lvl.level.floors[1].blocks[3] = Block::Hole; // (3,0)
    lvl.level.floors[1].blocks[7] = Block::Stairs { up: true }; // (3,1)
    lvl.level.floors[1].blocks[11] = Block::WritableWall; // (3,2)
    lvl.wall_texts = vec![WallText { x: 3, y: 2, floor: 1, text: "壁の文字".to_string() }];
    lvl.stairs_links = vec![StairsLink { from: (3, 1, 1), to_level: 0, to: (2, 2, 0), to_facing: Facing::North }];
    lvl.events = vec![EventDef {
        id: "ev1".to_string(),
        trigger: TriggerKind::SwitchPush,
        at: (0, 1, 1),
        delay_cycles: 3,
        flags: vec![],
        join: FlagJoin::And,
        actions: vec![EventAction::SetFlag { flag: 2, on: true }],
    }];
    let map = map_from_level(lvl.clone());
    let restored = level_from_map(map, &limits).expect("parse");
    assert_eq!(lvl, restored);
}

#[test]
fn level_items_round_trip() {
    let limits = LimitsConfig::default();
    let mut lvl = sample_level();
    lvl.items = vec![
        ItemPlacement { id: "sword".to_string(), x: 1, y: 0, floor: 1 },
        ItemPlacement { id: "bread".to_string(), x: 2, y: 1, floor: 1 },
    ];
    let restored = level_from_map(map_from_level(lvl.clone()), &limits).expect("parse");
    assert_eq!(lvl.items, restored.items);
}

#[test]
fn level_monsters_round_trip() {
    let limits = LimitsConfig::default();
    let mut lvl = sample_level();
    lvl.monsters = vec![MonsterPlacement { id: "skel".to_string(), x: 1, y: 0, floor: 1, facing: Facing::South }];
    let restored = level_from_map(map_from_level(lvl.clone()), &limits).expect("parse");
    assert_eq!(lvl.monsters, restored.monsters);
}

#[test]
fn level_errors_read_as_messages() {
    let e = LevelError::StartInWall { x: 0, y: -1 };
    assert_eq!(e.message("levels/a.ron"), "levels/a.ron start (0,-1) is inside a wall");
    let e = LevelError::UnknownBlock { floor: 1, row: 2, col: 3, glyph: 'Z' };
    assert_eq!(e.message("m"), "m floor 1 row 2 col 3: unknown block 'Z'");
    let e = LevelError::TooLarge { width: 50, height: 3, max_width: 40, max_height: 40 };
    assert_eq!(e.message("m"), "m is 50x3, exceeds configured floor size 40x40");
    let e = LevelError::NoFooting { x: 1, y: 2, floor: 3 };
    assert_eq!(e.message("m"), "m start (1,2,floor 3) has no footing (would fall)");
}

#[test]
fn extra_blocks_beyond_the_grid_are_not_stored() {
    let limits = LimitsConfig::default();
    let mut lvl = sample_level();
    lvl.level.floors[0].blocks.push(Block::Water);
    let map = map_from_level(lvl.clone());
    assert_eq!(map.floors[0].rows, vec!["####".to_string(), "####".to_string(), "####".to_string()]);
    let restored = level_from_map(map, &limits).expect("parse");
    assert_eq!(restored.level.floors[0].blocks.len(), 12);
}

#[test]
fn every_door_kind_has_its_own_glyph() {
    assert_eq!(block_to_char(Block::Door { kind: 0 }), '1');
    assert_eq!(block_to_char(Block::Door { kind: 1 }), '2');
    assert_eq!(block_to_char(Block::Door { kind: 2 }), '\u{102}');
    assert_eq!(block_to_char(Block::Door { kind: 255 }), '\u{1ff}');
    for kind in 0..=255u8 {
        let c = block_to_char(Block::Door { kind });
        assert_eq!(char_to_block(c), Some(Block::Door { kind }), "door kind {kind} did not round-trip");
    }
}

#[test]
fn door_glyph_range_edges() {
    assert_eq!(DOOR_GLYPH_BASE, 0x100);
    assert_eq!(char_to_block('\u{100}'), None);
    assert_eq!(char_to_block('\u{101}'), None);
    assert_eq!(char_to_block('\u{102}'), Some(Block::Door { kind: 2 }));
    assert_eq!(char_to_block('\u{1ff}'), Some(Block::Door { kind: 255 }));
    assert_eq!(char_to_block('\u{200}'), None);
}

#[test]
fn a_level_with_a_third_door_kind_round_trips() {
    let mut limits = LimitsConfig::default();
    limits.door_kinds_per_level = 3;
    let mut lvl = sample_level();
    lvl.level.floors[1].blocks[7] = Block::Door { kind: 2 };
    let map = map_from_level(lvl.clone());
    assert_eq!(map.floors[1].rows[1], "%H1\u{102}".to_string());
    let restored = level_from_map(map, &limits).expect("parse");
    assert_eq!(restored, lvl);
}

#[test]
fn a_third_door_kind_beyond_the_limit_is_refused() {
    let limits = LimitsConfig::default();
    let mut lvl = sample_level();
    lvl.level.floors[1].blocks[7] = Block::Door { kind: 2 };
    let map = map_from_level(lvl);
    assert_eq!(
        level_from_map(map, &limits),
        Err(LevelError::DoorKind { floor: 1, row: 1, col: 3, kind: 2, max_kinds: 2 })
    );
}
