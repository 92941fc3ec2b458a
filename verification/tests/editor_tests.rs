use deepgrid_studio::character::{Character, GrowthType, Stats};
use deepgrid_studio::dungeon::{Block, Facing, Floor, GridPos, Level};
use deepgrid_studio::editor::{next_id, EditWalk, IdKind, WalkAction};
use deepgrid_studio::editor_ops::rename_id;
use deepgrid_studio::editor_state::EditorState;
use deepgrid_studio::event::{EventAction, EventDef, FlagJoin, TriggerKind};
use deepgrid_studio::item::{ItemDef, ItemKind};
use deepgrid_studio::magic::{MagicDef, MagicKind};
use deepgrid_studio::project::{LevelData, Project, StairsLink};
use deepgrid_studio::validation::{level_delete_warnings, validate};

#[test]
fn auto_numbering_skips_used_ids() {
    let existing = vec!["item_001".to_string(), "item_002".to_string()];
    assert_eq!(next_id(&existing, "item"), "item_003");
    assert_eq!(next_id(&vec![], "mon"), "mon_001");
}

#[test]
fn auto_numbering_fills_the_first_gap() {
    let existing = vec!["char_002".to_string(), "char_001".to_string(), "char_004".to_string()];
    assert_eq!(next_id(&existing, "char"), "char_003");
}

fn level_3x3(center: Block) -> Level {
    // 3×3 floor, all Empty except the center cell = `center`.
    let mut blocks = vec![Block::Empty; 9];
    blocks[4] = center; // (1,1)
    Level { floors: vec![Floor { width: 3, height: 3, blocks }] }
}

#[test]
fn wall_blocks_but_door_and_hole_pass() {
    let mut w = EditWalk::new(GridPos::new(1, 0, 0), Facing::South); // face (1,1)
    let wall = level_3x3(Block::Wall);
    assert!(!w.step(WalkAction::Forward, &wall)); // wall ahead → blocked
    assert_eq!(w.pos, GridPos::new(1, 0, 0));

    for passable in [Block::Door { kind: 0 }, Block::Hole, Block::Water, Block::WritableWall] {
        let mut w2 = EditWalk::new(GridPos::new(1, 0, 0), Facing::South);
        let lvl = level_3x3(passable);
        assert!(w2.step(WalkAction::Forward, &lvl), "{passable:?} should be passable");
        assert_eq!(w2.pos, GridPos::new(1, 1, 0));
    }
}

#[test]
fn turn_changes_facing_not_position() {
    let lvl = level_3x3(Block::Empty);
    let mut w = EditWalk::new(GridPos::new(1, 1, 0), Facing::North);
    assert!(w.step(WalkAction::TurnRight, &lvl));
    assert_eq!(w.facing, Facing::East);
    assert_eq!(w.pos, GridPos::new(1, 1, 0));
}

#[test]
fn front_cell_follows_facing() {
    let w = EditWalk::new(GridPos::new(2, 2, 1), Facing::East);
    assert_eq!(w.front(), GridPos::new(3, 2, 1));
}

#[test]
fn climb_clamps_to_floor_range_and_walls_block() {
    // 1×1 tower: empty, empty, wall.
    let f = |b| Floor { width: 1, height: 1, blocks: vec![b] };
    let lvl = Level { floors: vec![f(Block::Empty), f(Block::Empty), f(Block::Wall)] };
    let mut w = EditWalk::new(GridPos::new(0, 0, 0), Facing::North);
    assert!(!w.climb(false, &lvl)); // already at floor 0
    assert!(w.climb(true, &lvl));
    assert_eq!(w.pos.floor, 1);
    assert!(!w.climb(true, &lvl)); // wall in the cell above → blocked
    assert_eq!(w.pos.floor, 1);

    let open = Level { floors: vec![f(Block::Empty), f(Block::Empty)] };
    let mut top = EditWalk::new(GridPos::new(0, 0, 1), Facing::North);
    assert!(!top.climb(true, &open)); // clamp at the top floor
    assert_eq!(top.pos.floor, 1);
}

#[test]
fn out_of_bounds_is_not_passable() {
    let lvl = level_3x3(Block::Empty);
    let mut w = EditWalk::new(GridPos::new(0, 0, 0), Facing::West); // off the map
    assert!(!w.step(WalkAction::Forward, &lvl));
}

fn level_data(floors: Vec<Floor>, start: GridPos) -> LevelData {
    LevelData {
        start,
        start_facing: Facing::North,
        level: Level { floors },
        items: Vec::new(),
        monsters: Vec::new(),
        wall_texts: Vec::new(),
        stairs_links: Vec::new(),
        events: Vec::new(),
        open_doors: Vec::new(),
        bgm: String::new(),
    }
}

fn two_floor_project() -> Project {
    let floor0 = Floor { width: 3, height: 3, blocks: vec![Block::Wall; 9] };
    let floor1 = Floor { width: 3, height: 3, blocks: vec![Block::Empty; 9] };
    let mut p = Project::fallback("/tmp/does-not-exist".to_string());
    p.name = "T".to_string();
    p.level_paths = vec!["levels/level00.ron".to_string()];
    p.levels = vec![level_data(vec![floor0, floor1], GridPos::new(0, 0, 1))];
    p
}

#[test]
fn paint_stroke_is_one_undo_op() {
    let mut s = EditorState::new(two_floor_project());
    s.floor_index = 1;
    s.selected = Block::Water;
    s.paint(1, 1);
    s.paint(2, 1);
    s.paint(1, 1); // repaint same cell — must not create a second op entry
    s.end_stroke();
    assert_eq!(s.block_at(1, 1), Some(Block::Water));
    assert_eq!(s.block_at(2, 1), Some(Block::Water));
    assert_eq!(s.undo.len(), 1);
    assert_eq!(s.undo[0].cells().len(), 2);

    s.undo();
    assert_eq!(s.block_at(1, 1), Some(Block::Empty));
    assert_eq!(s.block_at(2, 1), Some(Block::Empty));
    s.redo();
    assert_eq!(s.block_at(1, 1), Some(Block::Water));
}

#[test]
fn cannot_wall_over_start() {
    let mut s = EditorState::new(two_floor_project());
    s.floor_index = 1;
    s.selected = Block::Wall;
    s.paint(0, 0); // start cell
    s.end_stroke();
    assert_eq!(s.block_at(0, 0), Some(Block::Empty));
    assert!(s.undo.is_empty());
}

#[test]
fn set_start_moves_then_cycles_facing() {
    let mut s = EditorState::new(two_floor_project());
    s.floor_index = 1;
    s.set_start(2, 2); // move (start cell was 0,0)
    assert_eq!(s.cur().start, GridPos::new(2, 2, 1));
    assert_eq!(s.cur().start_facing, Facing::North);
    s.set_start(2, 2); // same cell -> cycle facing N->E
    assert_eq!(s.cur().start_facing, Facing::East);
    s.undo(); // undo the facing cycle
    assert_eq!(s.cur().start_facing, Facing::North);
    s.undo(); // undo the move
    assert_eq!(s.cur().start, GridPos::new(0, 0, 1));
}

#[test]
fn undo_and_redo_report_an_empty_history() {
    let mut s = EditorState::new(two_floor_project());
    s.undo();
    assert_eq!(s.status, "nothing to undo");
    s.redo();
    assert_eq!(s.status, "nothing to redo");
    assert!(!s.can_undo() && !s.can_redo());
}

#[test]
fn a_new_edit_clears_the_redo_history() {
    let mut s = EditorState::new(two_floor_project());
    s.floor_index = 1;
    s.selected = Block::Water;
    s.paint(1, 1);
    s.end_stroke();
    s.undo();
    assert!(s.can_redo());
    s.paint(2, 2);
    s.end_stroke();
    assert!(!s.can_redo());
    assert!(s.is_dirty());
}

#[test]
fn save_refuses_a_start_without_footing() {
    let mut s = EditorState::new(two_floor_project());
    s.levels[0].level.floors[0].blocks[0] = Block::Empty; // remove the wall under the start
    assert_eq!(s.save(), None);
    assert_eq!(s.status, "cannot save: start has no footing");
    let mut ok = EditorState::new(two_floor_project());
    assert_eq!(ok.save(), Some(None));
    ok.finish_save("levels/level00.ron", Ok(()), None);
    assert_eq!(ok.status, "saved levels/level00.ron");
    assert!(!ok.is_dirty());
}

fn character(id: &str, magics: Vec<String>) -> Character {
    Character {
        id: id.to_string(),
        first_name: id.to_string(),
        last_name: String::new(),
        gender: String::new(),
        birth_date: String::new(),
        age: 20,
        likes: String::new(),
        dislikes: String::new(),
        background: String::new(),
        growth: GrowthType::Average,
        stats: Stats {
            level: 1,
            max_hp: 10,
            max_mp: 10,
            attack: 1,
            defense: 1,
            agility: 1,
            throwing: 1,
            carrying: 100,
            lung_capacity: 1,
            heat_resist: 1,
            poison_resist: 1,
            magic_knowledge: 1,
            concentration: 1,
            appraisal: 1,
            stealing: 1,
            bite: 1,
        },
        model: String::new(),
        portrait: String::new(),
        items: vec![],
        magics,
    }
}

fn item(id: &str, teaches: Option<&str>) -> ItemDef {
    ItemDef {
        id: id.to_string(),
        name: id.to_string(),
        kind: if teaches.is_some() { ItemKind::Scroll } else { ItemKind::General },
        sharpness: 0,
        hardness: 0,
        weight: 1,
        temperature: 0,
        nutrition: 0,
        entropy_max: 0,
        anti_magic: 0,
        anti_appraisal: 0,
        anti_impact: 0,
        important: false,
        throwability: 0,
        grip: 0,
        capacity: 0,
        equip_slots: vec![],
        effects: vec![],
        model: String::new(),
        teaches: teaches.map(|m| m.to_string()),
    }
}

fn magic(id: &str) -> MagicDef {
    MagicDef {
        id: id.to_string(),
        name: id.to_string(),
        description: String::new(),
        mp_cost: 5,
        difficulty: 1,
        kind: MagicKind::HpChange,
        value: 10,
        duration_cycles: 0,
        liquefiable: false,
        projectiles: 0,
        symbol: String::new(),
    }
}

/// A small project with the cross-references the sample project has: a
/// keyhole taking `key_bronze`, a character knowing `heal`, a scroll teaching
/// it, and stairs from level 0 to level 1.
fn sample() -> Project {
    let mut p = two_floor_project();
    p.characters = vec![character("knight", vec![]), character("solon", vec!["heal".to_string()])];
    p.party = vec!["knight".to_string(), "solon".to_string()];
    p.items = vec![item("key_bronze", None), item("scroll_heal", Some("heal"))];
    p.magics = vec![magic("heal")];
    let mut l0 = p.levels[0].clone();
    l0.events = vec![EventDef {
        id: "door_key".to_string(),
        trigger: TriggerKind::Keyhole { key_item: "key_bronze".to_string() },
        at: (1, 1, 1),
        delay_cycles: 0,
        flags: vec![],
        join: FlagJoin::And,
        actions: vec![EventAction::SpawnItem { item: "key_bronze".to_string(), x: 2, y: 2, floor: 1 }],
    }];
    l0.stairs_links = vec![StairsLink { from: (2, 2, 1), to_level: 1, to: (0, 0, 1), to_facing: Facing::South }];
    let l1 = p.levels[0].clone();
    p.levels = vec![l0, l1];
    p.level_paths = vec!["levels/level00.ron".to_string(), "levels/level01.ron".to_string()];
    p
}

#[test]
fn rename_propagates_across_references() {
    let mut p = sample();
    let n = rename_id(&mut p, IdKind::Item, "key_bronze", "key_gold");
    assert!(n >= 1, "expected key_bronze references to be updated, got {n}");
    // The definition itself moved.
    assert!(p.items.iter().any(|d| d.id == "key_gold"));
    assert!(!p.items.iter().any(|d| d.id == "key_bronze"));
    // No dangling "key_bronze" references remain in the keyhole trigger.
    let dangling = p.levels.iter().any(|l| {
        l.events.iter().any(|e| matches!(&e.trigger, TriggerKind::Keyhole { key_item } if key_item == "key_bronze"))
    });
    assert!(!dangling);
}

#[test]
fn rename_counts_every_reference() {
    let mut p = sample();
    // The keyhole and the spawn action on level 0.
    assert_eq!(rename_id(&mut p, IdKind::Item, "key_bronze", "key_gold"), 2);
    assert_eq!(rename_id(&mut p, IdKind::Item, "key_gold", "key_gold"), 0);
    assert_eq!(rename_id(&mut p, IdKind::Character, "solon", "soron"), 1);
    assert_eq!(p.party, vec!["knight".to_string(), "soron".to_string()]);
}

#[test]
fn rename_magic_updates_character_and_scroll() {
    let mut p = sample();
    let n = rename_id(&mut p, IdKind::Magic, "heal", "cure");
    // The character knows heal; scroll_heal teaches heal → at least 2 references.
    assert!(n >= 2, "expected heal references updated, got {n}");
    assert!(p.characters.iter().any(|c| c.magics.iter().any(|m| m == "cure")));
    assert!(p.items.iter().any(|d| d.teaches.as_deref() == Some("cure")));
}

#[test]
fn validate_flags_overage_and_dangling() {
    let mut p = sample();
    // A consistent project has no dangling-reference warnings.
    assert!(validate(&p).iter().all(|w| !w.contains("未定義")), "{:?}", validate(&p));
    // Break a reference and lower a limit.
    p.party.push("ghost".into());
    p.limits.max_item_kinds = 1;
    let w = validate(&p);
    assert!(w.iter().any(|s| s.contains("未定義キャラ 'ghost'")));
    assert!(w.iter().any(|s| s.contains("アイテム種類が上限超過")));
}

#[test]
fn validate_reports_exact_lines() {
    let mut p = sample();
    p.limits.max_item_kinds = 1;
    p.party.push("ghost".into());
    let w = validate(&p);
    assert_eq!(w[0], "アイテム種類が上限超過: 2 / 1");
    assert_eq!(w[1], "party: 未定義キャラ 'ghost'");
}

#[test]
fn level_delete_warns_on_references() {
    let p = sample();
    // level00 stairs link to level 1; deleting level 1 must warn.
    let w = level_delete_warnings(&p, 1);
    assert!(w.iter().any(|s| s.contains("level1")), "{w:?}");
    assert_eq!(w, vec!["level0 の階段が level1 を参照".to_string()]);
    assert!(level_delete_warnings(&p, 0).is_empty());
}

#[test]
fn palette_names_are_distinct() {
    let p = deepgrid_studio::editor::palette();
    assert_eq!(p.len(), 22);
    for i in 0..p.len() {
        for j in (i + 1)..p.len() {
            assert_ne!(deepgrid_studio::editor::block_label(p[i]), deepgrid_studio::editor::block_label(p[j]));
        }
    }
    assert_eq!(deepgrid_studio::editor::block_label(Block::Door { kind: 7 }), "ドア2");
}

#[test]
fn one_undo_takes_back_a_start_move() {
    let mut s = EditorState::new(two_floor_project());
    s.floor_index = 1;
    let before = s.cur().clone();
    s.set_start(1, 2);
    assert_eq!(s.cur().start, GridPos::new(1, 2, 1));
    s.undo();
    assert_eq!(s.cur().level, before.level);
    assert_eq!(s.cur().start, before.start);
    assert_eq!(s.cur().start_facing, before.start_facing);
    assert!(s.can_redo());
}
