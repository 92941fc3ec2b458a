use deepgrid_studio::character::{Character, CharacterState, GrowthType, Party, PartyMember, Stats};
use deepgrid_studio::dungeon::{Block, Facing, Floor, GridPos, Level};
use deepgrid_studio::floor_items::{pickup_floor_item, place_item, FloorItem, PlaceRequest};
use deepgrid_studio::interact::{apply_wall_write, debug_gimmick_driver, WallWriteRequest, WallWrites};
use deepgrid_studio::item::{Inventory, ItemCatalog, ItemDef, ItemInstance, ItemKind, SlotRef};
use deepgrid_studio::magic::{MagicCatalog, MagicDef, MagicKind};
use deepgrid_studio::monster::{MoveType, Monster, MonsterAnims, MonsterCatalog, MonsterDef};
use deepgrid_studio::player::Player;
use deepgrid_studio::player_combat::{
    concentrate_party, guard_party, player_attack, steal_from, throw_item,
};

fn stats(v: i32) -> Stats {
    Stats {
        level: 1,
        max_hp: 30,
        max_mp: 10,
        attack: v,
        defense: v,
        agility: v,
        throwing: v,
        carrying: 100,
        lung_capacity: v,
        heat_resist: v,
        poison_resist: v,
        magic_knowledge: v,
        concentration: 0,
        appraisal: v,
        stealing: v,
        bite: v,
    }
}

fn member(name: &str) -> PartyMember {
    let ch = Character {
        id: name.to_string(),
        first_name: name.to_string(),
        last_name: String::new(),
        gender: String::new(),
        birth_date: String::new(),
        age: 20,
        likes: String::new(),
        dislikes: String::new(),
        background: String::new(),
        growth: GrowthType::Average,
        stats: stats(10),
        model: String::new(),
        portrait: String::new(),
        items: vec![],
        magics: vec![],
    };
    let state = CharacterState::full(&ch);
    PartyMember { character: ch, state, inventory: Inventory::new(2, 2) }
}

fn item(id: &str, name: &str, sharpness: i32, kind: ItemKind) -> ItemDef {
    ItemDef {
        id: id.to_string(),
        name: name.to_string(),
        kind,
        sharpness,
        hardness: 0,
        weight: 1,
        temperature: 0,
        nutrition: 0,
        entropy_max: 0,
        anti_magic: 0,
        anti_appraisal: 0,
        anti_impact: 0,
        important: false,
        throwability: 0,
        grip: 0,
        capacity: 0,
        equip_slots: vec![],
        effects: vec![],
        model: String::new(),
        teaches: None,
    }
}

fn slime() -> MonsterDef {
    MonsterDef {
        id: "slime".to_string(),
        name: "スライム".to_string(),
        profile: String::new(),
        max_hp: 5,
        attack: 10,
        defense: 0,
        agility: 10,
        attack_freq: 10,
        anti_magic: 0,
        body_temp: 0,
        resist_air: 0,
        resist_water: 0,
        resist_heat: 0,
        resist_poison: 0,
        wariness: 0,
        regen_cycles: 0,
        move_type: MoveType::Ground,
        can_use_ladder: false,
        fits_narrow: false,
        sight: 3,
        action_unit: 10,
        flee_hp: 0,
        large: false,
        carry_items: vec![],
        attack_items: vec![],
        exp: 10,
        model: String::new(),
        anim: MonsterAnims {
            idle: String::new(),
            walk: String::new(),
            attack: String::new(),
            hit: String::new(),
            death: String::new(),
        },
    }
}

fn room() -> Level {
    Level { floors: vec![Floor { width: 5, height: 5, blocks: vec![Block::Empty; 25] }] }
}

fn player() -> Player {
    Player { pos: GridPos::new(2, 2, 0), facing: Facing::North }
}

#[test]
fn guard_and_concentrate_skip_downed_members() {
    let mut party = Party { members: vec![member("a"), member("b")] };
    party.members[1].state.down = true;
    assert_eq!(guard_party(&mut party), "身がまえた");
    assert!(party.members[0].state.guarding && !party.members[1].state.guarding);
    assert_eq!(concentrate_party(&mut party), "精神を統一している");
    assert!(party.members[0].state.concentrating && !party.members[1].state.concentrating);
}

#[test]
fn attack_with_nothing_ahead() {
    let mut party = Party { members: vec![member("a")] };
    let mut rot = 0usize;
    let mut ms: Vec<Monster> = vec![];
    let cat = MonsterCatalog::from_defs(vec![slime()], "m").unwrap();
    let out = player_attack(&mut party, &mut rot, &mut ms, &cat, &ItemCatalog::default(), &player(), 0, 0);
    assert_eq!(out.msgs, vec!["目の前に敵はいない".to_string()]);
    assert_eq!(rot, 0);
}

#[test]
fn attack_hits_and_defeats_the_monster_ahead() {
    let mut party = Party { members: vec![member("a")] };
    let mut rot = 0usize;
    let mut ms = vec![Monster::new_at("slime".to_string(), 1, GridPos::new(2, 1, 0), Facing::South)];
    let cat = MonsterCatalog::from_defs(vec![slime()], "m").unwrap();
    // roll 0 is below any hit chance: unarmed 0 + attack 10/10 − 0 = 1 damage.
    let out = player_attack(&mut party, &mut rot, &mut ms, &cat, &ItemCatalog::default(), &player(), 7, 0);
    assert_eq!(out.msgs[0], "aの こうげき! スライムに 1のダメージ");
    assert_eq!(out.msgs[1], "スライムを たおした! (経験値 10)");
    assert!(ms[0].dead && ms[0].hp == 0 && ms[0].dead_cycle == 7);
    assert_eq!(party.members[0].state.exp, 10);
    assert_eq!(rot, 1);
}

#[test]
fn attack_misses_on_a_high_roll() {
    let mut party = Party { members: vec![member("a")] };
    let mut rot = 0usize;
    let mut ms = vec![Monster::new_at("slime".to_string(), 5, GridPos::new(2, 1, 0), Facing::South)];
    let cat = MonsterCatalog::from_defs(vec![slime()], "m").unwrap();
    let out = player_attack(&mut party, &mut rot, &mut ms, &cat, &ItemCatalog::default(), &player(), 0, 99);
    assert_eq!(out.msgs, vec!["aの こうげき! ミス!".to_string()]);
    assert_eq!(ms[0].hp, 5);
}

#[test]
fn throw_lands_before_the_wall() {
    let mut party = Party { members: vec![member("a")] };
    party.members[0].inventory.pickup(ItemInstance::new("rock".to_string())).unwrap();
    let items = ItemCatalog::from_defs(vec![item("rock", "いし", 2, ItemKind::General)], "i").unwrap();
    let cat = MonsterCatalog::from_defs(vec![slime()], "m").unwrap();
    let mut lvl = room();
    lvl.floors[0].blocks[2 * 5 + 2 - 10] = Block::Wall; // (2,0)
    let mut ms: Vec<Monster> = vec![];
    let out = throw_item(&mut party, 0, &items, &cat, &player(), &lvl, 0, &mut ms);
    assert_eq!(out.msgs, vec!["aは いしを 投げた".to_string()]);
    let (it, at) = out.landed.unwrap();
    assert_eq!(it.def_id, "rock");
    assert_eq!(at, GridPos::new(2, 1, 0));
    assert!(party.members[0].inventory.get(SlotRef::Hand(0)).is_none());
}

#[test]
fn throw_without_a_held_item() {
    let mut party = Party { members: vec![member("a")] };
    let cat = MonsterCatalog::default();
    let mut ms: Vec<Monster> = vec![];
    let out = throw_item(&mut party, 0, &ItemCatalog::default(), &cat, &player(), &room(), 0, &mut ms);
    assert_eq!(out.msgs, vec!["投げるものが無い".to_string()]);
    assert!(out.landed.is_none());
}

#[test]
fn steal_takes_the_first_carried_item() {
    let mut party = Party { members: vec![member("a")] };
    let cat = MonsterCatalog::from_defs(vec![slime()], "m").unwrap();
    let items = ItemCatalog::from_defs(vec![item("gem", "ほうせき", 0, ItemKind::General)], "i").unwrap();
    let mut m = Monster::new_at("slime".to_string(), 5, GridPos::new(2, 1, 0), Facing::South);
    m.carry = vec!["gem".to_string(), "coin".to_string()];
    let mut ms = vec![m];
    let out = steal_from(&mut party, 0, &items, &cat, &player(), 3, &mut ms, 0, 0, 0);
    assert_eq!(out.msgs, vec!["aは ほうせきを ぬすんだ!".to_string()]);
    assert_eq!(ms[0].carry, vec!["coin".to_string()]);
    assert!(party.members[0].inventory.get(SlotRef::Hand(0)).is_some());
}

#[test]
fn failed_steal_provokes_a_counterattack() {
    let mut party = Party { members: vec![member("a")] };
    let cat = MonsterCatalog::from_defs(vec![slime()], "m").unwrap();
    let mut ms = vec![Monster::new_at("slime".to_string(), 5, GridPos::new(2, 1, 0), Facing::South)];
    let out = steal_from(&mut party, 0, &ItemCatalog::default(), &cat, &player(), 3, &mut ms, 99, 0, 99);
    assert_eq!(out.msgs, vec!["aは 盗みに失敗した!".to_string(), "スライムの こうげき! aは かわした".to_string()]);
    assert_eq!(ms[0].next_attack, 3);
}

#[test]
fn wall_write_needs_a_wall_and_a_pencil() {
    let mut lvl = room();
    lvl.floors[0].blocks[1 * 5 + 2] = Block::WritableWall; // (2,1)
    let items = ItemCatalog::from_defs(vec![item("pen", "えんぴつ", 0, ItemKind::Pencil)], "i").unwrap();
    let mut party = Party { members: vec![member("a")] };
    let mut writes = WallWrites::default();
    let req = WallWriteRequest { text: "ここ".to_string() };
    assert_eq!(apply_wall_write(&req, &party, &player(), &lvl, &items, 0, &mut writes), "鉛筆を 持っていない");
    party.members[0].inventory.pickup(ItemInstance::new("pen".to_string())).unwrap();
    assert_eq!(apply_wall_write(&req, &party, &player(), &lvl, &items, 0, &mut writes), "壁に かきこんだ。");
    assert_eq!(writes.get((0, 2, 1, 0)), Some(&"ここ".to_string()));
    let away = Player { pos: GridPos::new(2, 2, 0), facing: Facing::South };
    assert_eq!(apply_wall_write(&req, &party, &away, &lvl, &items, 0, &mut writes), "正面に 書ける壁がない");
}

#[test]
fn pickup_prefers_the_own_cell_then_the_front() {
    let mut party = Party { members: vec![member("a")] };
    let items = ItemCatalog::from_defs(vec![item("gem", "ほうせき", 0, ItemKind::General)], "i").unwrap();
    let mut floor = vec![
        FloorItem { instance: ItemInstance::new("gem".to_string()), pos: GridPos::new(2, 1, 0) },
        FloorItem { instance: ItemInstance::new("coin".to_string()), pos: GridPos::new(2, 2, 0) },
    ];
    let msg = pickup_floor_item(&player(), 0, &mut party, &items, &mut floor);
    assert_eq!(msg, Some("coinを拾った".to_string()));
    assert_eq!(floor.len(), 1);
    let msg2 = pickup_floor_item(&player(), 0, &mut party, &items, &mut floor);
    assert_eq!(msg2, Some("ほうせきを拾った".to_string()));
    assert_eq!(pickup_floor_item(&player(), 0, &mut party, &items, &mut floor), Some("ここには何もない".to_string()));
}

#[test]
fn placing_drops_the_item_at_the_party() {
    let mut party = Party { members: vec![member("a")] };
    let items = ItemCatalog::from_defs(vec![item("gem", "ほうせき", 0, ItemKind::General)], "i").unwrap();
    party.members[0].inventory.pickup(ItemInstance::new("gem".to_string())).unwrap();
    let (f, msg) = place_item(&PlaceRequest { slot: SlotRef::Hand(0) }, &player(), 0, &mut party, &items).unwrap();
    assert_eq!(msg, "ほうせきを置いた");
    assert_eq!(f.pos, GridPos::new(2, 2, 0));
    assert!(party.members[0].inventory.get(SlotRef::Hand(0)).is_none());
}

#[test]
fn debug_driver_moves_to_the_plate_viewpoint_once_idle() {
    let mut done = false;
    let mut p = player();
    let scene = Some("plate".to_string());
    debug_gimmick_driver(&scene, &mut done, false, &mut p);
    assert!(!done);
    debug_gimmick_driver(&scene, &mut done, true, &mut p);
    assert!(done);
    assert_eq!(p, Player { pos: GridPos::new(27, 20, 0), facing: Facing::East });
    let mut done2 = false;
    debug_gimmick_driver(&Some("title".to_string()), &mut done2, true, &mut p);
    assert!(done2);
}

#[test]
fn duplicate_ids_rejected() {
    let magic = |id: &str| MagicDef {
        id: id.to_string(),
        name: id.to_string(),
        description: String::new(),
        mp_cost: 5,
        difficulty: 10,
        kind: MagicKind::MpChange,
        value: 0,
        duration_cycles: 0,
        liquefiable: false,
        projectiles: 0,
        symbol: String::new(),
    };
    assert!(MagicCatalog::from_defs(vec![magic("a"), magic("a")], "test").is_err());
    let cat = MagicCatalog::from_defs(vec![magic("heal"), MagicDef { projectiles: 2, ..magic("fire") }], "test").unwrap();
    assert!(cat.get("heal").is_some());
    assert!(cat.get("fire").unwrap().is_attack());
    assert!(!cat.get("heal").unwrap().is_attack());
}
