use deepgrid_studio::audio::{effects_to_play, leveled_up, Se};
use deepgrid_studio::commands::{dispatch_command, press_space, Dispatch, SpacePress};
use deepgrid_studio::character::{Character, CharacterState, GrowthType, Party, PartyMember, Stats};
use deepgrid_studio::data_actions::{cast_target_for, press_action, rest_tick, ActionKind, REST_CYCLES};
use deepgrid_studio::demo::{demo_text, drive_demo, find_demo, start_demo, ActiveDemo, BgmState, DemoClose, DemoStep};
use deepgrid_studio::dungeon::{Block, DoorStates, Dungeon, Facing, Floor, GridPos, Level};
use deepgrid_studio::player::{start_command, Action, Command, CommandStart, Player};
use deepgrid_studio::editor_view::{
    action_label, action_options, cell_glyph, display_name, magic_kind_label, magic_kind_options, new_character,
    new_event, new_item, new_magic, new_monster, trigger_label, trigger_options,
};
use deepgrid_studio::event::{EventAction, MoveMode, TriggerKind};
use deepgrid_studio::player_combat::PlayerAction;
use deepgrid_studio::hud::{bar_values, card_dimmed, card_label, BarKind};
use deepgrid_studio::item::{EquipSlot, Inventory, ItemCatalog, ItemDef, ItemInstance, ItemKind, SlotRef};
use deepgrid_studio::magic::{CastTarget, MagicCatalog, MagicDef, MagicKind};
use deepgrid_studio::message_log::{text_contains, MessageLog, LOG_CAPACITY};
use deepgrid_studio::monster::{
    any_monster_sees, setup_monsters, Monster, MonsterAnims, MonsterCatalog, MonsterDef, MonsterPlacement, MoveType,
};
use deepgrid_studio::project::DemoDef;
use deepgrid_studio::rules::HungerRules;

fn stats() -> Stats {
    Stats {
        level: 1,
        max_hp: 30,
        max_mp: 10,
        attack: 5,
        defense: 5,
        agility: 5,
        throwing: 5,
        carrying: 100,
        lung_capacity: 5,
        heat_resist: 5,
        poison_resist: 5,
        magic_knowledge: 5,
        concentration: 0,
        appraisal: 5,
        stealing: 5,
        bite: 5,
    }
}

fn member(name: &str) -> PartyMember {
    let ch = Character {
        id: name.to_string(),
        first_name: name.to_string(),
        last_name: String::new(),
        gender: String::new(),
        birth_date: String::new(),
        age: 20,
        likes: String::new(),
        dislikes: String::new(),
        background: String::new(),
        growth: GrowthType::Average,
        stats: stats(),
        model: String::new(),
        portrait: String::new(),
        items: vec![],
        magics: vec![],
    };
    let state = CharacterState::full(&ch);
    PartyMember { character: ch, state, inventory: Inventory::new(2, 2) }
}

fn def(id: &str, name: &str, kind: ItemKind) -> ItemDef {
    let mut d = new_item(id.to_string());
    d.name = name.to_string();
    d.kind = kind;
    d
}

fn heal(id: &str, name: &str) -> MagicDef {
    let mut m = new_magic(id.to_string());
    m.name = name.to_string();
    m.description = "傷を癒やす".to_string();
    m
}

fn catalogs() -> (ItemCatalog, MagicCatalog) {
    let mut helm = def("helm", "かぶと", ItemKind::General);
    helm.equip_slots = vec![EquipSlot::Head];
    let mut bread = def("bread", "パン", ItemKind::General);
    bread.nutrition = 5;
    let mut scroll = def("scroll", "巻物", ItemKind::Scroll);
    scroll.teaches = Some("heal".to_string());
    let bottle = def("bottle", "ビン", ItemKind::EmptyContainer);
    let items = ItemCatalog::from_defs(vec![helm, bread, scroll, bottle], "i").unwrap();
    let magics = MagicCatalog::from_defs(vec![heal("heal", "ヒール")], "m").unwrap();
    (items, magics)
}

fn holding(id: &str) -> PartyMember {
    let mut m = member("a");
    m.inventory.pickup(ItemInstance::new(id.to_string())).unwrap();
    m
}

fn lines(v: &[String]) -> Vec<&str> {
    v.iter().map(|s| s.as_str()).collect()
}

#[test]
fn rest_toggles_unless_a_monster_is_near() {
    let (items, magics) = catalogs();
    let h = HungerRules::default();
    let mut m = member("a");
    let out = press_action(&mut m, ActionKind::Zzz, None, false, true, &items, &magics, &h);
    assert!(!out.resting);
    assert_eq!(lines(&out.messages), vec!["モンスターが近くにいる!"]);
    let out = press_action(&mut m, ActionKind::Zzz, None, false, false, &items, &magics, &h);
    assert!(out.resting);
    assert_eq!(lines(&out.messages), vec!["休息を始めた"]);
    // Stopping is allowed even with a monster near.
    let out = press_action(&mut m, ActionKind::Zzz, None, true, true, &items, &magics, &h);
    assert!(!out.resting);
    assert_eq!(lines(&out.messages), vec!["休息をやめた"]);
}

#[test]
fn item_actions_need_a_selected_slot() {
    let (items, magics) = catalogs();
    let mut m = holding("bread");
    let out = press_action(&mut m, ActionKind::Eat, None, false, false, &items, &magics, &HungerRules::default());
    assert_eq!(lines(&out.messages), vec!["スロットを選択してください"]);
    assert!(m.inventory.get(SlotRef::Hand(0)).is_some());
}

#[test]
fn equip_moves_the_item_and_clears_the_selection() {
    let (items, magics) = catalogs();
    let mut m = holding("helm");
    let h = HungerRules::default();
    let out = press_action(&mut m, ActionKind::Equip, Some(SlotRef::Hand(0)), false, false, &items, &magics, &h);
    assert_eq!(lines(&out.messages), vec!["装備した"]);
    assert_eq!(out.selected, None);
    assert!(m.inventory.get(SlotRef::Equip(EquipSlot::Head)).is_some());
    let out = press_action(
        &mut m,
        ActionKind::Unequip,
        Some(SlotRef::Hand(0)),
        false,
        false,
        &items,
        &magics,
        &h,
    );
    assert_eq!(lines(&out.messages), vec!["装備スロットではない"]);
    let head = Some(SlotRef::Equip(EquipSlot::Head));
    let out = press_action(&mut m, ActionKind::Unequip, head, false, false, &items, &magics, &h);
    assert_eq!(lines(&out.messages), vec!["はずした"]);
    assert!(m.inventory.get(SlotRef::Equip(EquipSlot::Head)).is_none());
}

#[test]
fn eating_uses_the_item_up() {
    let (items, magics) = catalogs();
    let mut m = holding("bread");
    m.state.hp = 10;
    let h = HungerRules::default();
    let out = press_action(&mut m, ActionKind::Eat, Some(SlotRef::Hand(0)), false, false, &items, &magics, &h);
    assert_eq!(lines(&out.messages), vec!["パンを食べた"]);
    assert_eq!(m.state.hp, 15);
    assert!(m.inventory.get(SlotRef::Hand(0)).is_none());
    let out = press_action(&mut m, ActionKind::Eat, Some(SlotRef::Hand(0)), false, false, &items, &magics, &h);
    assert_eq!(lines(&out.messages), vec!["スロットが空だ"]);
}

#[test]
fn reading_teaches_and_shows_the_description() {
    let (items, magics) = catalogs();
    let mut m = holding("scroll");
    let h = HungerRules::default();
    let out = press_action(&mut m, ActionKind::Read, Some(SlotRef::Hand(0)), false, false, &items, &magics, &h);
    assert_eq!(lines(&out.messages), vec!["傷を癒やす", "aは 『ヒール』を おぼえた!"]);
    assert_eq!(m.state.learned, vec!["heal".to_string()]);
    assert!(m.inventory.get(SlotRef::Hand(0)).is_none());

    let mut m = holding("bread");
    let out = press_action(&mut m, ActionKind::Read, Some(SlotRef::Hand(0)), false, false, &items, &magics, &h);
    assert_eq!(lines(&out.messages), vec!["巻物ではない"]);
}

#[test]
fn drinking_needs_a_potion_and_placing_needs_an_item() {
    let (items, magics) = catalogs();
    let h = HungerRules::default();
    let mut m = holding("bottle");
    let out = press_action(&mut m, ActionKind::Drink, Some(SlotRef::Hand(0)), false, false, &items, &magics, &h);
    assert_eq!(lines(&out.messages), vec!["それは 秘薬では ない"]);
    let out = press_action(&mut m, ActionKind::Place, Some(SlotRef::Hand(0)), false, false, &items, &magics, &h);
    assert_eq!(out.place, Some(SlotRef::Hand(0)));
    assert!(out.messages.is_empty());
    let out = press_action(&mut m, ActionKind::Place, Some(SlotRef::Hand(1)), false, false, &items, &magics, &h);
    assert_eq!(out.place, None);
    assert_eq!(lines(&out.messages), vec!["スロットが空だ"]);
}

#[test]
fn resting_heals_every_rest_period() {
    let (items, _) = catalogs();
    let h = HungerRules::default();
    let mut party = Party { members: vec![member("a"), member("b")] };
    party.members[0].state.hp = 25;
    party.members[0].state.mp = 2;
    party.members[1].state.hp = 1;
    party.members[1].state.down = true;
    // 7 + 25 cycles = 3 rests (accumulator 2 left).
    let (resting, accum, msg) = rest_tick(&mut party, true, 7, 25, true, false, &items, &h);
    assert!(resting && msg.is_none());
    assert_eq!(accum, (7 + 25) % REST_CYCLES);
    assert_eq!(party.members[0].state.hp, 28);
    assert_eq!(party.members[0].state.mp, 5);
    assert_eq!(party.members[1].state.hp, 1);
    // Healing stops at the maximum.
    let (_, _, _) = rest_tick(&mut party, true, 0, 100, true, false, &items, &h);
    assert_eq!(party.members[0].state.hp, 30);
    assert_eq!(party.members[0].state.mp, 10);
}

#[test]
fn a_monster_in_view_interrupts_the_rest() {
    let (items, _) = catalogs();
    let mut party = Party { members: vec![member("a")] };
    party.members[0].state.hp = 5;
    let (resting, accum, msg) = rest_tick(&mut party, true, 9, 5, true, true, &items, &HungerRules::default());
    assert!(!resting);
    assert_eq!(accum, 0);
    assert_eq!(msg.as_deref(), Some("モンスターが現れて 休息を中断した!"));
    assert_eq!(party.members[0].state.hp, 5);
}

#[test]
fn spells_from_the_data_screen_pick_their_target() {
    let mut bolt = heal("bolt", "ボルト");
    bolt.projectiles = 3;
    assert_eq!(cast_target_for(&bolt, 2), CastTarget::FrontEnemy);
    let mut rev = heal("rev", "リバイブ");
    rev.kind = MagicKind::Revive { ratio_percent: 50 };
    assert_eq!(cast_target_for(&rev, 2), CastTarget::DownedAuto);
    assert_eq!(cast_target_for(&heal("h", "h"), 2), CastTarget::Member(2));
}

fn demo(id: &str, lines: &[&str], bgm: &str) -> DemoDef {
    DemoDef {
        id: id.to_string(),
        name: id.to_string(),
        lines: lines.iter().map(|s| s.to_string()).collect(),
        bgm: bgm.to_string(),
    }
}

#[test]
fn a_demo_plays_to_its_end_and_restores_the_music() {
    let demos = vec![demo("op", &["one", "two"], "op.ogg"), demo("ed", &[], "")];
    let mut bgm = BgmState { level_track: "lv.ogg".to_string(), override_track: None };
    assert_eq!(find_demo(&demos, "ed"), Some(1));
    let mut a = start_demo(&demos, "op", &mut bgm).unwrap();
    assert_eq!(a.shown, 1);
    assert!(!a.at_end);
    assert_eq!(bgm.desired(), "op.ogg");
    assert_eq!(demo_text(&demos[0].lines, a.shown, a.at_end), "one");
    assert_eq!(drive_demo(&mut a, 2, false, false, true, false, &mut bgm), DemoStep::Continue { restart_timer: true });
    assert_eq!(a.shown, 2);
    assert_eq!(drive_demo(&mut a, 2, true, false, false, false, &mut bgm), DemoStep::Continue { restart_timer: true });
    assert!(a.at_end);
    assert_eq!(demo_text(&demos[0].lines, a.shown, a.at_end), "one\ntwo\n\n— END —");
    assert_eq!(drive_demo(&mut a, 2, false, false, false, false, &mut bgm), DemoStep::Continue { restart_timer: false });
    assert_eq!(drive_demo(&mut a, 2, true, false, false, false, &mut bgm), DemoStep::Close(DemoClose::Play));
    assert_eq!(bgm.desired(), "lv.ogg");
}

#[test]
fn skipping_reveals_everything_and_the_ending_returns_to_the_title() {
    let demos = vec![demo("ed", &["a", "b", "c"], "")];
    let mut bgm = BgmState { level_track: String::new(), override_track: Some("x".to_string()) };
    let mut a = start_demo(&demos, "ed", &mut bgm).unwrap();
    assert_eq!(a.prev_override.as_deref(), Some("x"));
    drive_demo(&mut a, 3, false, true, false, false, &mut bgm);
    assert_eq!((a.shown, a.at_end), (3, true));
    assert_eq!(drive_demo(&mut a, 3, false, true, false, false, &mut bgm), DemoStep::Close(DemoClose::Title));
    let mut b = ActiveDemo { id: "ed".to_string(), shown: 3, at_end: true, prev_override: None };
    assert_eq!(drive_demo(&mut b, 3, true, false, false, true, &mut bgm), DemoStep::Close(DemoClose::Editor));
}

#[test]
fn an_unknown_demo_is_refused() {
    let mut bgm = BgmState { level_track: String::new(), override_track: None };
    let r = start_demo(&vec![], "zz", &mut bgm);
    assert_eq!(r, Err("デモ「zz」が みつからない".to_string()));
}

#[test]
fn the_demo_overlay_keeps_the_last_lines() {
    let ls: Vec<String> = (0..20).map(|i| i.to_string()).collect();
    let t = demo_text(&ls, 20, false);
    assert_eq!(t, (6..20).map(|i| i.to_string()).collect::<Vec<_>>().join("\n"));
    assert_eq!(demo_text(&vec![], 0, true), "— END —");
}

#[test]
fn the_log_keeps_the_newest_lines() {
    let mut log = MessageLog::new();
    for i in 0..(LOG_CAPACITY + 3) {
        log.push(format!("line {i}"));
    }
    assert!(!log.contains("line 0"));
    assert!(log.contains("line 3"));
    assert!(log.contains(&format!("line {}", LOG_CAPACITY + 2)));
    let v = log.visible();
    assert_eq!(v.len(), 4);
    assert_eq!(v[3], format!("line {}", LOG_CAPACITY + 2));
}

#[test]
fn the_window_pads_a_short_log() {
    let mut log = MessageLog::new();
    log.push("ようこそ".to_string());
    assert_eq!(log.visible(), vec![String::new(), String::new(), String::new(), "ようこそ".to_string()]);
    assert!(text_contains("モンスターが近くにいる!", "近く"));
    assert!(text_contains("abc", ""));
    assert!(!text_contains("ab", "abc"));
}

#[test]
fn map_cells_show_their_glyphs() {
    assert_eq!(cell_glyph(Block::Empty), None);
    assert_eq!(cell_glyph(Block::Wall), None);
    assert_eq!(cell_glyph(Block::Door { kind: 3 }), Some('2'));
    assert_eq!(cell_glyph(Block::Horoscope { pass_from: Facing::North }), Some('^'));
    assert_eq!(cell_glyph(Block::Stairs { up: false }), Some('d'));
    assert_eq!(trigger_label(&TriggerKind::Unprompted), "なし");
    assert_eq!(trigger_label(&TriggerKind::WarpPoint { hidden: true }), "ワープ");
    assert_eq!(action_label(&EventAction::Loop), "ループ");
    assert_eq!(action_label(&EventAction::SetFlag { flag: 1, on: true }), "フラグ設定");
}

#[test]
fn inventory_entries_show_names() {
    let (items, magics) = catalogs();
    let mut bottle = ItemInstance::new("bottle".to_string());
    assert_eq!(display_name(&bottle, &items, &magics), "ビン");
    bottle.potion_of = Some("heal".to_string());
    assert_eq!(display_name(&bottle, &items, &magics), "ヒールのビン");
    bottle.potion_of = Some("zap".to_string());
    assert_eq!(display_name(&bottle, &items, &magics), "zapのビン");
    assert_eq!(display_name(&ItemInstance::new("nope".to_string()), &items, &magics), "nope");
}

#[test]
fn new_entries_start_from_templates() {
    let c = new_character("c1".to_string());
    assert_eq!((c.id.as_str(), c.first_name.as_str(), c.stats.max_hp, c.stats.concentration), ("c1", "なまえ", 30, 20));
    let m = new_monster("m1".to_string());
    assert_eq!((m.max_hp, m.action_unit, m.move_type), (20, 16, MoveType::Ground));
    let e = new_event("e1".to_string());
    assert_eq!(e.trigger, TriggerKind::SwitchPush);
    assert!(e.actions.is_empty());
    let i = new_item("i1".to_string());
    assert_eq!((i.weight, i.temperature, i.kind), (1, 20, ItemKind::General));
}

fn watcher() -> MonsterDef {
    MonsterDef {
        id: "eye".to_string(),
        name: "目玉".to_string(),
        profile: String::new(),
        max_hp: 5,
        attack: 1,
        defense: 0,
        agility: 1,
        attack_freq: 10,
        anti_magic: 0,
        body_temp: 0,
        resist_air: 0,
        resist_water: 0,
        resist_heat: 0,
        resist_poison: 0,
        wariness: 0,
        regen_cycles: 0,
        move_type: MoveType::Ground,
        can_use_ladder: false,
        fits_narrow: false,
        sight: 3,
        action_unit: 10,
        flee_hp: 0,
        large: false,
        carry_items: vec![],
        attack_items: vec![],
        exp: 1,
        model: String::new(),
        anim: MonsterAnims {
            idle: String::new(),
            walk: String::new(),
            attack: String::new(),
            hit: String::new(),
            death: String::new(),
        },
    }
}

#[test]
fn monsters_in_sight_block_rest() {
    let cat = MonsterCatalog::from_defs(vec![watcher()], "m").unwrap();
    let mut level = Level { floors: vec![Floor { width: 7, height: 1, blocks: vec![Block::Empty; 7] }] };
    let doors = DoorStates::new(2);
    let mut ms = vec![Monster::new_at("eye".to_string(), 5, GridPos::new(3, 0, 0), Facing::West)];
    let me = GridPos::new(0, 0, 0);
    assert!(any_monster_sees(me, &ms, &cat, &level, &doors));
    level.floors[0].blocks[1] = Block::Wall;
    assert!(!any_monster_sees(me, &ms, &cat, &level, &doors));
    level.floors[0].blocks[1] = Block::Empty;
    ms[0].dead = true;
    assert!(!any_monster_sees(me, &ms, &cat, &level, &doors));
    ms[0].dead = false;
    ms[0].pos = GridPos::new(5, 0, 0);
    assert!(!any_monster_sees(me, &ms, &cat, &level, &doors));
}

#[test]
fn placements_of_known_kinds_spawn_monsters() {
    let mut eye = watcher();
    eye.carry_items = vec!["gem".to_string()];
    let cat = MonsterCatalog::from_defs(vec![eye], "m").unwrap();
    let ps = vec![
        MonsterPlacement { id: "ghost".to_string(), x: 1, y: 1, floor: 0, facing: Facing::North },
        MonsterPlacement { id: "eye".to_string(), x: 4, y: 2, floor: 1, facing: Facing::East },
    ];
    let ms = setup_monsters(&ps, &cat);
    assert_eq!(ms.len(), 1);
    assert_eq!(ms[0].def_id, "eye");
    assert_eq!((ms[0].hp, ms[0].pos, ms[0].facing), (5, GridPos::new(4, 2, 1), Facing::East));
    assert_eq!(ms[0].carry, vec!["gem".to_string()]);
    assert!(!ms[0].dead && ms[0].next_action == 0);
}

#[test]
fn editor_menus_list_their_options() {
    let kinds = magic_kind_options();
    assert_eq!(kinds.len(), 5);
    assert_eq!(magic_kind_label(&kinds[3]), "復活");
    assert_eq!(magic_kind_label(&kinds[2]), "能力値変化");
    let triggers = trigger_options();
    assert_eq!(triggers.len(), 7);
    assert_eq!(trigger_label(&triggers[6]), "なし");
    let actions = action_options();
    assert_eq!(actions.len(), 13);
    assert_eq!(action_label(&actions[4]), "ワープ");
    assert_eq!(actions[12], EventAction::Loop);
}

#[test]
fn grid_commands_move_turn_and_open_doors() {
    let mut blocks = vec![Block::Empty; 9];
    blocks[1] = Block::Door { kind: 0 }; // (1,0)
    let level = Level { floors: vec![Floor { width: 3, height: 3, blocks }] };
    let dungeon = Dungeon { level, start_pos: GridPos::new(1, 2, 0), start_facing: Facing::North };
    let mut doors = DoorStates::new(2);
    let mut p = Player { pos: GridPos::new(1, 2, 0), facing: Facing::North };
    let r = start_command(Command::Move(Action::Forward), false, &mut p, &dungeon, &mut doors);
    assert_eq!(r, CommandStart::Moved { fallen: 0 });
    assert_eq!(p.pos, GridPos::new(1, 1, 0));
    assert_eq!(start_command(Command::ToggleDoor, false, &mut p, &dungeon, &mut doors), CommandStart::Door(Some(true)));
    assert!(doors.is_open(0));
    assert_eq!(start_command(Command::Attack, false, &mut p, &dungeon, &mut doors), CommandStart::Elsewhere);
    let r = start_command(Command::Move(Action::TurnRight), false, &mut p, &dungeon, &mut doors);
    assert_eq!(r, CommandStart::Moved { fallen: 0 });
    assert_eq!(p.facing, Facing::East);
    assert_eq!(start_command(Command::ClimbUp, false, &mut p, &dungeon, &mut doors), CommandStart::Climbed(None));
}

#[test]
fn party_cards_mark_fallen_and_starving_members() {
    let mut m = member("あお");
    m.state.hp = 12;
    assert_eq!(bar_values(&m, BarKind::Hp, 1000), (12, 30));
    assert_eq!(bar_values(&m, BarKind::Satiety, 1000), (m.state.satiety, 1000));
    m.state.satiety = 0;
    assert_eq!(card_label(&m, false), "あお");
    assert!(!card_dimmed(&m, false));
    assert_eq!(card_label(&m, true), "あお  飢餓");
    assert!(card_dimmed(&m, true));
    m.state.down = true;
    assert_eq!(card_label(&m, true), "あお  気絶");
}

#[test]
fn each_sound_plays_once_per_frame() {
    let reqs = vec![Se::AttackHit, Se::Footstep, Se::AttackHit, Se::Cast];
    assert_eq!(effects_to_play(&reqs, false, true, true), vec![Se::AttackHit, Se::Footstep, Se::Cast]);
    assert_eq!(effects_to_play(&reqs, false, true, false), vec![Se::AttackHit, Se::Cast]);
    assert!(effects_to_play(&reqs, true, true, true).is_empty());
    assert!(effects_to_play(&reqs, false, false, true).is_empty());
    assert_eq!(Se::Land.path(), "audio/se/fall_thud.ogg");
}

#[test]
fn the_fanfare_follows_a_level_rise() {
    assert!(leveled_up(&vec![1, 3], &vec![1, 4]));
    assert!(!leveled_up(&vec![1, 3], &vec![1, 3]));
    assert!(!leveled_up(&vec![1], &vec![1, 4]));
}

fn corridor() -> Dungeon {
    let mut blocks = vec![Block::Empty; 9];
    blocks[1] = Block::Door { kind: 0 }; // (1,0)
    let level = Level { floors: vec![Floor { width: 3, height: 3, blocks }] };
    Dungeon { level, start_pos: GridPos::new(1, 2, 0), start_facing: Facing::North }
}

#[test]
fn commands_dispatch_to_requests_and_moves() {
    let (items, _) = catalogs();
    let party = Party { members: vec![member("a")] };
    let d = corridor();
    let mut doors = DoorStates::new(2);
    let mut p = Player { pos: GridPos::new(1, 2, 0), facing: Facing::North };
    let mut warned = false;
    let none: Vec<GridPos> = vec![];
    let mut go = |cmd, open, mode, occ: &Vec<GridPos>, p: &mut Player, doors: &mut DoorStates, warned: &mut bool| {
        dispatch_command(cmd, open, mode, &party, &items, occ, p, &d, doors, warned)
    };
    assert_eq!(go(Command::Get, false, MoveMode::Normal, &none, &mut p, &mut doors, &mut warned), Dispatch::Pickup);
    assert_eq!(go(Command::Get, true, MoveMode::Normal, &none, &mut p, &mut doors, &mut warned), Dispatch::Ignored);
    assert_eq!(
        go(Command::Guard, false, MoveMode::Normal, &none, &mut p, &mut doors, &mut warned),
        Dispatch::Combat(PlayerAction::Guard)
    );
    let fwd = Command::Move(Action::Forward);
    assert_eq!(go(fwd, false, MoveMode::Locked, &none, &mut p, &mut doors, &mut warned), Dispatch::Ignored);
    let blocked = vec![GridPos::new(1, 1, 0)];
    assert_eq!(
        go(fwd, false, MoveMode::Normal, &blocked, &mut p, &mut doors, &mut warned),
        Dispatch::Combat(PlayerAction::Attack)
    );
    assert_eq!(p.pos, GridPos::new(1, 2, 0));
    let r = go(fwd, false, MoveMode::Normal, &none, &mut p, &mut doors, &mut warned);
    assert_eq!(r, Dispatch::Grid { start: CommandStart::Moved { fallen: 0 }, footstep: true });
    assert_eq!(p.pos, GridPos::new(1, 1, 0));
    assert_eq!(
        go(Command::Interact, false, MoveMode::Normal, &none, &mut p, &mut doors, &mut warned),
        Dispatch::Interact(GridPos::new(1, 0, 0))
    );
}

#[test]
fn an_overloaded_party_cannot_step() {
    let mut rock = def("rock", "いわ", ItemKind::General);
    rock.weight = 1000;
    let items = ItemCatalog::from_defs(vec![rock], "i").unwrap();
    let mut a = member("a");
    a.inventory.pickup(ItemInstance::new("rock".to_string())).unwrap();
    let party = Party { members: vec![member("b"), a] };
    let d = corridor();
    let mut doors = DoorStates::new(2);
    let mut p = Player { pos: GridPos::new(1, 2, 0), facing: Facing::North };
    let mut warned = false;
    let none: Vec<GridPos> = vec![];
    let fwd = Command::Move(Action::Forward);
    let r = dispatch_command(fwd, false, MoveMode::Normal, &party, &items, &none, &mut p, &d, &mut doors, &mut warned);
    assert_eq!(r, Dispatch::Overweight(Some("aは動けない! 荷物が重すぎる".to_string())));
    assert!(warned);
    let r = dispatch_command(fwd, false, MoveMode::Normal, &party, &items, &none, &mut p, &d, &mut doors, &mut warned);
    assert_eq!(r, Dispatch::Overweight(None));
    // Turning is still allowed, and free flight ignores the load.
    let turn = Command::Move(Action::TurnLeft);
    let r = dispatch_command(turn, false, MoveMode::Normal, &party, &items, &none, &mut p, &d, &mut doors, &mut warned);
    assert_eq!(r, Dispatch::Grid { start: CommandStart::Moved { fallen: 0 }, footstep: false });
    assert!(!warned);
    p.facing = Facing::North;
    let r = dispatch_command(fwd, false, MoveMode::Free, &party, &items, &none, &mut p, &d, &mut doors, &mut warned);
    assert!(matches!(r, Dispatch::Grid { footstep: true, .. }));
}

#[test]
fn space_attacks_or_presses_ahead() {
    let d = corridor();
    let mut doors = DoorStates::new(2);
    let p = Player { pos: GridPos::new(1, 1, 0), facing: Facing::North };
    assert_eq!(press_space(&p, &vec![GridPos::new(1, 0, 0)], &d, &mut doors), SpacePress::Attack);
    assert!(!doors.is_open(0));
    assert_eq!(
        press_space(&p, &vec![], &d, &mut doors),
        SpacePress::Pressed { door: Some(true), at: GridPos::new(1, 0, 0) }
    );
    assert!(doors.is_open(0));
}
