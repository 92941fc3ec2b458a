use deepgrid_studio::actions::{run_events, EventEffect, EventWorld};
use deepgrid_studio::character::Party;
use deepgrid_studio::dungeon::{Block, DoorStates, Facing, Floor, GridPos, Level};
use deepgrid_studio::event::{
    enqueue, flags_satisfied, plate_step, press_trigger, take_ready, EventAction, EventDef, EventFlags, EventQueue,
    FlagCond, FlagJoin, MoveMode, QueuedEvent, TriggerKind, TriggerStates,
};
use deepgrid_studio::item::ItemCatalog;
use deepgrid_studio::monster::MonsterCatalog;
use deepgrid_studio::player::Player;

fn event(id: &str, trigger: TriggerKind, delay: u64, actions: Vec<EventAction>) -> EventDef {
    EventDef {
        id: id.to_string(),
        trigger,
        at: (1, 1, 0),
        delay_cycles: delay,
        flags: vec![],
        join: FlagJoin::And,
        actions,
    }
}

fn world() -> EventWorld {
    EventWorld {
        flags: EventFlags::new(4),
        doors: DoorStates::new(2),
        move_mode: MoveMode::Normal,
        triggers: TriggerStates::default(),
        queue: EventQueue::default(),
        party: Party::default(),
        player: Player { pos: GridPos::new(0, 0, 0), facing: Facing::North },
        level: Level { floors: vec![Floor { width: 3, height: 3, blocks: vec![Block::Empty; 9] }] },
        monsters: vec![],
    }
}

fn queued(id: &str, cycle: u64) -> QueuedEvent {
    QueuedEvent { event_id: id.to_string(), level: 0, fire_cycle: cycle }
}

#[test]
fn empty_condition_always_holds() {
    let flags = EventFlags::new(64);
    assert!(flags_satisfied(&flags, &[], FlagJoin::And));
    assert!(flags_satisfied(&flags, &[], FlagJoin::Or));
}

#[test]
fn and_or_evaluation() {
    let mut flags = EventFlags::new(64);
    flags.set(1, true);
    let c1 = FlagCond { flag: 1, must_be_on: true };
    let c2 = FlagCond { flag: 2, must_be_on: true };
    // AND: needs both; flag 2 is off → false.
    assert!(!flags_satisfied(&flags, &[c1.clone(), c2.clone()], FlagJoin::And));
    // OR: flag 1 is on → true.
    assert!(flags_satisfied(&flags, &[c1.clone(), c2.clone()], FlagJoin::Or));
    // must_be_on:false matches an off flag.
    let c3 = FlagCond { flag: 2, must_be_on: false };
    assert!(flags_satisfied(&flags, &[c1, c3], FlagJoin::And));
}

#[test]
fn flags_clamp_out_of_range() {
    let mut flags = EventFlags::new(4);
    flags.set(100, true); // no-op, no panic
    assert!(!flags.get(100));
}

#[test]
fn end_chain_stops_the_remaining_actions() {
    let events = vec![event(
        "e1",
        TriggerKind::SwitchPush,
        0,
        vec![
            EventAction::SetFlag { flag: 0, on: true },
            EventAction::EndChain,
            EventAction::SetFlag { flag: 1, on: true },
        ],
    )];
    let mut w = world();
    w.queue.pending.push(queued("e1", 5));
    let fx = run_events(&mut w, 0, 5, &events, &MonsterCatalog::default(), &ItemCatalog::default());
    assert!(fx.is_empty());
    assert!(w.flags.get(0));
    assert!(!w.flags.get(1));
    assert!(w.queue.pending.is_empty());
}

#[test]
fn only_due_entries_of_this_level_run() {
    let events = vec![event("e1", TriggerKind::SwitchPush, 0, vec![EventAction::SetFlag { flag: 0, on: true }])];
    let mut w = world();
    w.queue.pending.push(queued("e1", 9));
    w.queue.pending.push(QueuedEvent { event_id: "e1".to_string(), level: 1, fire_cycle: 0 });
    run_events(&mut w, 0, 5, &events, &MonsterCatalog::default(), &ItemCatalog::default());
    assert!(!w.flags.get(0));
    assert_eq!(w.queue.pending.len(), 2);
}

#[test]
fn loop_requeues_at_least_one_cycle_later() {
    let events = vec![event("tick", TriggerKind::Unprompted, 0, vec![EventAction::SetDoor { kind: 1, open: true }, EventAction::Loop])];
    let mut w = world();
    w.queue.pending.push(queued("tick", 7));
    run_events(&mut w, 0, 7, &events, &MonsterCatalog::default(), &ItemCatalog::default());
    assert!(w.doors.is_open(1));
    assert_eq!(w.queue.pending, vec![queued("tick", 8)]);
}

#[test]
fn operate_switch_queues_its_target_and_records_the_position() {
    let events = vec![
        event("a", TriggerKind::SwitchPush, 0, vec![EventAction::OperateSwitch { event: "b".to_string(), on: true }]),
        event("b", TriggerKind::SwitchToggle, 3, vec![EventAction::SetFlag { flag: 2, on: true }]),
    ];
    let mut w = world();
    w.queue.pending.push(queued("a", 1));
    run_events(&mut w, 0, 1, &events, &MonsterCatalog::default(), &ItemCatalog::default());
    assert_eq!(w.queue.pending, vec![queued("b", 4)]);
    assert_eq!(w.triggers.toggled_on, vec![("b".to_string(), true)]);
}

#[test]
fn warp_within_the_level_moves_the_player() {
    let events = vec![event(
        "w",
        TriggerKind::WarpPoint { hidden: false },
        0,
        vec![EventAction::Warp { level: 0, x: 2, y: 1, floor: 0, facing: Facing::East }],
    )];
    let mut w = world();
    w.queue.pending.push(queued("w", 0));
    let fx = run_events(&mut w, 0, 0, &events, &MonsterCatalog::default(), &ItemCatalog::default());
    assert_eq!(w.player, Player { pos: GridPos::new(2, 1, 0), facing: Facing::East });
    assert_eq!(fx, vec![EventEffect::WarpSound, EventEffect::CameraReset]);
}

#[test]
fn solid_block_pushes_the_player_up() {
    let events = vec![event("s", TriggerKind::SwitchPush, 0, vec![EventAction::SetBlock { x: 0, y: 0, floor: 0, block: Block::Wall }])];
    let mut w = world();
    w.level.floors.push(Floor { width: 3, height: 3, blocks: vec![Block::Empty; 9] });
    w.queue.pending.push(queued("s", 0));
    let fx = run_events(&mut w, 0, 0, &events, &MonsterCatalog::default(), &ItemCatalog::default());
    assert_eq!(w.level.block_at(GridPos::new(0, 0, 0)), Some(Block::Wall));
    assert_eq!(w.player.pos, GridPos::new(0, 0, 1));
    assert_eq!(fx, vec![EventEffect::TileChanged(GridPos::new(0, 0, 0))]);
}

#[test]
fn bgm_change_and_unknown_spawns() {
    let events = vec![event(
        "m",
        TriggerKind::SwitchPush,
        0,
        vec![
            EventAction::ChangeBgm { bgm: String::new() },
            EventAction::SpawnMonster { monster: "ghost".to_string(), x: 1, y: 1, floor: 0 },
            EventAction::ChangeBgm { bgm: "boss.ogg".to_string() },
        ],
    )];
    let mut w = world();
    w.queue.pending.push(queued("m", 0));
    let fx = run_events(&mut w, 0, 0, &events, &MonsterCatalog::default(), &ItemCatalog::default());
    assert_eq!(fx, vec![EventEffect::Bgm(None), EventEffect::Bgm(Some("boss.ogg".to_string()))]);
}

#[test]
fn take_ready_keeps_the_rest_in_order() {
    let mut q = EventQueue::default();
    q.pending.push(queued("a", 1));
    q.pending.push(queued("b", 9));
    q.pending.push(queued("c", 2));
    let ready = take_ready(&mut q, 0, 2);
    assert_eq!(ready, vec![queued("a", 1), queued("c", 2)]);
    assert_eq!(q.pending, vec![queued("b", 9)]);
}

#[test]
fn enqueue_respects_flags() {
    let mut q = EventQueue::default();
    let flags = EventFlags::new(4);
    let mut ev = event("x", TriggerKind::SwitchPush, 2, vec![]);
    ev.flags = vec![FlagCond { flag: 0, must_be_on: true }];
    assert!(!enqueue(&mut q, &ev, 0, 10, &flags));
    assert!(q.pending.is_empty());
    ev.flags = vec![];
    assert!(enqueue(&mut q, &ev, 0, 10, &flags));
    assert_eq!(q.pending, vec![queued("x", 12)]);
}

#[test]
fn toggle_switch_flips_each_press() {
    let ev = event("t", TriggerKind::SwitchToggle, 0, vec![]);
    let flags = EventFlags::new(4);
    let mut t = TriggerStates::default();
    let mut q = EventQueue::default();
    let first = press_trigger(&ev, 0, 0, &flags, false, &mut t, &mut q);
    assert_eq!(first.message, Some("スイッチ ON"));
    let second = press_trigger(&ev, 0, 0, &flags, false, &mut t, &mut q);
    assert_eq!(second.message, Some("スイッチ OFF"));
    assert_eq!(q.pending.len(), 2);
}

#[test]
fn one_way_switch_fires_once_and_keyhole_needs_the_key() {
    let ev = event("o", TriggerKind::SwitchOneWay, 0, vec![]);
    let flags = EventFlags::new(4);
    let mut t = TriggerStates::default();
    let mut q = EventQueue::default();
    assert!(press_trigger(&ev, 0, 0, &flags, false, &mut t, &mut q).sound);
    assert!(!press_trigger(&ev, 0, 0, &flags, false, &mut t, &mut q).sound);
    assert_eq!(q.pending.len(), 1);
    let key = event("k", TriggerKind::Keyhole { key_item: "key".to_string() }, 0, vec![]);
    assert_eq!(press_trigger(&key, 0, 0, &flags, false, &mut t, &mut q).message, Some("かぎあなが ある。あう鍵がない"));
    assert_eq!(press_trigger(&key, 0, 0, &flags, true, &mut t, &mut q).message, Some("かぎを つかった。"));
}

#[test]
fn plate_fires_on_the_rising_edge_only() {
    let ev = event("p", TriggerKind::SwitchPush, 0, vec![]);
    let flags = EventFlags::new(4);
    let mut t = TriggerStates::default();
    let mut q = EventQueue::default();
    assert!(plate_step(&ev, true, 0, 0, &flags, &mut t, &mut q));
    assert!(!plate_step(&ev, true, 0, 0, &flags, &mut t, &mut q));
    assert!(!plate_step(&ev, false, 0, 0, &flags, &mut t, &mut q));
    assert!(plate_step(&ev, true, 0, 0, &flags, &mut t, &mut q));
    assert_eq!(q.pending.len(), 2);
}
