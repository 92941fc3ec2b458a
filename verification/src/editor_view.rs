//! What the editor shows and adds: the glyph drawn on a map cell, the labels
//! of trigger and action kinds, an inventory entry's display name, and the
//! templates a new catalog entry starts from.
use vstd::prelude::*;
use crate::dungeon::{Block, Facing};
use crate::event::{EventAction, EventDef, FlagJoin, LiquidKind, MoveMode, PlateCond, TriggerKind};
use crate::item::{ItemCatalog, ItemDef, ItemInstance, ItemKind};
use crate::magic::{MagicCatalog, MagicDef, MagicKind};
use crate::monster::{MonsterAnims, MonsterDef, MoveType};
use crate::text::cat;
use crate::character::{Character, GrowthType, StatKind, Stats};

verus! {

/// The glyph the map grid draws on a cell (none for plain terrain). Unlike a
/// map file, a horoscope arrow pointing north shows `^`.
pub open spec fn spec_cell_glyph(b: Block) -> Option<char> {
    match b {
        Block::Ladder => Some('H'),
        Block::Door { kind } => Some(if kind == 0 { '1' } else { '2' }),
        Block::Horoscope { pass_from } => Some(
            match pass_from {
                Facing::West => '<',
                Facing::East => '>',
                Facing::North => '^',
                Facing::South => 'v',
            },
        ),
        Block::Hole => Some('o'),
        Block::Stairs { up } => Some(if up { 'u' } else { 'd' }),
        Block::WritableWall => Some('W'),
        Block::HoroscopeVert { from_below } => Some(if from_below { 'A' } else { 'V' }),
        Block::Keyhole => Some('K'),
        Block::Switch => Some('S'),
        Block::FloorPlate => Some('P'),
        Block::WarpPoint => Some('T'),
        _ => None,
    }
}

/// The glyph of a map cell (see [`spec_cell_glyph`]).
pub fn cell_glyph(b: Block) -> (r: Option<char>)
    ensures
        r == spec_cell_glyph(b),
{
    match b {
        Block::Ladder => Some('H'),
        Block::Door { kind } => Some(
            if kind == 0 {
                '1'
            } else {
                '2'
            },
        ),
        Block::Horoscope { pass_from } => Some(
            match pass_from {
                Facing::West => '<',
                Facing::East => '>',
                Facing::North => '^',
                Facing::South => 'v',
            },
        ),
        Block::Hole => Some('o'),
        Block::Stairs { up } => Some(
            if up {
                'u'
            } else {
                'd'
            },
        ),
        Block::WritableWall => Some('W'),
        Block::HoroscopeVert { from_below } => Some(
            if from_below {
                'A'
            } else {
                'V'
            },
        ),
        Block::Keyhole => Some('K'),
        Block::Switch => Some('S'),
        Block::FloorPlate => Some('P'),
        Block::WarpPoint => Some('T'),
        _ => None,
    }
}

/// The label of a trigger kind.
pub open spec fn spec_trigger_label(t: TriggerKind) -> Seq<char> {
    match t {
        TriggerKind::SwitchPush => "スイッチ(押)"@,
        TriggerKind::SwitchToggle => "スイッチ(トグル)"@,
        TriggerKind::SwitchOneWay => "スイッチ(一度)"@,
        TriggerKind::Keyhole { .. } => "鍵穴"@,
        TriggerKind::FloorPlate { .. } => "しかけ床"@,
        TriggerKind::WarpPoint { .. } => "ワープ"@,
        TriggerKind::Unprompted => "なし"@,
    }
}

/// The label of a trigger kind (see [`spec_trigger_label`]).
pub fn trigger_label(t: &TriggerKind) -> (r: String)
    ensures
        r@ == spec_trigger_label(*t),
{
    match t {
        TriggerKind::SwitchPush => String::from_str("スイッチ(押)"),
        TriggerKind::SwitchToggle => String::from_str("スイッチ(トグル)"),
        TriggerKind::SwitchOneWay => String::from_str("スイッチ(一度)"),
        TriggerKind::Keyhole { .. } => String::from_str("鍵穴"),
        TriggerKind::FloorPlate { .. } => String::from_str("しかけ床"),
        TriggerKind::WarpPoint { .. } => String::from_str("ワープ"),
        TriggerKind::Unprompted => String::from_str("なし"),
    }
}

/// The label of an event action's kind.
pub open spec fn spec_action_label(a: EventAction) -> Seq<char> {
    match a {
        EventAction::SetFlag { .. } => "フラグ設定"@,
        EventAction::SetDoor { .. } => "ドア開閉"@,
        EventAction::SpawnItem { .. } => "アイテム発生"@,
        EventAction::SpawnMonster { .. } => "モンスター発生"@,
        EventAction::Warp { .. } => "ワープ"@,
        EventAction::SetBlock { .. } => "ブロック発生"@,
        EventAction::SetLiquid { .. } => "水位変更"@,
        EventAction::ReviveParty => "パーティ復活"@,
        EventAction::SetMoveMode { .. } => "移動モード"@,
        EventAction::ChangeBgm { .. } => "BGM変更"@,
        EventAction::StartDemo { .. } => "デモ起動"@,
        EventAction::OperateSwitch { .. } => "スイッチ操作"@,
        EventAction::EndChain => "連結終了"@,
        EventAction::Loop => "ループ"@,
    }
}

/// The label of an event action's kind (see [`spec_action_label`]).
pub fn action_label(a: &EventAction) -> (r: String)
    ensures
        r@ == spec_action_label(*a),
{
    match a {
        EventAction::SetFlag { .. } => String::from_str("フラグ設定"),
        EventAction::SetDoor { .. } => String::from_str("ドア開閉"),
        EventAction::SpawnItem { .. } => String::from_str("アイテム発生"),
        EventAction::SpawnMonster { .. } => String::from_str("モンスター発生"),
        EventAction::Warp { .. } => String::from_str("ワープ"),
        EventAction::SetBlock { .. } => String::from_str("ブロック発生"),
        EventAction::SetLiquid { .. } => String::from_str("水位変更"),
        EventAction::ReviveParty => String::from_str("パーティ復活"),
        EventAction::SetMoveMode { .. } => String::from_str("移動モード"),
        EventAction::ChangeBgm { .. } => String::from_str("BGM変更"),
        EventAction::StartDemo { .. } => String::from_str("デモ起動"),
        EventAction::OperateSwitch { .. } => String::from_str("スイッチ操作"),
        EventAction::EndChain => String::from_str("連結終了"),
        EventAction::Loop => String::from_str("ループ"),
    }
}

/// The name an inventory entry shows: a filled bottle is "(spell)のビン",
/// by the spell's name or, when the spell is unknown, its id; any other item
/// shows its definition's name, or its id when the definition is unknown.
pub open spec fn spec_display_name(inst: ItemInstance, items: ItemCatalog, magics: MagicCatalog) -> Seq<char> {
    match inst.potion_of {
        Some(mid) => match magics.spec_get(mid@) {
            Some(d) => d.name@ + "のビン"@,
            None => mid@ + "のビン"@,
        },
        None => match items.spec_get(inst.def_id@) {
            Some(d) => d.name@,
            None => inst.def_id@,
        },
    }
}

/// The name an inventory entry shows (see [`spec_display_name`]).
pub fn display_name(inst: &ItemInstance, items: &ItemCatalog, magics: &MagicCatalog) -> (r: String)
    ensures
        r@ == spec_display_name(*inst, *items, *magics),
{
    match &inst.potion_of {
        Some(mid) => {
            let mname = match magics.get(mid.as_str()) {
                Some(d) => d.name.as_str(),
                None => mid.as_str(),
            };
            cat(mname, "のビン")
        },
        None => match items.get(inst.def_id.as_str()) {
            Some(d) => d.name.clone(),
            None => inst.def_id.clone(),
        },
    }
}

/// A new item definition as the editor adds it: a general, light,
/// unequippable item with no effects.
pub fn new_item(id: String) -> (d: ItemDef)
    ensures
        d.id == id,
        d.name@ == "あたらしい道具"@,
        d.kind == ItemKind::General,
        d.sharpness == 0 && d.hardness == 0 && d.weight == 1 && d.temperature == 20,
        d.nutrition == 0 && d.entropy_max == 0 && d.anti_magic == 0 && d.anti_appraisal == 0,
        d.anti_impact == 0 && !d.important && d.throwability == 0 && d.grip == 0 && d.capacity == 0,
        d.equip_slots@.len() == 0 && d.effects@.len() == 0 && d.model@.len() == 0,
        d.teaches is None,
{
    ItemDef {
        id,
        name: String::from_str("あたらしい道具"),
        kind: ItemKind::General,
        sharpness: 0,
        hardness: 0,
        weight: 1,
        temperature: 20,
        nutrition: 0,
        entropy_max: 0,
        anti_magic: 0,
        anti_appraisal: 0,
        anti_impact: 0,
        important: false,
        throwability: 0,
        grip: 0,
        capacity: 0,
        equip_slots: Vec::new(),
        effects: Vec::new(),
        model: String::new(),
        teaches: None,
    }
}

/// A new monster definition as the editor adds it: a small, slow, walking
/// skeleton that never regenerates.
pub fn new_monster(id: String) -> (d: MonsterDef)
    ensures
        d.id == id,
        d.name@ == "あたらしい敵"@ && d.profile@.len() == 0,
        d.max_hp == 20 && d.attack == 5 && d.defense == 2 && d.agility == 5 && d.attack_freq == 20,
        d.anti_magic == 0 && d.body_temp == 0 && d.resist_air == 0 && d.resist_water == 0,
        d.resist_heat == 0 && d.resist_poison == 0 && d.wariness == 0 && d.regen_cycles == 0,
        d.move_type == MoveType::Ground && !d.can_use_ladder && d.fits_narrow && d.sight == 5,
        d.action_unit == 16 && d.flee_hp == 0 && !d.large && d.exp == 5,
        d.carry_items@.len() == 0 && d.attack_items@.len() == 0,
        d.model@ == "models/enemies/skeleton_minion.glb"@,
        d.anim.idle@ == "Idle"@ && d.anim.walk@ == "Walking_A"@,
        d.anim.attack@ == "1H_Melee_Attack_Slice_Diagonal"@,
        d.anim.hit@ == "Hit_A"@ && d.anim.death@ == "Death_A"@,
{
    MonsterDef {
        id,
        name: String::from_str("あたらしい敵"),
        profile: String::new(),
        max_hp: 20,
        attack: 5,
        defense: 2,
        agility: 5,
        attack_freq: 20,
        anti_magic: 0,
        body_temp: 0,
        resist_air: 0,
        resist_water: 0,
        resist_heat: 0,
        resist_poison: 0,
        wariness: 0,
        regen_cycles: 0,
        move_type: MoveType::Ground,
        can_use_ladder: false,
        fits_narrow: true,
        sight: 5,
        action_unit: 16,
        flee_hp: 0,
        large: false,
        carry_items: Vec::new(),
        attack_items: Vec::new(),
        exp: 5,
        model: String::from_str("models/enemies/skeleton_minion.glb"),
        anim: MonsterAnims {
            idle: String::from_str("Idle"),
            walk: String::from_str("Walking_A"),
            attack: String::from_str("1H_Melee_Attack_Slice_Diagonal"),
            hit: String::from_str("Hit_A"),
            death: String::from_str("Death_A"),
        },
    }
}

/// A new magic definition as the editor adds it: a cheap healing spell.
pub fn new_magic(id: String) -> (d: MagicDef)
    ensures
        d.id == id,
        d.name@ == "あたらしい魔法"@ && d.description@.len() == 0,
        d.mp_cost == 5 && d.difficulty == 5 && d.kind == MagicKind::HpChange && d.value == 10,
        d.duration_cycles == 0 && !d.liquefiable && d.projectiles == 0,
        d.symbol@ == "◇"@,
{
    MagicDef {
        id,
        name: String::from_str("あたらしい魔法"),
        description: String::new(),
        mp_cost: 5,
        difficulty: 5,
        kind: MagicKind::HpChange,
        value: 10,
        duration_cycles: 0,
        liquefiable: false,
        projectiles: 0,
        symbol: String::from_str("◇"),
    }
}

/// A new event as the editor adds it: a push switch at the origin with no
/// delay, no flag conditions and no actions.
pub fn new_event(id: String) -> (e: EventDef)
    ensures
        e.id == id,
        e.trigger == TriggerKind::SwitchPush,
        e.at == (0i32, 0i32, 0usize),
        e.delay_cycles == 0,
        e.flags@.len() == 0 && e.join == FlagJoin::And && e.actions@.len() == 0,
{
    EventDef {
        id,
        trigger: TriggerKind::SwitchPush,
        at: (0, 0, 0),
        delay_cycles: 0,
        flags: Vec::new(),
        join: FlagJoin::And,
        actions: Vec::new(),
    }
}

/// A new character as the editor adds it: a level-1 knight of average growth
/// with modest stats and nothing carried or known.
pub fn new_character(id: String) -> (c: Character)
    ensures
        c.id == id,
        c.first_name@ == "なまえ"@ && c.last_name@.len() == 0 && c.gender@.len() == 0,
        c.birth_date@ == "1000-01-01"@ && c.age == 20,
        c.likes@.len() == 0 && c.dislikes@.len() == 0 && c.background@.len() == 0,
        c.growth == GrowthType::Average,
        c.stats == (Stats {
            level: 1,
            max_hp: 30,
            max_mp: 10,
            attack: 5,
            defense: 5,
            agility: 5,
            throwing: 5,
            carrying: 10,
            lung_capacity: 5,
            heat_resist: 5,
            poison_resist: 5,
            magic_knowledge: 5,
            concentration: 20,
            appraisal: 5,
            stealing: 5,
            bite: 5,
        }),
        c.model@ == "models/party/knight.glb"@ && c.portrait@.len() == 0,
        c.items@.len() == 0 && c.magics@.len() == 0,
{
    Character {
        id,
        first_name: String::from_str("なまえ"),
        last_name: String::new(),
        gender: String::new(),
        birth_date: String::from_str("1000-01-01"),
        age: 20,
        likes: String::new(),
        dislikes: String::new(),
        background: String::new(),
        growth: GrowthType::Average,
        stats: Stats {
            level: 1,
            max_hp: 30,
            max_mp: 10,
            attack: 5,
            defense: 5,
            agility: 5,
            throwing: 5,
            carrying: 10,
            lung_capacity: 5,
            heat_resist: 5,
            poison_resist: 5,
            magic_knowledge: 5,
            concentration: 20,
            appraisal: 5,
            stealing: 5,
            bite: 5,
        },
        model: String::from_str("models/party/knight.glb"),
        portrait: String::new(),
        items: Vec::new(),
        magics: Vec::new(),
    }
}

/// The label of a magic kind.
pub open spec fn spec_magic_kind_label(k: MagicKind) -> Seq<char> {
    match k {
        MagicKind::HpChange => "HP変化"@,
        MagicKind::MpChange => "MP変化"@,
        MagicKind::StatChange(_) => "能力値変化"@,
        MagicKind::Revive { .. } => "復活"@,
        MagicKind::Light { .. } => "照明"@,
    }
}

/// The label of a magic kind (see [`spec_magic_kind_label`]).
pub fn magic_kind_label(k: &MagicKind) -> (r: String)
    ensures
        r@ == spec_magic_kind_label(*k),
{
    match k {
        MagicKind::HpChange => String::from_str("HP変化"),
        MagicKind::MpChange => String::from_str("MP変化"),
        MagicKind::StatChange(_) => String::from_str("能力値変化"),
        MagicKind::Revive { .. } => String::from_str("復活"),
        MagicKind::Light { .. } => String::from_str("照明"),
    }
}

/// The magic kinds the editor offers, each with its starting parameter.
pub fn magic_kind_options() -> (r: Vec<MagicKind>)
    ensures
        r@ == seq![
            MagicKind::HpChange,
            MagicKind::MpChange,
            MagicKind::StatChange(StatKind::Defense),
            MagicKind::Revive { ratio_percent: 50 },
            MagicKind::Light { strength: 2 },
        ],
{
    let r = vec![
        MagicKind::HpChange,
        MagicKind::MpChange,
        MagicKind::StatChange(StatKind::Defense),
        MagicKind::Revive { ratio_percent: 50 },
        MagicKind::Light { strength: 2 },
    ];
    r
}

/// The trigger kinds the editor offers, in menu order, each with empty or
/// starting parameters.
pub fn trigger_options() -> (r: Vec<TriggerKind>)
    ensures
        r@.len() == 7,
        r@[0] == TriggerKind::SwitchPush,
        r@[1] == TriggerKind::SwitchToggle,
        r@[2] == TriggerKind::SwitchOneWay,
        r@[3] matches TriggerKind::Keyhole { key_item } && key_item@.len() == 0,
        r@[4] == (TriggerKind::FloorPlate { cond: PlateCond::Step }),
        r@[5] == (TriggerKind::WarpPoint { hidden: false }),
        r@[6] == TriggerKind::Unprompted,
{
    let mut r: Vec<TriggerKind> = Vec::new();
    r.push(TriggerKind::SwitchPush);
    r.push(TriggerKind::SwitchToggle);
    r.push(TriggerKind::SwitchOneWay);
    r.push(TriggerKind::Keyhole { key_item: String::new() });
    r.push(TriggerKind::FloorPlate { cond: PlateCond::Step });
    r.push(TriggerKind::WarpPoint { hidden: false });
    r.push(TriggerKind::Unprompted);
    r
}

/// The event actions the editor offers, in menu order, each with zero or
/// empty parameters (doors and flags start "on", a placed block is a wall,
/// a liquid change sets water, a warp faces north).
pub fn action_options() -> (r: Vec<EventAction>)
    ensures
        r@.len() == 13,
        r@[0] == (EventAction::SetFlag { flag: 0, on: true }),
        r@[1] == (EventAction::SetDoor { kind: 0, open: true }),
        r@[2] matches EventAction::SpawnItem { item, x, y, floor } && item@.len() == 0 && x == 0 && y == 0
            && floor == 0,
        r@[3] matches EventAction::SpawnMonster { monster, x, y, floor } && monster@.len() == 0 && x == 0 && y
            == 0 && floor == 0,
        r@[4] == (EventAction::Warp { level: 0, x: 0, y: 0, floor: 0, facing: Facing::North }),
        r@[5] == (EventAction::SetBlock { x: 0, y: 0, floor: 0, block: Block::Wall }),
        r@[6] == (EventAction::SetLiquid { x: 0, y: 0, floor: 0, kind: Some(LiquidKind::Water) }),
        r@[7] == EventAction::ReviveParty,
        r@[8] == (EventAction::SetMoveMode { mode: MoveMode::Normal }),
        r@[9] matches EventAction::ChangeBgm { bgm } && bgm@.len() == 0,
        r@[10] matches EventAction::StartDemo { demo } && demo@.len() == 0,
        r@[11] == EventAction::EndChain,
        r@[12] == EventAction::Loop,
{
    let mut r: Vec<EventAction> = Vec::new();
    r.push(EventAction::SetFlag { flag: 0, on: true });
    r.push(EventAction::SetDoor { kind: 0, open: true });
    r.push(EventAction::SpawnItem { item: String::new(), x: 0, y: 0, floor: 0 });
    r.push(EventAction::SpawnMonster { monster: String::new(), x: 0, y: 0, floor: 0 });
    r.push(EventAction::Warp { level: 0, x: 0, y: 0, floor: 0, facing: Facing::North });
    r.push(EventAction::SetBlock { x: 0, y: 0, floor: 0, block: Block::Wall });
    r.push(EventAction::SetLiquid { x: 0, y: 0, floor: 0, kind: Some(LiquidKind::Water) });
    r.push(EventAction::ReviveParty);
    r.push(EventAction::SetMoveMode { mode: MoveMode::Normal });
    r.push(EventAction::ChangeBgm { bgm: String::new() });
    r.push(EventAction::StartDemo { demo: String::new() });
    r.push(EventAction::EndChain);
    r.push(EventAction::Loop);
    r
}

} // verus!
