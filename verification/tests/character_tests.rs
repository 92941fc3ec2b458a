use deepgrid_studio::character::{Character, CharacterState, GrowthType, PartyMember, Stats};
use deepgrid_studio::item::{Inventory, ItemCatalog, ItemDef, ItemKind};
use deepgrid_studio::rules::HungerRules;

fn stats(v: i32) -> Stats {
    Stats {
        level: 1,
        max_hp: v,
        max_mp: v,
        attack: v,
        defense: v,
        agility: v,
        throwing: v,
        carrying: v,
        lung_capacity: v,
        heat_resist: v,
        poison_resist: v,
        magic_knowledge: v,
        concentration: v,
        appraisal: v,
        stealing: v,
        bite: v,
    }
}

fn character(growth: GrowthType, st: Stats, birth: &str, model: &str) -> Character {
    Character {
        id: "t".to_string(),
        first_name: "テスト".to_string(),
        last_name: String::new(),
        gender: String::new(),
        birth_date: birth.to_string(),
        age: 20,
        likes: String::new(),
        dislikes: String::new(),
        background: String::new(),
        growth,
        stats: st,
        model: model.to_string(),
        portrait: String::new(),
        items: vec![],
        magics: vec![],
    }
}

fn member(growth: GrowthType, level: u32) -> PartyMember {
    let ch = character(growth, Stats { level, max_hp: 100, attack: 10, ..stats(5) }, "0-1-1", "");
    let state = CharacterState::full(&ch);
    PartyMember { character: ch, state, inventory: Inventory::new(3, 3) }
}

fn bread() -> ItemDef {
    ItemDef {
        id: "b".to_string(),
        name: "パン".to_string(),
        kind: ItemKind::General,
        sharpness: 0,
        hardness: 0,
        weight: 0,
        temperature: 0,
        nutrition: 20,
        entropy_max: 0,
        anti_magic: 0,
        anti_appraisal: 0,
        anti_impact: 0,
        important: false,
        throwability: 0,
        grip: 0,
        capacity: 0,
        equip_slots: vec![],
        effects: vec![],
        model: String::new(),
        teaches: None,
    }
}

#[test]
fn overall_level_is_mean_of_abilities() {
    // All 15 ability fields equal 20 → mean is 20.
    assert_eq!(stats(20).overall_level(), 20);
}

#[test]
fn level_up_grows_stats_by_growth_type() {
    // Average at level 1: threshold 100, multiplier 1.0 → +4 HP, +1 to each.
    let mut m = member(GrowthType::Average, 1);
    let msgs = m.gain_exp(100);
    assert_eq!(msgs.len(), 1);
    assert_eq!(m.character.stats.level, 2);
    assert_eq!(m.character.stats.max_hp, 104);
    assert_eq!(m.character.stats.attack, 11);
    assert_eq!(m.state.exp, 0);

    // Talentless at level 1: multiplier 0.2 → floor(4*0.2)=0 HP, floor(0.2)=0.
    let mut t = member(GrowthType::Talentless, 1);
    t.gain_exp(100);
    assert_eq!(t.character.stats.level, 2);
    assert_eq!(t.character.stats.max_hp, 100); // no growth
    assert_eq!(t.character.stats.attack, 10);
}

#[test]
fn eat_feeds_satiety_only_when_enabled() {
    let cat = ItemCatalog::default();
    let bread = bread();

    // Enabled: satiety += nutrition × factor, clamped to max.
    let mut m = member(GrowthType::Average, 1);
    m.state.satiety = 100;
    let on = HungerRules { enabled: true, satiety_per_nutrition: 10, satiety_max: 1000, ..HungerRules::default() };
    m.eat(&bread, &cat, &on).unwrap();
    assert_eq!(m.state.satiety, 300);

    // Disabled: satiety untouched (the HP rule is unaffected either way).
    let mut m2 = member(GrowthType::Average, 1);
    m2.state.satiety = 100;
    m2.eat(&bread, &cat, &HungerRules::default()).unwrap();
    assert_eq!(m2.state.satiety, 100);
}

#[test]
fn growth_multiplier_tenths_swing_at_20() {
    assert_eq!(GrowthType::EarlyBloomer.multiplier_tenths(10), 15);
    assert_eq!(GrowthType::EarlyBloomer.multiplier_tenths(25), 5);
    assert_eq!(GrowthType::LateBloomer.multiplier_tenths(10), 5);
    assert_eq!(GrowthType::LateBloomer.multiplier_tenths(25), 15);
    assert_eq!(GrowthType::Average.multiplier_tenths(25), 10);
    assert_eq!(GrowthType::Talentless.multiplier_tenths(1), 2);
}

#[test]
fn full_state_starts_at_maxima() {
    let ch = character(
        GrowthType::Average,
        Stats { max_hp: 100, max_mp: 30, concentration: 40, ..stats(1) },
        "0000-01-01",
        "models/party/knight.glb",
    );
    let st = CharacterState::full(&ch);
    assert_eq!((st.hp, st.mp, st.concentration, st.down), (100, 30, 40, false));
}

#[test]
fn eating_heals_by_nutrition() {
    let cat = ItemCatalog::default();
    let mut m = member(GrowthType::Average, 1);
    m.state.hp = 50;
    m.eat(&bread(), &cat, &HungerRules::default()).unwrap();
    assert_eq!(m.state.hp, 70);
}

#[test]
fn growth_multiplier_swings_at_20() {
    let m = |g: GrowthType, level: u32| g.multiplier_tenths(level) as f32 / 10.0;
    assert_eq!(m(GrowthType::EarlyBloomer, 10), 1.5);
    assert_eq!(m(GrowthType::EarlyBloomer, 25), 0.5);
    assert_eq!(m(GrowthType::LateBloomer, 10), 0.5);
    assert_eq!(m(GrowthType::LateBloomer, 25), 1.5);
}
