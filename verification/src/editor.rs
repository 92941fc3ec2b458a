//! The editor's content rules: display names of the data enums, id
//! auto-numbering, trigger blocks without events, and the first-person
//! walker of the 3D edit mode (only walls block it; no falling).
use vstd::prelude::*;
use crate::character::GrowthType;
use crate::dungeon::{Block, Facing, Floor, GridPos, Level};
use crate::event::{FlagJoin, MoveMode, PlateCond};
use crate::monster::MoveType;
use crate::project::LevelData;
use crate::text::{cat, cat3, decimal, zero_padded, padded_text, signed_decimal, i64_text};
use crate::ids::texts;

verus! {

/// Palette names of the map blocks.
pub fn block_label(block: Block) -> (r: &'static str)
    ensures
        r@ == spec_block_label(block),
{
    match block {
        Block::Wall => "壁",
        Block::Empty => "空間",
        Block::Water => "水",
        Block::Fire => "火",
        Block::Poison => "毒",
        Block::Ladder => "はしご",
        Block::Door { kind } => if kind == 0 {
            "ドア1"
        } else {
            "ドア2"
        },
        Block::Horoscope { pass_from } => match pass_from {
            Facing::West => "ホロ(西から)",
            Facing::East => "ホロ(東から)",
            Facing::North => "ホロ(北から)",
            Facing::South => "ホロ(南から)",
        },
        Block::Hole => "穴",
        Block::Stairs { up } => if up {
            "上り階段"
        } else {
            "下り階段"
        },
        Block::WritableWall => "書ける壁",
        Block::HoroscopeVert { from_below } => if from_below {
            "縦ホロ(上り)"
        } else {
            "縦ホロ(下り)"
        },
        Block::Keyhole => "鍵穴",
        Block::Switch => "スイッチ",
        Block::FloorPlate => "しかけ床",
        Block::WarpPoint => "ワープ",
    }
}

pub open spec fn spec_block_label(block: Block) -> Seq<char> {
    match block {
        Block::Wall => "壁"@,
        Block::Empty => "空間"@,
        Block::Water => "水"@,
        Block::Fire => "火"@,
        Block::Poison => "毒"@,
        Block::Ladder => "はしご"@,
        Block::Door { kind } => if kind == 0 {
            "ドア1"@
        } else {
            "ドア2"@
        },
        Block::Horoscope { pass_from } => match pass_from {
            Facing::West => "ホロ(西から)"@,
            Facing::East => "ホロ(東から)"@,
            Facing::North => "ホロ(北から)"@,
            Facing::South => "ホロ(南から)"@,
        },
        Block::Hole => "穴"@,
        Block::Stairs { up } => if up {
            "上り階段"@
        } else {
            "下り階段"@
        },
        Block::WritableWall => "書ける壁"@,
        Block::HoroscopeVert { from_below } => if from_below {
            "縦ホロ(上り)"@
        } else {
            "縦ホロ(下り)"@
        },
        Block::Keyhole => "鍵穴"@,
        Block::Switch => "スイッチ"@,
        Block::FloorPlate => "しかけ床"@,
        Block::WarpPoint => "ワープ"@,
    }
}

/// The blocks the map palette offers, in order.
pub open spec fn palette_blocks() -> Seq<Block> {
    seq![
        Block::Wall,
        Block::Empty,
        Block::Water,
        Block::Fire,
        Block::Poison,
        Block::Ladder,
        Block::Door { kind: 0 },
        Block::Door { kind: 1 },
        Block::Horoscope { pass_from: Facing::West },
        Block::Horoscope { pass_from: Facing::East },
        Block::Horoscope { pass_from: Facing::North },
        Block::Horoscope { pass_from: Facing::South },
        Block::Hole,
        Block::Stairs { up: true },
        Block::Stairs { up: false },
        Block::WritableWall,
        Block::HoroscopeVert { from_below: true },
        Block::HoroscopeVert { from_below: false },
        Block::Keyhole,
        Block::Switch,
        Block::FloorPlate,
        Block::WarpPoint,
    ]
}

/// The blocks the map palette offers, in order (see [`palette_blocks`]).
pub fn palette() -> (r: Vec<Block>)
    ensures
        r@ == palette_blocks(),
{
    let r = vec![
        Block::Wall,
        Block::Empty,
        Block::Water,
        Block::Fire,
        Block::Poison,
        Block::Ladder,
        Block::Door { kind: 0 },
        Block::Door { kind: 1 },
        Block::Horoscope { pass_from: Facing::West },
        Block::Horoscope { pass_from: Facing::East },
        Block::Horoscope { pass_from: Facing::North },
        Block::Horoscope { pass_from: Facing::South },
        Block::Hole,
        Block::Stairs { up: true },
        Block::Stairs { up: false },
        Block::WritableWall,
        Block::HoroscopeVert { from_below: true },
        Block::HoroscopeVert { from_below: false },
        Block::Keyhole,
        Block::Switch,
        Block::FloorPlate,
        Block::WarpPoint,
    ];
    assert(r@ =~= palette_blocks());
    r
}

/// Every palette entry has a name of its own, and every door kind from 1 up
/// is named "ドア2".
pub proof fn lemma_palette_labels_distinct()
    ensures
        forall|i: int, j: int|
            0 <= i < j < palette_blocks().len() ==> spec_block_label(#[trigger] palette_blocks()[i])
                != spec_block_label(#[trigger] palette_blocks()[j]),
        forall|k: u8| k >= 1 ==> #[trigger] spec_block_label(Block::Door { kind: k }) == "ドア2"@,
{
    reveal_strlit("壁");
    reveal_strlit("空間");
    reveal_strlit("水");
    reveal_strlit("火");
    reveal_strlit("毒");
    reveal_strlit("はしご");
    reveal_strlit("ドア1");
    reveal_strlit("ドア2");
    reveal_strlit("ホロ(西から)");
    reveal_strlit("ホロ(東から)");
    reveal_strlit("ホロ(北から)");
    reveal_strlit("ホロ(南から)");
    reveal_strlit("穴");
    reveal_strlit("上り階段");
    reveal_strlit("下り階段");
    reveal_strlit("書ける壁");
    reveal_strlit("縦ホロ(上り)");
    reveal_strlit("縦ホロ(下り)");
    reveal_strlit("鍵穴");
    reveal_strlit("スイッチ");
    reveal_strlit("しかけ床");
    reveal_strlit("ワープ");
    let p = palette_blocks();
    assert forall|i: int, j: int| 0 <= i < j < p.len() implies spec_block_label(#[trigger] p[i])
        != spec_block_label(#[trigger] p[j]) by {
        let a = spec_block_label(p[i]);
        let b = spec_block_label(p[j]);
        if a.len() == b.len() {
            assert(a[0] != b[0] || a[1] != b[1] || a[2] != b[2] || a[3] != b[3] || a[4] != b[4]);
        }
    }
}

/// Growth type names.
pub fn growth_label(g: GrowthType) -> (r: &'static str)
    ensures
        r@ == match g {
            GrowthType::Average => "平均型"@,
            GrowthType::EarlyBloomer => "早期開花型"@,
            GrowthType::LateBloomer => "大器晩成型"@,
            GrowthType::Genius => "天才型"@,
            GrowthType::Talentless => "才能なし"@,
        },
{
    match g {
        GrowthType::Average => "平均型",
        GrowthType::EarlyBloomer => "早期開花型",
        GrowthType::LateBloomer => "大器晩成型",
        GrowthType::Genius => "天才型",
        GrowthType::Talentless => "才能なし",
    }
}

pub fn move_type_label(mt: MoveType) -> (r: &'static str)
    ensures
        r@ == match mt {
            MoveType::Ground => "地上"@,
            MoveType::Air => "空中"@,
            MoveType::Immobile => "移動しない"@,
        },
{
    match mt {
        MoveType::Ground => "地上",
        MoveType::Air => "空中",
        MoveType::Immobile => "移動しない",
    }
}

pub fn flag_join_label(j: FlagJoin) -> (r: &'static str)
    ensures
        r@ == match j {
            FlagJoin::And => "すべて(AND)"@,
            FlagJoin::Or => "いずれか(OR)"@,
        },
{
    match j {
        FlagJoin::And => "すべて(AND)",
        FlagJoin::Or => "いずれか(OR)",
    }
}

pub fn plate_cond_label(c: &PlateCond) -> (r: &'static str)
    ensures
        r@ == match c {
            PlateCond::Step => "踏む"@,
            PlateCond::Weight { .. } => "重量"@,
            PlateCond::ItemPlaced { .. } => "アイテム設置"@,
        },
{
    match c {
        PlateCond::Step => "踏む",
        PlateCond::Weight { .. } => "重量",
        PlateCond::ItemPlaced { .. } => "アイテム設置",
    }
}

pub fn move_mode_label(m: MoveMode) -> (r: &'static str)
    ensures
        r@ == match m {
            MoveMode::Normal => "通常"@,
            MoveMode::Free => "自由移動"@,
            MoveMode::Locked => "移動禁止"@,
        },
{
    match m {
        MoveMode::Normal => "通常",
        MoveMode::Free => "自由移動",
        MoveMode::Locked => "移動禁止",
    }
}

/// A referenceable content kind.
#[derive(Clone, Copy, PartialEq, Eq, Debug, Structural)]
pub enum IdKind {
    Character,
    Item,
    Monster,
    Magic,
}

impl IdKind {
    pub open spec fn spec_prefix(self) -> Seq<char> {
        match self {
            IdKind::Character => "char"@,
            IdKind::Item => "item"@,
            IdKind::Monster => "mon"@,
            IdKind::Magic => "magic"@,
        }
    }

    /// The prefix of auto-numbered ids of this kind.
    pub fn prefix(self) -> (r: &'static str)
        ensures
            r@ == self.spec_prefix(),
    {
        match self {
            IdKind::Character => "char",
            IdKind::Item => "item",
            IdKind::Monster => "mon",
            IdKind::Magic => "magic",
        }
    }

    pub fn label(self) -> (r: &'static str)
        ensures
            r@ == match self {
                IdKind::Character => "キャラ"@,
                IdKind::Item => "アイテム"@,
                IdKind::Monster => "モンスター"@,
                IdKind::Magic => "魔法"@,
            },
    {
        match self {
            IdKind::Character => "キャラ",
            IdKind::Item => "アイテム",
            IdKind::Monster => "モンスター",
            IdKind::Magic => "魔法",
        }
    }
}

/// The auto-numbered id `n` for `prefix`: `prefix_` and `n` with at least
/// three digits.
pub open spec fn numbered_id(prefix: Seq<char>, n: nat) -> Seq<char> {
    prefix + seq!['_'] + zero_padded(n, 3)
}


proof fn lemma_digit_char(x: int, y: int)
    requires
        0 <= x <= 9,
        0 <= y <= 9,
        crate::text::digit_char(x) == crate::text::digit_char(y),
    ensures
        x == y,
{
}

/// Decimal text is never empty, and has no leading zero above 0.
pub proof fn lemma_decimal_shape(n: nat)
    ensures
        decimal(n).len() >= 1,
        n >= 10 ==> decimal(n).len() >= 2,
        n >= 1 ==> decimal(n)[0] != '0',
    decreases n,
{
    if n >= 10 {
        lemma_decimal_shape(n / 10);
        assert(decimal(n)[0] == decimal(n / 10)[0]);
    }
}

/// Different numbers have different decimal texts.
pub proof fn lemma_decimal_injective(a: nat, b: nat)
    requires
        decimal(a) == decimal(b),
    ensures
        a == b,
    decreases a,
{
    lemma_decimal_shape(a);
    lemma_decimal_shape(b);
    if a < 10 && b < 10 {
        assert(decimal(a)[0] == decimal(b)[0]);
        lemma_digit_char(a as int, b as int);
    } else if a >= 10 && b >= 10 {
        assert(decimal(a).drop_last() =~= decimal(a / 10));
        assert(decimal(b).drop_last() =~= decimal(b / 10));
        assert(decimal(a).last() == decimal(b).last());
        assert(decimal(a).last() == crate::text::digit_char((a % 10) as int));
        assert(decimal(b).last() == crate::text::digit_char((b % 10) as int));
        lemma_digit_char((a % 10) as int, (b % 10) as int);
        lemma_decimal_injective(a / 10, b / 10);
    }
}

/// Different positive numbers have different padded texts.
pub proof fn lemma_zero_padded_injective(a: nat, b: nat, w: nat)
    requires
        a >= 1,
        b >= 1,
        zero_padded(a, w) == zero_padded(b, w),
    ensures
        a == b,
{
    lemma_decimal_shape(a);
    lemma_decimal_shape(b);
    let da = decimal(a);
    let db = decimal(b);
    let pa: int = if da.len() >= w { 0 } else { w - da.len() };
    let pb: int = if db.len() >= w { 0 } else { w - db.len() };
    let za = zero_padded(a, w);
    assert(za =~= Seq::new(pa as nat, |i: int| '0') + da);
    assert(zero_padded(b, w) =~= Seq::new(pb as nat, |i: int| '0') + db);
    if pa < pb {
        assert(za[pa] == da[0]);
        assert(zero_padded(b, w)[pa] == '0');
    } else if pb < pa {
        assert(zero_padded(b, w)[pb] == db[0]);
        assert(za[pb] == '0');
    } else {
        assert(da =~= za.subrange(pa, za.len() as int));
        assert(db =~= zero_padded(b, w).subrange(pb, za.len() as int));
        lemma_decimal_injective(a, b);
    }
}

/// Different numbers give different auto-numbered ids.
pub proof fn lemma_numbered_injective(prefix: Seq<char>, a: nat, b: nat)
    requires
        a >= 1,
        b >= 1,
        numbered_id(prefix, a) == numbered_id(prefix, b),
    ensures
        a == b,
{
    let k = prefix.len() + 1;
    assert(zero_padded(a, 3) =~= numbered_id(prefix, a).subrange(k as int, numbered_id(prefix, a).len() as int));
    assert(zero_padded(b, 3) =~= numbered_id(prefix, b).subrange(k as int, numbered_id(prefix, b).len() as int));
    lemma_zero_padded_injective(a, b, 3);
}

/// The ids numbered 1 to `n` can only all be taken when at least `n` ids exist.
proof fn lemma_all_numbers_taken(ex: Seq<Seq<char>>, prefix: Seq<char>, n: nat)
    requires
        forall|m: nat| 1 <= m <= n ==> ex.contains(#[trigger] numbered_id(prefix, m)),
    ensures
        n <= ex.len(),
{
    broadcast use vstd::seq_lib::seq_to_set_is_finite;
    let c = Seq::new(n, |i: int| numbered_id(prefix, (i + 1) as nat));
    assert forall|i: int, j: int| 0 <= i < c.len() && 0 <= j < c.len() && i != j implies c[i] != c[j] by {
        if c[i] == c[j] {
            lemma_numbered_injective(prefix, (i + 1) as nat, (j + 1) as nat);
        }
    }
    assert(c.no_duplicates());
    c.unique_seq_to_set();
    assert forall|x: Seq<char>| c.to_set().contains(x) implies ex.to_set().contains(x) by {
        let i = choose|i: int| 0 <= i < c.len() && c[i] == x;
        assert(ex.contains(numbered_id(prefix, (i + 1) as nat)));
    }
    ex.lemma_cardinality_of_set();
    vstd::set_lib::lemma_len_subset(c.to_set(), ex.to_set());
}

/// The next auto-numbered id for `prefix`: the lowest number from 1 whose id
/// is not among `existing`.
pub fn next_id(existing: &Vec<String>, prefix: &str) -> (r: String)
    requires
        existing@.len() < u64::MAX - 2,
    ensures
        exists|n: nat|
            #![trigger numbered_id(prefix@, n)]
            n >= 1 && r@ == numbered_id(prefix@, n) && !texts(existing@).contains(numbered_id(prefix@, n))
                && forall|m: nat| 1 <= m < n ==> texts(existing@).contains(#[trigger] numbered_id(prefix@, m)),
{
    let ghost ex = texts(existing@);
    let mut n: u64 = 1;
    while n <= existing.len() as u64 + 1
        invariant
            1 <= n <= existing@.len() + 2,
            existing@.len() < u64::MAX - 2,
            ex == texts(existing@),
            forall|m: nat| 1 <= m < n ==> ex.contains(#[trigger] numbered_id(prefix@, m)),
        decreases existing@.len() + 2 - n,
    {
        let num = padded_text(n, 3);
        let head = cat(prefix, "_");
        proof {
            reveal_strlit("_");
        }
        let candidate = cat(head.as_str(), num.as_str());
        assert(candidate@ == numbered_id(prefix@, n as nat));
        match crate::ids::position_of(existing, &candidate) {
            None => {
                proof {
                    crate::item::lemma_first_index_of(ex, candidate@);
                }
                return candidate;
            },
            Some(k) => {
                proof {
                    crate::item::lemma_first_index_of(ex, candidate@);
                    assert(ex[k as int] == candidate@);
                }
            },
        }
        n = n + 1;
    }
    proof {
        lemma_all_numbers_taken(ex, prefix@, (existing@.len() + 1) as nat);
    }
    let head = cat(prefix, "_");
    head
}

/// Blocks that fire events.
pub open spec fn is_trigger_block(b: Block) -> bool {
    b == Block::Keyhole || b == Block::Switch || b == Block::FloorPlate || b == Block::WarpPoint
}

/// Some event sits at `(x, y, f)`.
pub open spec fn event_at(lvl: LevelData, x: int, y: int, f: int) -> bool {
    exists|i: int| 0 <= i < lvl.events@.len() && #[trigger] lvl.events@[i].at == (x as i32, y as i32, f as usize)
}

/// The warning for a trigger block at `(x, y, f)` without an event.
pub open spec fn mismatch_message(x: int, y: int, f: int) -> Seq<char> {
    "トリガーブロック ("@ + signed_decimal(x) + ","@ + signed_decimal(y) + ",f"@ + signed_decimal(f)
        + ") にイベント未設定"@
}

/// Whether cell `(x, y)` of floor `f` is a trigger block without an event.
pub open spec fn unmatched_trigger(lvl: LevelData, x: int, y: int, f: int) -> bool {
    (lvl.level.spec_cell(x, y, f) matches Some(b) && is_trigger_block(b)) && !event_at(lvl, x, y, f)
}

/// The warnings of the first `n` cells of row `y` of floor `f`.
pub open spec fn row_mismatches(lvl: LevelData, f: int, y: int, n: int) -> Seq<Seq<char>>
    decreases n,
{
    if n <= 0 {
        Seq::empty()
    } else {
        row_mismatches(lvl, f, y, n - 1) + if unmatched_trigger(lvl, n - 1, y, f) {
            seq![mismatch_message(n - 1, y, f)]
        } else {
            Seq::empty()
        }
    }
}

/// The warnings of the first `n` rows of floor `f`.
pub open spec fn floor_mismatches(lvl: LevelData, f: int, n: int) -> Seq<Seq<char>>
    decreases n,
{
    if n <= 0 {
        Seq::empty()
    } else {
        floor_mismatches(lvl, f, n - 1) + row_mismatches(lvl, f, n - 1, lvl.level.floors@[f].width as int)
    }
}

/// The warnings of the first `n` floors.
pub open spec fn level_mismatches(lvl: LevelData, n: int) -> Seq<Seq<char>>
    decreases n,
{
    if n <= 0 {
        Seq::empty()
    } else {
        level_mismatches(lvl, n - 1) + floor_mismatches(lvl, n - 1, lvl.level.floors@[n - 1].height as int)
    }
}

fn has_event_at(lvl: &LevelData, x: i32, y: i32, f: usize) -> (r: bool)
    ensures
        r == event_at(*lvl, x as int, y as int, f as int),
{
    let mut i: usize = 0;
    while i < lvl.events.len()
        invariant
            i <= lvl.events@.len(),
            forall|k: int| 0 <= k < i ==> (#[trigger] lvl.events@[k]).at != (x, y, f),
        decreases lvl.events@.len() - i,
    {
        let at = lvl.events[i].at;
        if at.0 == x && at.1 == y && at.2 == f {
            return true;
        }
        i = i + 1;
    }
    false
}

/// Warnings for trigger blocks (keyhole, switch, floor plate, warp point)
/// whose cell has no event, floor by floor, row by row.
pub fn trigger_event_mismatches(lvl: &LevelData) -> (r: Vec<String>)
    requires
        forall|f: int| 0 <= f < lvl.level.floors@.len() ==> (#[trigger] lvl.level.floors@[f]).width <= i32::MAX
            && lvl.level.floors@[f].height <= i32::MAX,
    ensures
        r@.map_values(|s: String| s@) == level_mismatches(*lvl, lvl.level.floors@.len() as int),
{
    let mut out: Vec<String> = Vec::new();
    let nf = lvl.level.floor_count();
    let mut f: usize = 0;
    while f < nf
        invariant
            nf == lvl.level.floors@.len(),
            f <= nf,
            forall|g: int| 0 <= g < lvl.level.floors@.len() ==> (#[trigger] lvl.level.floors@[g]).width <= i32::MAX
                && lvl.level.floors@[g].height <= i32::MAX,
            out@.map_values(|s: String| s@) == level_mismatches(*lvl, f as int),
        decreases nf - f,
    {
        let floor = &lvl.level.floors[f];
        let ghost base = out@.map_values(|s: String| s@);
        let mut y: usize = 0;
        while y < floor.height
            invariant
                f < nf == lvl.level.floors@.len(),
                *floor == lvl.level.floors@[f as int],
                floor.width <= i32::MAX && floor.height <= i32::MAX,
                y <= floor.height,
                base == level_mismatches(*lvl, f as int),
                out@.map_values(|s: String| s@) == base + floor_mismatches(*lvl, f as int, y as int),
            decreases floor.height - y,
        {
            let ghost rbase = out@.map_values(|s: String| s@);
            let mut x: usize = 0;
            while x < floor.width
                invariant
                    f < nf == lvl.level.floors@.len(),
                    *floor == lvl.level.floors@[f as int],
                    floor.width <= i32::MAX && floor.height <= i32::MAX,
                    y < floor.height,
                    x <= floor.width,
                    out@.map_values(|s: String| s@) == rbase + row_mismatches(*lvl, f as int, y as int, x as int),
                decreases floor.width - x,
            {
                let xi = x as i32;
                let yi = y as i32;
                let is_trigger = match floor.get(xi, yi) {
                    Some(b) => match b {
                        Block::Keyhole | Block::Switch | Block::FloorPlate | Block::WarpPoint => true,
                        _ => false,
                    },
                    None => false,
                };
                let ghost before = out@;
                if is_trigger && !has_event_at(lvl, xi, yi, f) {
                    let h = cat3("トリガーブロック (", i64_text(xi as i64).as_str(), ",");
                    let h2 = cat3(h.as_str(), i64_text(yi as i64).as_str(), ",f");
                    let h3 = cat3(h2.as_str(), crate::text::u64_text(f as u64).as_str(), ") にイベント未設定");
                    assert(h3@ == mismatch_message(x as int, y as int, f as int));
                    out.push(h3);
                    assert(out@.map_values(|s: String| s@) =~= before.map_values(|s: String| s@).push(
                        mismatch_message(x as int, y as int, f as int),
                    ));
                } else {
                    assert(out@.map_values(|s: String| s@) =~= before.map_values(|s: String| s@));
                }
                assert(out@.map_values(|s: String| s@) =~= rbase + row_mismatches(
                    *lvl,
                    f as int,
                    y as int,
                    x as int + 1,
                ));
                x = x + 1;
            }
            assert(out@.map_values(|s: String| s@) =~= base + floor_mismatches(*lvl, f as int, y as int + 1));
            y = y + 1;
        }
        assert(out@.map_values(|s: String| s@) =~= level_mismatches(*lvl, f as int + 1));
        f = f + 1;
    }
    out
}

/// One grid intent of the edit-mode walker.
#[derive(Clone, Copy, PartialEq, Eq, Debug, Structural)]
pub enum WalkAction {
    Forward,
    Backward,
    StrafeLeft,
    StrafeRight,
    TurnLeft,
    TurnRight,
}

/// The edit-mode walker: a tile and a heading; edits target the tile ahead.
#[derive(Clone, Copy, PartialEq, Eq, Debug, Structural)]
pub struct EditWalk {
    pub pos: GridPos,
    pub facing: Facing,
}

/// The walker may stand on a cell that exists and is not a wall.
pub open spec fn spec_passable(level: Level, pos: GridPos) -> bool {
    match level.spec_block_at(pos) {
        Some(b) => b != Block::Wall,
        None => false,
    }
}

/// The heading a move produces from `facing` (`None` for turns).
pub open spec fn walk_dir(action: WalkAction, facing: Facing) -> Option<Facing> {
    match action {
        WalkAction::Forward => Some(facing),
        WalkAction::Backward => Some(facing.spec_opposite()),
        WalkAction::StrafeLeft => Some(facing.spec_turn_left()),
        WalkAction::StrafeRight => Some(facing.spec_turn_right()),
        WalkAction::TurnLeft | WalkAction::TurnRight => None,
    }
}

/// The floor a climb aims at: one up (capped at the top floor) or one down
/// (not below 0).
pub open spec fn climb_target(floor: usize, up: bool, floors: nat) -> int {
    let top: int = if floors == 0 { 0 } else { floors - 1 };
    if up {
        if floor + 1 < top { floor + 1 } else { top }
    } else if floor == 0 {
        0
    } else {
        floor - 1
    }
}

impl EditWalk {
    pub fn new(pos: GridPos, facing: Facing) -> (r: EditWalk)
        ensures
            r == (EditWalk { pos, facing }),
    {
        EditWalk { pos, facing }
    }

    /// The tile directly ahead.
    pub fn front(&self) -> (r: GridPos)
        requires
            crate::monster::pos_interior(self.pos),
        ensures
            r == crate::player::step_target(self.pos, self.facing),
    {
        let (dx, dy) = self.facing.delta();
        GridPos::new(self.pos.x + dx, self.pos.y + dy, self.pos.floor)
    }

    /// Only a wall, or a cell outside the level, blocks the walker.
    pub fn passable(level: &Level, pos: GridPos) -> (r: bool)
        ensures
            r == spec_passable(*level, pos),
    {
        match level.block_at(pos) {
            Some(b) => !b.is_wall(),
            None => false,
        }
    }

    fn move_dir(action: WalkAction, facing: Facing) -> (r: Option<Facing>)
        ensures
            r == walk_dir(action, facing),
    {
        match action {
            WalkAction::Forward => Some(facing),
            WalkAction::Backward => Some(facing.opposite()),
            WalkAction::StrafeLeft => Some(facing.turn_left()),
            WalkAction::StrafeRight => Some(facing.turn_right()),
            WalkAction::TurnLeft | WalkAction::TurnRight => None,
        }
    }

    /// Turns rotate in place (and always succeed); moves go one tile in their
    /// heading when that tile is passable, keeping the facing. Returns
    /// whether the walker changed.
    pub fn step(&mut self, action: WalkAction, level: &Level) -> (r: bool)
        requires
            crate::monster::pos_interior(old(self).pos),
        ensures
            match walk_dir(action, old(self).facing) {
                None => r && *final(self) == (EditWalk {
                    facing: if action == WalkAction::TurnLeft {
                        old(self).facing.spec_turn_left()
                    } else {
                        old(self).facing.spec_turn_right()
                    },
                    ..*old(self)
                }),
                Some(dir) => {
                    let dest = crate::player::step_target(old(self).pos, dir);
                    if spec_passable(*level, dest) {
                        r && *final(self) == (EditWalk { pos: dest, ..*old(self) })
                    } else {
                        !r && *final(self) == *old(self)
                    }
                },
            },
    {
        match Self::move_dir(action, self.facing) {
            None => {
                self.facing = match action {
                    WalkAction::TurnLeft => self.facing.turn_left(),
                    _ => self.facing.turn_right(),
                };
                true
            },
            Some(dir) => {
                let (dx, dy) = dir.delta();
                let dest = GridPos::new(self.pos.x + dx, self.pos.y + dy, self.pos.floor);
                if Self::passable(level, dest) {
                    self.pos = dest;
                    true
                } else {
                    false
                }
            },
        }
    }

    /// Move a floor up or down (no ladder needed), within the level's floors,
    /// onto a passable cell. Returns whether the walker moved.
    pub fn climb(&mut self, up: bool, level: &Level) -> (r: bool)
        ensures
            ({
                let target = climb_target(old(self).pos.floor, up, level.floors@.len());
                let dest = GridPos { floor: target as usize, ..old(self).pos };
                if target != old(self).pos.floor && spec_passable(*level, dest) {
                    r && *final(self) == (EditWalk { pos: dest, ..*old(self) })
                } else {
                    !r && *final(self) == *old(self)
                }
            }),
    {
        let floor_count = level.floor_count();
        let top = if floor_count == 0 {
            0
        } else {
            floor_count - 1
        };
        let target = if up {
            if self.pos.floor < top {
                self.pos.floor + 1
            } else {
                top
            }
        } else if self.pos.floor == 0 {
            0
        } else {
            self.pos.floor - 1
        };
        let dest = GridPos::new(self.pos.x, self.pos.y, target);
        if target != self.pos.floor && Self::passable(level, dest) {
            self.pos.floor = target;
            true
        } else {
            false
        }
    }
}

} // verus!
