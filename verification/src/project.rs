//! The project format: a level as stored on disk (rows of glyphs per floor)
//! and in memory (block grids), the conversion between the two with every
//! validation the loader applies, the roster and catalog checks, and the
//! cross-references between a project's data files.
use vstd::prelude::*;
use crate::config::LimitsConfig;
use crate::dungeon::{Block, Dungeon, Facing, Floor, GridPos, Level};
use crate::event::EventDef;
use crate::item::ItemPlacement;
use crate::monster::MonsterPlacement;
use crate::text::{cat, cat3, cat4, same_text, u64_text, i64_text, decimal, signed_decimal, char_text, char_of};
use crate::character::{Character, CharacterState, Party, PartyMember};
use crate::item::{Inventory, InventoryView, ItemCatalog, ItemInstance, lookup_item, spec_equip};
use crate::item::{ItemDef, item_ids, first_duplicate};
use crate::monster::{MonsterDef, monster_ids};
use crate::magic::{MagicDef, magic_ids};
use crate::rules::RulesConfig;
use crate::ids::{texts, first_duplicate_index, position_of};

verus! {

/// One writable-wall message, matched to a `WritableWall` cell by coordinate.
#[derive(Clone, Debug, PartialEq, Eq)]
pub struct WallText {
    pub x: i32,
    pub y: i32,
    pub floor: usize,
    pub text: String,
}

/// The first authored text for the wall at `(x, y, floor)` among `ts`.
pub open spec fn authored_text(ts: Seq<WallText>, x: i32, y: i32, floor: usize) -> Option<String>
    decreases ts.len(),
{
    if ts.len() == 0 {
        None
    } else if ts[0].x == x && ts[0].y == y && ts[0].floor == floor {
        Some(ts[0].text)
    } else {
        authored_text(ts.drop_first(), x, y, floor)
    }
}

/// A link between levels: entering the `Stairs` at `from` moves the party to
/// `to` on `to_level`, facing `to_facing`.
#[derive(Clone, Copy, Debug, PartialEq, Eq)]
pub struct StairsLink {
    pub from: (i32, i32, usize),
    pub to_level: usize,
    pub to: (i32, i32, usize),
    pub to_facing: Facing,
}

/// The first link of `ls` leaving the cell `from`.
pub open spec fn link_from(ls: Seq<StairsLink>, from: (i32, i32, usize)) -> Option<StairsLink>
    decreases ls.len(),
{
    if ls.len() == 0 {
        None
    } else if ls[0].from == from {
        Some(ls[0])
    } else {
        link_from(ls.drop_first(), from)
    }
}

/// One floor of the stored map: `height` rows of `width` glyphs.
#[derive(Clone, Debug, PartialEq, Eq)]
pub struct FloorRows {
    pub rows: Vec<String>,
}

/// A level as stored: a stack of floors (`floors[0]` lowest) of glyph rows.
/// Glyphs: `#` wall, `.` empty, `~` water, `^` fire, `%` poison, `H` ladder,
/// `1`/`2` door kind 0/1 (`!`/`@` the same doors, starting open), the
/// character at code point `DOOR_GLYPH_BASE` + kind a door of kind 2 or more, one-way
/// horoscopes `<` `>` `n` `v` (the heading one may travel), `o` hole, `u`/`d`
/// stairs up/down, `W` writable wall, `A`/`V` vertical horoscope up/down only,
/// `K` keyhole, `S` switch, `P` floor plate, `T` warp point.
#[derive(Clone, Debug, PartialEq, Eq)]
pub struct MapFile {
    pub width: usize,
    pub height: usize,
    pub start_x: i32,
    pub start_y: i32,
    pub start_floor: usize,
    pub start_facing: Facing,
    pub floors: Vec<FloorRows>,
    pub items: Vec<ItemPlacement>,
    pub monsters: Vec<MonsterPlacement>,
    pub wall_texts: Vec<WallText>,
    pub stairs_links: Vec<StairsLink>,
    pub events: Vec<EventDef>,
    /// BGM file name ("" = silence).
    pub bgm: String,
}

/// A level in memory: the block grids, the start, placements, gimmicks.
#[derive(Clone, Debug, PartialEq, Eq)]
pub struct LevelData {
    pub start: GridPos,
    pub start_facing: Facing,
    pub level: Level,
    pub items: Vec<ItemPlacement>,
    pub monsters: Vec<MonsterPlacement>,
    pub wall_texts: Vec<WallText>,
    pub stairs_links: Vec<StairsLink>,
    pub events: Vec<EventDef>,
    /// Door kinds that start open (from the `!`/`@` glyphs), ascending.
    pub open_doors: Vec<u8>,
    /// BGM file name ("" = silence).
    pub bgm: String,
}

/// The block a glyph stands for (the door-open glyphs `!`/`@` excepted).
pub open spec fn spec_char_to_block(c: char) -> Option<Block> {
    match c {
        '#' => Some(Block::Wall),
        '.' => Some(Block::Empty),
        '~' => Some(Block::Water),
        '^' => Some(Block::Fire),
        '%' => Some(Block::Poison),
        'H' => Some(Block::Ladder),
        '1' => Some(Block::Door { kind: 0 }),
        '2' => Some(Block::Door { kind: 1 }),
        '<' => Some(Block::Horoscope { pass_from: Facing::West }),
        '>' => Some(Block::Horoscope { pass_from: Facing::East }),
        'n' => Some(Block::Horoscope { pass_from: Facing::North }),
        'v' => Some(Block::Horoscope { pass_from: Facing::South }),
        'o' => Some(Block::Hole),
        'u' => Some(Block::Stairs { up: true }),
        'd' => Some(Block::Stairs { up: false }),
        'W' => Some(Block::WritableWall),
        'A' => Some(Block::HoroscopeVert { from_below: true }),
        'V' => Some(Block::HoroscopeVert { from_below: false }),
        'K' => Some(Block::Keyhole),
        'S' => Some(Block::Switch),
        'P' => Some(Block::FloorPlate),
        'T' => Some(Block::WarpPoint),
        _ => if DOOR_GLYPH_BASE + 2 <= (c as u32) < DOOR_GLYPH_BASE + 256 {
            Some(Block::Door { kind: ((c as u32) - DOOR_GLYPH_BASE) as u8 })
        } else {
            None
        },
    }
}

/// Doors of kind 2 and up are stored as the character whose code point is
/// this plus the kind.
pub const DOOR_GLYPH_BASE: u32 = 0x100;

/// The glyph of a door of kind `kind`: `1` for kind 0, `2` for kind 1, and
/// the character at code point [`DOOR_GLYPH_BASE`] + kind for every other.
pub open spec fn door_glyph(kind: u8) -> char {
    if kind == 0 {
        '1'
    } else if kind == 1 {
        '2'
    } else {
        (DOOR_GLYPH_BASE + kind) as char
    }
}

/// The glyph of a block; every block has its own (doors: [`door_glyph`]).
pub open spec fn spec_block_to_char(b: Block) -> char {
    match b {
        Block::Wall => '#',
        Block::Empty => '.',
        Block::Water => '~',
        Block::Fire => '^',
        Block::Poison => '%',
        Block::Ladder => 'H',
        Block::Door { kind } => door_glyph(kind),
        Block::Horoscope { pass_from } => match pass_from {
            Facing::West => '<',
            Facing::East => '>',
            Facing::North => 'n',
            Facing::South => 'v',
        },
        Block::Hole => 'o',
        Block::Stairs { up } => if up {
            'u'
        } else {
            'd'
        },
        Block::WritableWall => 'W',
        Block::HoroscopeVert { from_below } => if from_below {
            'A'
        } else {
            'V'
        },
        Block::Keyhole => 'K',
        Block::Switch => 'S',
        Block::FloorPlate => 'P',
        Block::WarpPoint => 'T',
    }
}

/// The block a glyph stands for (the door-open glyphs `!`/`@` excepted).
pub fn char_to_block(c: char) -> (r: Option<Block>)
    ensures
        r == spec_char_to_block(c),
{
    match c {
        '#' => Some(Block::Wall),
        '.' => Some(Block::Empty),
        '~' => Some(Block::Water),
        '^' => Some(Block::Fire),
        '%' => Some(Block::Poison),
        'H' => Some(Block::Ladder),
        '1' => Some(Block::Door { kind: 0 }),
        '2' => Some(Block::Door { kind: 1 }),
        '<' => Some(Block::Horoscope { pass_from: Facing::West }),
        '>' => Some(Block::Horoscope { pass_from: Facing::East }),
        'n' => Some(Block::Horoscope { pass_from: Facing::North }),
        'v' => Some(Block::Horoscope { pass_from: Facing::South }),
        'o' => Some(Block::Hole),
        'u' => Some(Block::Stairs { up: true }),
        'd' => Some(Block::Stairs { up: false }),
        'W' => Some(Block::WritableWall),
        'A' => Some(Block::HoroscopeVert { from_below: true }),
        'V' => Some(Block::HoroscopeVert { from_below: false }),
        'K' => Some(Block::Keyhole),
        'S' => Some(Block::Switch),
        'P' => Some(Block::FloorPlate),
        'T' => Some(Block::WarpPoint),
        _ => {
            let n = c as u32;
            if DOOR_GLYPH_BASE + 2 <= n && n < DOOR_GLYPH_BASE + 256 {
                Some(Block::Door { kind: (n - DOOR_GLYPH_BASE) as u8 })
            } else {
                None
            }
        },
    }
}

/// The glyph of a door of kind `kind` (see [`door_glyph`]).
fn door_char(kind: u8) -> (r: char)
    ensures
        r == door_glyph(kind),
{
    if kind == 0 {
        '1'
    } else if kind == 1 {
        '2'
    } else {
        match char_of(DOOR_GLYPH_BASE + kind as u32) {
            Some(c) => c,
            None => {
                // every code point below the surrogates is a character
                assert(false);
                '2'
            },
        }
    }
}

/// The glyph of a block; every block has its own (doors: [`door_glyph`]).
pub fn block_to_char(block: Block) -> (r: char)
    ensures
        r == spec_block_to_char(block),
{
    match block {
        Block::Wall => '#',
        Block::Empty => '.',
        Block::Water => '~',
        Block::Fire => '^',
        Block::Poison => '%',
        Block::Ladder => 'H',
        Block::Door { kind } => door_char(kind),
        Block::Horoscope { pass_from } => match pass_from {
            Facing::West => '<',
            Facing::East => '>',
            Facing::North => 'n',
            Facing::South => 'v',
        },
        Block::Hole => 'o',
        Block::Stairs { up } => if up {
            'u'
        } else {
            'd'
        },
        Block::WritableWall => 'W',
        Block::HoroscopeVert { from_below } => if from_below {
            'A'
        } else {
            'V'
        },
        Block::Keyhole => 'K',
        Block::Switch => 'S',
        Block::FloorPlate => 'P',
        Block::WarpPoint => 'T',
    }
}

/// Every glyph reads back as itself: writing the block a glyph stands for
/// gives the same glyph.
pub proof fn lemma_glyph_round_trip(c: char)
    requires
        spec_char_to_block(c) is Some,
    ensures
        spec_block_to_char(spec_char_to_block(c)->0) == c,
{
}

/// Every block survives writing and reading back: its glyph stands for
/// that block and no other.
pub proof fn lemma_block_round_trip(b: Block)
    ensures
        spec_char_to_block(spec_block_to_char(b)) == Some(b),
{
    match b {
        Block::Door { kind } => {
            if kind >= 2 {
                let c = door_glyph(kind);
                assert(c as u32 == DOOR_GLYPH_BASE + kind);
            }
        },
        Block::Horoscope { pass_from } => {},
        Block::Stairs { up } => {},
        Block::HoroscopeVert { from_below } => {},
        _ => {},
    }
}


/// The block a stored glyph stands for, the door-open glyphs `!`/`@`
/// included.
pub open spec fn glyph_block(c: char) -> Option<Block> {
    if c == '!' {
        Some(Block::Door { kind: 0 })
    } else if c == '@' {
        Some(Block::Door { kind: 1 })
    } else {
        spec_char_to_block(c)
    }
}

/// Why a stored level was refused.
#[derive(Clone, Debug, PartialEq, Eq)]
pub enum LevelError {
    /// The floor size exceeds the configured one.
    TooLarge { width: usize, height: usize, max_width: usize, max_height: usize },
    /// No floors, or more than configured.
    FloorCount { floors: usize, max_floors: usize },
    /// A floor's row count differs from the declared height.
    RowCount { floor: usize, height: usize, rows: usize },
    /// A row's length differs from the declared width.
    ColumnCount { floor: usize, row: usize, columns: usize, width: usize },
    /// A glyph that stands for no block.
    UnknownBlock { floor: usize, row: usize, col: usize, glyph: char },
    /// A door kind beyond the configured number of kinds.
    DoorKind { floor: usize, row: usize, col: usize, kind: u8, max_kinds: usize },
    /// The start floor does not exist.
    StartFloor { floor: usize, floors: usize },
    /// The start cell is outside the floor.
    StartOutOfBounds { x: i32, y: i32 },
    /// The start cell is a wall.
    StartInWall { x: i32, y: i32 },
    /// The start cell has no footing.
    NoFooting { x: i32, y: i32, floor: usize },
    /// More item placements than configured.
    TooManyItems { count: usize, max: usize },
    /// An item placed outside the level.
    ItemOutOfBounds { id: String, x: i32, y: i32, floor: usize },
    /// More monster placements than configured.
    TooManyMonsters { count: usize, max: usize },
    /// More distinct monster kinds than configured.
    TooManyMonsterKinds { kinds: usize, max: usize },
    /// A monster placed outside the level.
    MonsterOutOfBounds { id: String, x: i32, y: i32, floor: usize },
}

/// The message of a refused level stored as `what`.
pub open spec fn level_error_text(e: LevelError, what: Seq<char>) -> Seq<char> {
    match e {
        LevelError::TooLarge { width, height, max_width, max_height } => what + " is "@ + decimal(width as nat)
            + "x"@ + decimal(height as nat) + ", exceeds configured floor size "@ + decimal(max_width as nat) + "x"@
            + decimal(max_height as nat),
        LevelError::FloorCount { floors, max_floors } => what + " has "@ + decimal(floors as nat)
            + " floors, must be 1..="@ + decimal(max_floors as nat),
        LevelError::RowCount { floor, height, rows } => what + " floor "@ + decimal(floor as nat)
            + " declares height "@ + decimal(height as nat) + " but has "@ + decimal(rows as nat) + " rows"@,
        LevelError::ColumnCount { floor, row, columns, width } => what + " floor "@ + decimal(floor as nat)
            + " row "@ + decimal(row as nat) + " has "@ + decimal(columns as nat) + " columns, expected "@
            + decimal(width as nat),
        LevelError::UnknownBlock { floor, row, col, glyph } => what + " floor "@ + decimal(floor as nat)
            + " row "@ + decimal(row as nat) + " col "@ + decimal(col as nat) + ": unknown block '"@ + seq![glyph]
            + "'"@,
        LevelError::DoorKind { floor, row, col, kind, max_kinds } => what + " floor "@ + decimal(floor as nat)
            + " row "@ + decimal(row as nat) + " col "@ + decimal(col as nat) + ": door kind "@ + decimal(
            kind as nat,
        ) + " exceeds door_kinds_per_level "@ + decimal(max_kinds as nat),
        LevelError::StartFloor { floor, floors } => what + " start_floor "@ + decimal(floor as nat)
            + " is out of range (0.."@ + decimal(floors as nat) + ")"@,
        LevelError::StartOutOfBounds { x, y } => what + " start ("@ + signed_decimal(x as int) + ","@
            + signed_decimal(y as int) + ") is out of bounds"@,
        LevelError::StartInWall { x, y } => what + " start ("@ + signed_decimal(x as int) + ","@ + signed_decimal(
            y as int,
        ) + ") is inside a wall"@,
        LevelError::NoFooting { x, y, floor } => what + " start ("@ + signed_decimal(x as int) + ","@
            + signed_decimal(y as int) + ",floor "@ + decimal(floor as nat) + ") has no footing (would fall)"@,
        LevelError::TooManyItems { count, max } => what + " places "@ + decimal(count as nat)
            + " items, exceeds item_placements_per_level "@ + decimal(max as nat),
        LevelError::ItemOutOfBounds { id, x, y, floor } => what + " item '"@ + id@ + "' at ("@ + signed_decimal(
            x as int,
        ) + ","@ + signed_decimal(y as int) + ",floor "@ + decimal(floor as nat) + ") is out of bounds"@,
        LevelError::TooManyMonsters { count, max } => what + " places "@ + decimal(count as nat)
            + " monsters, exceeds monster_placements_per_level "@ + decimal(max as nat),
        LevelError::TooManyMonsterKinds { kinds, max } => what + " uses "@ + decimal(kinds as nat)
            + " monster kinds, exceeds monster_kinds_per_level "@ + decimal(max as nat),
        LevelError::MonsterOutOfBounds { id, x, y, floor } => what + " monster '"@ + id@ + "' at ("@
            + signed_decimal(x as int) + ","@ + signed_decimal(y as int) + ",floor "@ + decimal(floor as nat)
            + ") is out of bounds"@,
    }
}

fn push_num(s: &mut String, n: usize)
    ensures
        final(s)@ == old(s)@ + decimal(n as nat),
{
    let t = u64_text(n as u64);
    s.append(t.as_str());
}

fn push_int(s: &mut String, n: i32)
    ensures
        final(s)@ == old(s)@ + signed_decimal(n as int),
{
    let t = i64_text(n as i64);
    s.append(t.as_str());
}

impl LevelError {
    /// The message for a level stored as `what` (see [`level_error_text`]).
    pub fn message(&self, what: &str) -> (r: String)
        ensures
            r@ == level_error_text(*self, what@),
    {
        let mut s = String::from_str(what);
        match self {
            LevelError::TooLarge { width, height, max_width, max_height } => {
                s.append(" is ");
                push_num(&mut s, *width);
                s.append("x");
                push_num(&mut s, *height);
                s.append(", exceeds configured floor size ");
                push_num(&mut s, *max_width);
                s.append("x");
                push_num(&mut s, *max_height);
            },
            LevelError::FloorCount { floors, max_floors } => {
                s.append(" has ");
                push_num(&mut s, *floors);
                s.append(" floors, must be 1..=");
                push_num(&mut s, *max_floors);
            },
            LevelError::RowCount { floor, height, rows } => {
                s.append(" floor ");
                push_num(&mut s, *floor);
                s.append(" declares height ");
                push_num(&mut s, *height);
                s.append(" but has ");
                push_num(&mut s, *rows);
                s.append(" rows");
            },
            LevelError::ColumnCount { floor, row, columns, width } => {
                s.append(" floor ");
                push_num(&mut s, *floor);
                s.append(" row ");
                push_num(&mut s, *row);
                s.append(" has ");
                push_num(&mut s, *columns);
                s.append(" columns, expected ");
                push_num(&mut s, *width);
            },
            LevelError::UnknownBlock { floor, row, col, glyph } => {
                s.append(" floor ");
                push_num(&mut s, *floor);
                s.append(" row ");
                push_num(&mut s, *row);
                s.append(" col ");
                push_num(&mut s, *col);
                s.append(": unknown block '");
                let g = char_text(*glyph);
                s.append(g.as_str());
                s.append("'");
            },
            LevelError::DoorKind { floor, row, col, kind, max_kinds } => {
                s.append(" floor ");
                push_num(&mut s, *floor);
                s.append(" row ");
                push_num(&mut s, *row);
                s.append(" col ");
                push_num(&mut s, *col);
                s.append(": door kind ");
                push_num(&mut s, *kind as usize);
                s.append(" exceeds door_kinds_per_level ");
                push_num(&mut s, *max_kinds);
            },
            LevelError::StartFloor { floor, floors } => {
                s.append(" start_floor ");
                push_num(&mut s, *floor);
                s.append(" is out of range (0..");
                push_num(&mut s, *floors);
                s.append(")");
            },
            LevelError::StartOutOfBounds { x, y } => {
                s.append(" start (");
                push_int(&mut s, *x);
                s.append(",");
                push_int(&mut s, *y);
                s.append(") is out of bounds");
            },
            LevelError::StartInWall { x, y } => {
                s.append(" start (");
                push_int(&mut s, *x);
                s.append(",");
                push_int(&mut s, *y);
                s.append(") is inside a wall");
            },
            LevelError::NoFooting { x, y, floor } => {
                s.append(" start (");
                push_int(&mut s, *x);
                s.append(",");
                push_int(&mut s, *y);
                s.append(",floor ");
                push_num(&mut s, *floor);
                s.append(") has no footing (would fall)");
            },
            LevelError::TooManyItems { count, max } => {
                s.append(" places ");
                push_num(&mut s, *count);
                s.append(" items, exceeds item_placements_per_level ");
                push_num(&mut s, *max);
            },
            LevelError::ItemOutOfBounds { id, x, y, floor } => {
                s.append(" item '");
                s.append(id.as_str());
                s.append("' at (");
                push_int(&mut s, *x);
                s.append(",");
                push_int(&mut s, *y);
                s.append(",floor ");
                push_num(&mut s, *floor);
                s.append(") is out of bounds");
            },
            LevelError::TooManyMonsters { count, max } => {
                s.append(" places ");
                push_num(&mut s, *count);
                s.append(" monsters, exceeds monster_placements_per_level ");
                push_num(&mut s, *max);
            },
            LevelError::TooManyMonsterKinds { kinds, max } => {
                s.append(" uses ");
                push_num(&mut s, *kinds);
                s.append(" monster kinds, exceeds monster_kinds_per_level ");
                push_num(&mut s, *max);
            },
            LevelError::MonsterOutOfBounds { id, x, y, floor } => {
                s.append(" monster '");
                s.append(id.as_str());
                s.append("' at (");
                push_int(&mut s, *x);
                s.append(",");
                push_int(&mut s, *y);
                s.append(",floor ");
                push_num(&mut s, *floor);
                s.append(") is out of bounds");
            },
        }
        s
    }
}

/// The glyph rows of every floor of `map`.
pub open spec fn rows_of(map: MapFile) -> Seq<Seq<Seq<char>>> {
    map.floors@.map_values(|f: FloorRows| f.rows@.map_values(|r: String| r@))
}

/// The error a single glyph causes, if any.
pub open spec fn cell_error(fi: int, y: int, x: int, c: char, door_kinds: usize) -> Option<LevelError> {
    match glyph_block(c) {
        None => Some(LevelError::UnknownBlock { floor: fi as usize, row: y as usize, col: x as usize, glyph: c }),
        Some(b) => match b {
            Block::Door { kind } => if kind as int >= door_kinds {
                Some(
                    LevelError::DoorKind {
                        floor: fi as usize,
                        row: y as usize,
                        col: x as usize,
                        kind,
                        max_kinds: door_kinds,
                    },
                )
            } else {
                None
            },
            _ => None,
        },
    }
}

/// The first glyph error in `row` from column `x` on.
pub open spec fn cells_error(fi: int, y: int, row: Seq<char>, x: int, door_kinds: usize) -> Option<LevelError>
    decreases row.len() - x,
    when 0 <= x
{
    if x >= row.len() {
        None
    } else {
        match cell_error(fi, y, x, row[x], door_kinds) {
            Some(e) => Some(e),
            None => cells_error(fi, y, row, x + 1, door_kinds),
        }
    }
}

/// The error of row `y` of floor `fi`: its length, then its glyphs.
pub open spec fn row_error(fi: int, y: int, row: Seq<char>, width: usize, door_kinds: usize) -> Option<LevelError> {
    if row.len() != width {
        Some(LevelError::ColumnCount { floor: fi as usize, row: y as usize, columns: row.len() as usize, width })
    } else {
        cells_error(fi, y, row, 0, door_kinds)
    }
}

/// The first row error of floor `fi` from row `y` on.
pub open spec fn rows_error(fi: int, rows: Seq<Seq<char>>, y: int, width: usize, door_kinds: usize) -> Option<
    LevelError,
>
    decreases rows.len() - y,
    when 0 <= y
{
    if y >= rows.len() {
        None
    } else {
        match row_error(fi, y, rows[y], width, door_kinds) {
            Some(e) => Some(e),
            None => rows_error(fi, rows, y + 1, width, door_kinds),
        }
    }
}

/// The error of floor `fi`: its row count, then its rows.
pub open spec fn floor_error(fi: int, rows: Seq<Seq<char>>, width: usize, height: usize, door_kinds: usize) -> Option<
    LevelError,
> {
    if rows.len() != height {
        Some(LevelError::RowCount { floor: fi as usize, height, rows: rows.len() as usize })
    } else {
        rows_error(fi, rows, 0, width, door_kinds)
    }
}

/// The first floor error from floor `fi` on.
pub open spec fn grid_error(
    floors: Seq<Seq<Seq<char>>>,
    fi: int,
    width: usize,
    height: usize,
    door_kinds: usize,
) -> Option<LevelError>
    decreases floors.len() - fi,
    when 0 <= fi
{
    if fi >= floors.len() {
        None
    } else {
        match floor_error(fi, floors[fi], width, height, door_kinds) {
            Some(e) => Some(e),
            None => grid_error(floors, fi + 1, width, height, door_kinds),
        }
    }
}

/// The blocks of one glyph row.
pub open spec fn decode_row(row: Seq<char>) -> Seq<Block> {
    row.map_values(|c: char| glyph_block(c)->0)
}

/// The blocks of a floor's rows, row-major.
pub open spec fn decode_rows(rows: Seq<Seq<char>>) -> Seq<Block>
    decreases rows.len(),
{
    if rows.len() == 0 {
        Seq::empty()
    } else {
        decode_rows(rows.drop_last()) + decode_row(rows.last())
    }
}

/// Every glyph of a floor's rows, row by row.
pub open spec fn floor_glyphs(rows: Seq<Seq<char>>) -> Seq<char>
    decreases rows.len(),
{
    if rows.len() == 0 {
        Seq::empty()
    } else {
        floor_glyphs(rows.drop_last()) + rows.last()
    }
}

/// Every glyph of every floor, floor by floor.
pub open spec fn map_glyphs(floors: Seq<Seq<Seq<char>>>) -> Seq<char>
    decreases floors.len(),
{
    if floors.len() == 0 {
        Seq::empty()
    } else {
        map_glyphs(floors.drop_last()) + floor_glyphs(floors.last())
    }
}

/// The door kinds that start open: 0 when some `!` occurs, 1 when some `@`
/// does, ascending.
pub open spec fn open_kinds(floors: Seq<Seq<Seq<char>>>) -> Seq<u8> {
    (if map_glyphs(floors).contains('!') {
        seq![0u8]
    } else {
        Seq::empty()
    }) + (if map_glyphs(floors).contains('@') {
        seq![1u8]
    } else {
        Seq::empty()
    })
}

/// The cell `(x, y)` of floor `f` of the decoded map, the way a decoded floor
/// answers it.
pub open spec fn decoded_cell(map: MapFile, x: int, y: int, f: int) -> Option<Block> {
    let rows = rows_of(map);
    if 0 <= f < rows.len() {
        let blocks = decode_rows(rows[f]);
        if 0 <= x < map.width && 0 <= y < map.height && y * map.width + x < blocks.len() {
            Some(blocks[y * map.width + x])
        } else {
            None
        }
    } else {
        None
    }
}

/// Footing in the decoded map (see `Level::spec_is_supported`).
pub open spec fn decoded_supported(map: MapFile, x: int, y: int, f: int) -> bool {
    decoded_cell(map, x, y, f) == Some(Block::Ladder) || f == 0 || decoded_cell(map, x, y, f - 1) == Some(
        Block::Wall,
    )
}

/// The first item placed outside the decoded map, from index `i` on.
pub open spec fn first_item_outside(map: MapFile, i: int) -> Option<int>
    decreases map.items@.len() - i,
    when 0 <= i
{
    if i >= map.items@.len() {
        None
    } else {
        let p = map.items@[i];
        if decoded_cell(map, p.x as int, p.y as int, p.floor as int) is None {
            Some(i)
        } else {
            first_item_outside(map, i + 1)
        }
    }
}

/// The first monster placed outside the decoded map, from index `i` on.
pub open spec fn first_monster_outside(map: MapFile, i: int) -> Option<int>
    decreases map.monsters@.len() - i,
    when 0 <= i
{
    if i >= map.monsters@.len() {
        None
    } else {
        let p = map.monsters@[i];
        if decoded_cell(map, p.x as int, p.y as int, p.floor as int) is None {
            Some(i)
        } else {
            first_monster_outside(map, i + 1)
        }
    }
}

/// The number of distinct ids among `ids`.
pub open spec fn distinct_count(ids: Seq<Seq<char>>) -> nat
    decreases ids.len(),
{
    if ids.len() == 0 {
        0
    } else {
        distinct_count(ids.drop_last()) + if ids.drop_last().contains(ids.last()) {
            0nat
        } else {
            1nat
        }
    }
}

pub open spec fn placement_ids(ps: Seq<MonsterPlacement>) -> Seq<Seq<char>> {
    ps.map_values(|p: MonsterPlacement| p.id@)
}

/// Why the start of the stored level is refused: its floor is missing, its
/// cell is outside the floor or a wall, or it has no footing.
pub open spec fn start_error(map: MapFile) -> Option<LevelError> {
    let (sx, sy, sf) = (map.start_x as int, map.start_y as int, map.start_floor as int);
    if map.start_floor >= map.floors@.len() {
        Some(LevelError::StartFloor { floor: map.start_floor, floors: map.floors@.len() as usize })
    } else if decoded_cell(map, sx, sy, sf) is None {
        Some(LevelError::StartOutOfBounds { x: map.start_x, y: map.start_y })
    } else if decoded_cell(map, sx, sy, sf) == Some(Block::Wall) {
        Some(LevelError::StartInWall { x: map.start_x, y: map.start_y })
    } else if !decoded_supported(map, sx, sy, sf) {
        Some(LevelError::NoFooting { x: map.start_x, y: map.start_y, floor: map.start_floor })
    } else {
        None
    }
}

/// Why the placements of the stored level are refused: too many items, an
/// item outside the level, too many monsters, too many distinct monster kinds,
/// a monster outside the level.
pub open spec fn placement_error(map: MapFile, limits: LimitsConfig) -> Option<LevelError> {
    if map.items@.len() > limits.item_placements_per_level {
        Some(LevelError::TooManyItems { count: map.items@.len() as usize, max: limits.item_placements_per_level })
    } else if first_item_outside(map, 0) is Some {
        let p = map.items@[first_item_outside(map, 0)->0];
        Some(LevelError::ItemOutOfBounds { id: p.id, x: p.x, y: p.y, floor: p.floor })
    } else if map.monsters@.len() > limits.monster_placements_per_level {
        Some(
            LevelError::TooManyMonsters {
                count: map.monsters@.len() as usize,
                max: limits.monster_placements_per_level,
            },
        )
    } else if distinct_count(placement_ids(map.monsters@)) > limits.monster_kinds_per_level {
        Some(
            LevelError::TooManyMonsterKinds {
                kinds: distinct_count(placement_ids(map.monsters@)) as usize,
                max: limits.monster_kinds_per_level,
            },
        )
    } else if first_monster_outside(map, 0) is Some {
        let p = map.monsters@[first_monster_outside(map, 0)->0];
        Some(LevelError::MonsterOutOfBounds { id: p.id, x: p.x, y: p.y, floor: p.floor })
    } else {
        None
    }
}

/// Why the stored level is refused, checked in order: floor size, floor
/// count, the grid (floor by floor, row by row: row count, row length,
/// glyphs, door kinds), the start ([`start_error`]), then the placements
/// ([`placement_error`]). `None` when it is accepted.
pub open spec fn spec_level_error(map: MapFile, limits: LimitsConfig) -> Option<LevelError> {
    let rows = rows_of(map);
    if map.width > limits.floor_width || map.height > limits.floor_height {
        Some(
            LevelError::TooLarge {
                width: map.width,
                height: map.height,
                max_width: limits.floor_width,
                max_height: limits.floor_height,
            },
        )
    } else if map.floors@.len() == 0 || map.floors@.len() > limits.floors_per_level {
        Some(LevelError::FloorCount { floors: map.floors@.len() as usize, max_floors: limits.floors_per_level })
    } else if grid_error(rows, 0, map.width, map.height, limits.door_kinds_per_level) is Some {
        grid_error(rows, 0, map.width, map.height, limits.door_kinds_per_level)
    } else if start_error(map) is Some {
        start_error(map)
    } else {
        placement_error(map, limits)
    }
}

/// `ld` is what the accepted stored level `map` decodes to: the start, the
/// floors (declared size, glyphs decoded row-major), the placements and
/// gimmicks as stored, and the door kinds the `!`/`@` glyphs open.
pub open spec fn decodes_to(map: MapFile, ld: LevelData) -> bool {
    let rows = rows_of(map);
    &&& ld.start == (GridPos { x: map.start_x, y: map.start_y, floor: map.start_floor })
    &&& ld.start_facing == map.start_facing
    &&& ld.level.floors@.len() == rows.len()
    &&& forall|f: int|
        0 <= f < rows.len() ==> {
            &&& (#[trigger] ld.level.floors@[f]).width == map.width
            &&& ld.level.floors@[f].height == map.height
            &&& ld.level.floors@[f].blocks@ == decode_rows(rows[f])
        }
    &&& ld.items@ == map.items@
    &&& ld.monsters@ == map.monsters@
    &&& ld.wall_texts@ == map.wall_texts@
    &&& ld.stairs_links@ == map.stairs_links@
    &&& ld.events@ == map.events@
    &&& ld.open_doors@ == open_kinds(rows)
    &&& ld.bgm == map.bgm
}

proof fn lemma_contains_push(s: Seq<char>, c: char, d: char)
    ensures
        s.push(c).contains(d) <==> (s.contains(d) || c == d),
{
    if s.contains(d) {
        let i = choose|i: int| 0 <= i < s.len() && s[i] == d;
        assert(s.push(c)[i] == d);
    }
    if c == d {
        assert(s.push(c)[s.len() as int] == d);
    }
    if s.push(c).contains(d) {
        let i = choose|i: int| 0 <= i < s.push(c).len() && s.push(c)[i] == d;
        if i < s.len() {
            assert(s[i] == d);
        }
    }
}

proof fn lemma_contains_concat(a: Seq<char>, b: Seq<char>, d: char)
    ensures
        (a + b).contains(d) <==> (a.contains(d) || b.contains(d)),
{
    if a.contains(d) {
        let i = choose|i: int| 0 <= i < a.len() && a[i] == d;
        assert((a + b)[i] == d);
    }
    if b.contains(d) {
        let i = choose|i: int| 0 <= i < b.len() && b[i] == d;
        assert((a + b)[a.len() + i] == d);
    }
    if (a + b).contains(d) {
        let i = choose|i: int| 0 <= i < (a + b).len() && (a + b)[i] == d;
        if i < a.len() {
            assert(a[i] == d);
        } else {
            assert(b[i - a.len()] == d);
        }
    }
}

/// Decode the glyphs of row `y` of floor `fi` onto `blocks`, noting the
/// door-open glyphs seen.
fn decode_row_into(
    row: &String,
    fi: usize,
    y: usize,
    door_kinds: usize,
    blocks: &mut Vec<Block>,
    seen0: &mut bool,
    seen1: &mut bool,
) -> (r: Result<(), LevelError>)
    ensures
        match r {
            Ok(()) => {
                &&& cells_error(fi as int, y as int, row@, 0, door_kinds) is None
                &&& final(blocks)@ == old(blocks)@ + decode_row(row@)
                &&& *final(seen0) == (*old(seen0) || row@.contains('!'))
                &&& *final(seen1) == (*old(seen1) || row@.contains('@'))
            },
            Err(e) => cells_error(fi as int, y as int, row@, 0, door_kinds) == Some(e),
        },
{
    let n = row.as_str().unicode_len();
    let ghost b0 = blocks@;
    let ghost s0 = *seen0;
    let ghost s1 = *seen1;
    let mut x: usize = 0;
    while x < n
        invariant
            n == row@.len(),
            x <= n,
            cells_error(fi as int, y as int, row@, 0, door_kinds) == cells_error(
                fi as int,
                y as int,
                row@,
                x as int,
                door_kinds,
            ),
            blocks@ == b0 + decode_row(row@.take(x as int)),
            *seen0 == (s0 || row@.take(x as int).contains('!')),
            *seen1 == (s1 || row@.take(x as int).contains('@')),
        decreases n - x,
    {
        let c = row.as_str().get_char(x);
        assert(row@.take(x as int + 1) =~= row@.take(x as int).push(c));
        proof {
            lemma_contains_push(row@.take(x as int), c, '!');
            lemma_contains_push(row@.take(x as int), c, '@');
        }
        let block = if c == '!' {
            *seen0 = true;
            Block::Door { kind: 0 }
        } else if c == '@' {
            *seen1 = true;
            Block::Door { kind: 1 }
        } else {
            match char_to_block(c) {
                Some(b) => b,
                None => {
                    return Err(
                        LevelError::UnknownBlock { floor: fi, row: y, col: x, glyph: c },
                    );
                },
            }
        };
        if let Block::Door { kind } = block {
            if kind as usize >= door_kinds {
                return Err(
                    LevelError::DoorKind { floor: fi, row: y, col: x, kind, max_kinds: door_kinds },
                );
            }
        }
        blocks.push(block);
        assert(decode_row(row@.take(x as int + 1)) =~= decode_row(row@.take(x as int)).push(block));
        x = x + 1;
    }
    assert(row@.take(n as int) =~= row@);
    Ok(())
}

/// The glyph rows of one stored floor.
pub open spec fn floor_rows(fl: FloorRows) -> Seq<Seq<char>> {
    fl.rows@.map_values(|r: String| r@)
}

/// Decode stored floor `fi`.
fn decode_floor(
    fl: &FloorRows,
    fi: usize,
    width: usize,
    height: usize,
    door_kinds: usize,
    seen0: &mut bool,
    seen1: &mut bool,
) -> (r: Result<Floor, LevelError>)
    ensures
        match r {
            Ok(f) => {
                &&& floor_error(fi as int, floor_rows(*fl), width, height, door_kinds) is None
                &&& f.width == width && f.height == height
                &&& f.blocks@ == decode_rows(floor_rows(*fl))
                &&& *final(seen0) == (*old(seen0) || floor_glyphs(floor_rows(*fl)).contains('!'))
                &&& *final(seen1) == (*old(seen1) || floor_glyphs(floor_rows(*fl)).contains('@'))
            },
            Err(e) => floor_error(fi as int, floor_rows(*fl), width, height, door_kinds) == Some(e),
        },
{
    let ghost rows = floor_rows(*fl);
    if fl.rows.len() != height {
        return Err(LevelError::RowCount { floor: fi, height, rows: fl.rows.len() });
    }
    let ghost s0 = *seen0;
    let ghost s1 = *seen1;
    let mut blocks: Vec<Block> = Vec::new();
    let mut y: usize = 0;
    while y < fl.rows.len()
        invariant
            rows == floor_rows(*fl),
            rows.len() == height,
            y <= rows.len(),
            rows_error(fi as int, rows, 0, width, door_kinds) == rows_error(
                fi as int,
                rows,
                y as int,
                width,
                door_kinds,
            ),
            blocks@ == decode_rows(rows.take(y as int)),
            *seen0 == (s0 || floor_glyphs(rows.take(y as int)).contains('!')),
            *seen1 == (s1 || floor_glyphs(rows.take(y as int)).contains('@')),
        decreases rows.len() - y,
    {
        let row = &fl.rows[y];
        assert(rows[y as int] == row@);
        assert(rows.take(y as int + 1).drop_last() =~= rows.take(y as int));
        assert(rows.take(y as int + 1).last() == row@);
        proof {
            lemma_contains_concat(floor_glyphs(rows.take(y as int)), row@, '!');
            lemma_contains_concat(floor_glyphs(rows.take(y as int)), row@, '@');
        }
        let cols = row.as_str().unicode_len();
        if cols != width {
            return Err(LevelError::ColumnCount { floor: fi, row: y, columns: cols, width });
        }
        match decode_row_into(row, fi, y, door_kinds, &mut blocks, seen0, seen1) {
            Err(e) => {
                return Err(e);
            },
            Ok(()) => {},
        }
        y = y + 1;
    }
    assert(rows.take(rows.len() as int) =~= rows);
    Ok(Floor { width, height, blocks })
}

/// The first distinct-kind count: ids seen so far, each once.
fn count_kinds(ms: &Vec<MonsterPlacement>) -> (r: usize)
    ensures
        r == distinct_count(placement_ids(ms@)),
{
    let ghost ids = placement_ids(ms@);
    let mut kinds: Vec<String> = Vec::new();
    let mut i: usize = 0;
    while i < ms.len()
        invariant
            i <= ms@.len(),
            ids == placement_ids(ms@),
            kinds@.len() == distinct_count(ids.take(i as int)),
            kinds@.len() <= i,
            forall|id: Seq<char>| crate::ids::texts(kinds@).contains(id) <==> ids.take(i as int).contains(id),
        decreases ms@.len() - i,
    {
        let id = &ms[i].id;
        assert(ids.take(i as int + 1).drop_last() =~= ids.take(i as int));
        assert(ids.take(i as int + 1).last() == id@);
        assert(ids.take(i as int + 1) =~= ids.take(i as int).push(id@));
        let ghost before = kinds@;
        let found = crate::ids::position_of(&kinds, id);
        proof {
            crate::item::lemma_first_index_of(crate::ids::texts(kinds@), id@);
        }
        if found.is_none() {
            proof {
                assert(!crate::ids::texts(kinds@).contains(id@));
            }
            kinds.push(id.clone());
            assert(crate::ids::texts(kinds@) =~= crate::ids::texts(before).push(id@));
        } else {
            proof {
                let k = found.unwrap() as int;
                assert(crate::ids::texts(kinds@)[k] == id@);
                assert(crate::ids::texts(kinds@).contains(id@));
            }
        }
        assert forall|x: Seq<char>| crate::ids::texts(kinds@).contains(x) <==> ids.take(i as int + 1).contains(x) by {
            lemma_contains_push_ids(ids.take(i as int), id@, x);
            lemma_contains_push_ids(crate::ids::texts(before), id@, x);
        }
        i = i + 1;
    }
    assert(ids.take(ms@.len() as int) =~= ids);
    kinds.len()
}

proof fn lemma_contains_push_ids(s: Seq<Seq<char>>, c: Seq<char>, d: Seq<char>)
    ensures
        s.push(c).contains(d) <==> (s.contains(d) || c == d),
{
    if s.contains(d) {
        let i = choose|i: int| 0 <= i < s.len() && s[i] == d;
        assert(s.push(c)[i] == d);
    }
    if c == d {
        assert(s.push(c)[s.len() as int] == d);
    }
    if s.push(c).contains(d) {
        let i = choose|i: int| 0 <= i < s.push(c).len() && s.push(c)[i] == d;
        if i < s.len() {
            assert(s[i] == d);
        }
    }
}

/// Decode every stored floor, noting which door-open glyphs occur.
fn decode_grid(map: &MapFile, door_kinds: usize) -> (r: Result<(Vec<Floor>, bool, bool), LevelError>)
    ensures
        ({
            let rows = rows_of(*map);
            match r {
                Ok((floors, seen0, seen1)) => {
                    &&& grid_error(rows, 0, map.width, map.height, door_kinds) is None
                    &&& floors@.len() == rows.len()
                    &&& forall|f: int|
                        0 <= f < rows.len() ==> {
                            &&& (#[trigger] floors@[f]).width == map.width
                            &&& floors@[f].height == map.height
                            &&& floors@[f].blocks@ == decode_rows(rows[f])
                        }
                    &&& seen0 == map_glyphs(rows).contains('!')
                    &&& seen1 == map_glyphs(rows).contains('@')
                },
                Err(e) => grid_error(rows, 0, map.width, map.height, door_kinds) == Some(e),
            }
        }),
{
    let ghost rows = rows_of(*map);
    let mut floors: Vec<Floor> = Vec::new();
    let mut seen0 = false;
    let mut seen1 = false;
    let mut fi: usize = 0;
    while fi < map.floors.len()
        invariant
            rows == rows_of(*map),
            fi <= rows.len(),
            grid_error(rows, 0, map.width, map.height, door_kinds) == grid_error(
                rows,
                fi as int,
                map.width,
                map.height,
                door_kinds,
            ),
            floors@.len() == fi,
            forall|f: int|
                0 <= f < fi ==> {
                    &&& (#[trigger] floors@[f]).width == map.width
                    &&& floors@[f].height == map.height
                    &&& floors@[f].blocks@ == decode_rows(rows[f])
                },
            seen0 == map_glyphs(rows.take(fi as int)).contains('!'),
            seen1 == map_glyphs(rows.take(fi as int)).contains('@'),
        decreases rows.len() - fi,
    {
        let fl = &map.floors[fi];
        assert(rows[fi as int] == floor_rows(*fl));
        assert(rows.take(fi as int + 1).drop_last() =~= rows.take(fi as int));
        assert(rows.take(fi as int + 1).last() == floor_rows(*fl));
        proof {
            lemma_contains_concat(map_glyphs(rows.take(fi as int)), floor_glyphs(floor_rows(*fl)), '!');
            lemma_contains_concat(map_glyphs(rows.take(fi as int)), floor_glyphs(floor_rows(*fl)), '@');
        }
        match decode_floor(fl, fi, map.width, map.height, door_kinds, &mut seen0, &mut seen1) {
            Err(e) => {
                return Err(e);
            },
            Ok(f) => {
                floors.push(f);
            },
        }
        fi = fi + 1;
    }
    assert(rows.take(rows.len() as int) =~= rows);
    Ok((floors, seen0, seen1))
}

/// Check the start of the stored map against its decoded `level`.
fn check_start(map: &MapFile, level: &Level) -> (r: Result<GridPos, LevelError>)
    requires
        level.floors@.len() == map.floors@.len(),
        forall|x: int, y: int, f: int| #[trigger] level.spec_cell(x, y, f) == decoded_cell(*map, x, y, f),
    ensures
        match r {
            Ok(p) => start_error(*map) is None && p == (GridPos {
                x: map.start_x,
                y: map.start_y,
                floor: map.start_floor,
            }),
            Err(e) => start_error(*map) == Some(e),
        },
{
    if map.start_floor >= level.floor_count() {
        return Err(LevelError::StartFloor { floor: map.start_floor, floors: level.floor_count() });
    }
    let start = GridPos::new(map.start_x, map.start_y, map.start_floor);
    match level.block_at(start) {
        None => {
            return Err(LevelError::StartOutOfBounds { x: start.x, y: start.y });
        },
        Some(b) => {
            if b.is_wall() {
                return Err(LevelError::StartInWall { x: start.x, y: start.y });
            }
        },
    }
    if !level.is_supported(start.x, start.y, start.floor) {
        return Err(LevelError::NoFooting { x: start.x, y: start.y, floor: start.floor });
    }
    Ok(start)
}

/// Check the placements of the stored map against its decoded `level`.
fn check_placements(map: &MapFile, level: &Level, limits: &LimitsConfig) -> (r: Result<(), LevelError>)
    requires
        forall|x: int, y: int, f: int| #[trigger] level.spec_cell(x, y, f) == decoded_cell(*map, x, y, f),
    ensures
        match r {
            Ok(()) => placement_error(*map, *limits) is None,
            Err(e) => placement_error(*map, *limits) == Some(e),
        },
{
    if map.items.len() > limits.item_placements_per_level {
        return Err(LevelError::TooManyItems { count: map.items.len(), max: limits.item_placements_per_level });
    }
    let mut i: usize = 0;
    while i < map.items.len()
        invariant
            i <= map.items@.len(),
            map.items@.len() <= limits.item_placements_per_level,
            first_item_outside(*map, 0) == first_item_outside(*map, i as int),
            forall|x: int, y: int, f: int| #[trigger] level.spec_cell(x, y, f) == decoded_cell(*map, x, y, f),
        decreases map.items@.len() - i,
    {
        let p = &map.items[i];
        if level.block_at(GridPos::new(p.x, p.y, p.floor)).is_none() {
            return Err(LevelError::ItemOutOfBounds { id: p.id.clone(), x: p.x, y: p.y, floor: p.floor });
        }
        i = i + 1;
    }
    if map.monsters.len() > limits.monster_placements_per_level {
        return Err(
            LevelError::TooManyMonsters { count: map.monsters.len(), max: limits.monster_placements_per_level },
        );
    }
    let kinds = count_kinds(&map.monsters);
    if kinds > limits.monster_kinds_per_level {
        return Err(LevelError::TooManyMonsterKinds { kinds, max: limits.monster_kinds_per_level });
    }
    let mut j: usize = 0;
    while j < map.monsters.len()
        invariant
            j <= map.monsters@.len(),
            map.items@.len() <= limits.item_placements_per_level,
            first_item_outside(*map, 0) is None,
            map.monsters@.len() <= limits.monster_placements_per_level,
            distinct_count(placement_ids(map.monsters@)) <= limits.monster_kinds_per_level,
            first_monster_outside(*map, 0) == first_monster_outside(*map, j as int),
            forall|x: int, y: int, f: int| #[trigger] level.spec_cell(x, y, f) == decoded_cell(*map, x, y, f),
        decreases map.monsters@.len() - j,
    {
        let p = &map.monsters[j];
        if level.block_at(GridPos::new(p.x, p.y, p.floor)).is_none() {
            return Err(LevelError::MonsterOutOfBounds { id: p.id.clone(), x: p.x, y: p.y, floor: p.floor });
        }
        j = j + 1;
    }
    Ok(())
}

/// Validate and decode a stored level against `limits` (see
/// [`spec_level_error`] for what is refused and [`decodes_to`] for what an
/// accepted one becomes).
pub fn level_from_map(map: MapFile, limits: &LimitsConfig) -> (r: Result<LevelData, LevelError>)
    ensures
        match r {
            Ok(ld) => spec_level_error(map, *limits) is None && decodes_to(map, ld),
            Err(e) => spec_level_error(map, *limits) == Some(e),
        },
{
    let ghost rows = rows_of(map);
    if map.width > limits.floor_width || map.height > limits.floor_height {
        return Err(
            LevelError::TooLarge {
                width: map.width,
                height: map.height,
                max_width: limits.floor_width,
                max_height: limits.floor_height,
            },
        );
    }
    if map.floors.len() == 0 || map.floors.len() > limits.floors_per_level {
        return Err(LevelError::FloorCount { floors: map.floors.len(), max_floors: limits.floors_per_level });
    }
    let (floors, seen0, seen1) = match decode_grid(&map, limits.door_kinds_per_level) {
        Err(e) => {
            return Err(e);
        },
        Ok(g) => g,
    };
    let level = Level { floors };
    assert forall|x: int, y: int, f: int| #[trigger] level.spec_cell(x, y, f) == decoded_cell(map, x, y, f) by {
        if 0 <= f < rows.len() {
            assert(level.floors@[f].blocks@ == decode_rows(rows[f]));
        }
    }
    let start = match check_start(&map, &level) {
        Err(e) => {
            return Err(e);
        },
        Ok(p) => p,
    };
    match check_placements(&map, &level, limits) {
        Err(e) => {
            return Err(e);
        },
        Ok(()) => {},
    }
    let mut open_doors: Vec<u8> = Vec::new();
    if seen0 {
        open_doors.push(0);
    }
    if seen1 {
        open_doors.push(1);
    }
    assert(open_doors@ =~= open_kinds(rows));
    let MapFile { start_facing, items, monsters, wall_texts, stairs_links, events, bgm, .. } = map;
    Ok(
        LevelData {
            start,
            start_facing,
            level,
            items,
            monsters,
            wall_texts,
            stairs_links,
            events,
            open_doors,
            bgm,
        },
    )
}

/// The glyph a block is stored as, given the door kinds that start open:
/// an open-kind door is `!` (kind 0) or `@` (any other kind).
pub open spec fn stored_glyph(b: Block, open: Seq<u8>) -> char {
    match b {
        Block::Door { kind } => if open.contains(kind) {
            if kind == 0 {
                '!'
            } else {
                '@'
            }
        } else {
            spec_block_to_char(b)
        },
        _ => spec_block_to_char(b),
    }
}

/// The glyph rows a floor is stored as: `height` rows of `width` glyphs,
/// read row-major from the blocks.
pub open spec fn encode_floor(fl: Floor, open: Seq<u8>) -> Seq<Seq<char>> {
    Seq::new(
        fl.height as nat,
        |y: int| Seq::new(fl.width as nat, |x: int| stored_glyph(fl.blocks@[y * fl.width + x], open)),
    )
}

/// Every floor holds at least its `width * height` blocks (any further
/// blocks are never read).
pub open spec fn grids_held(lv: Level) -> bool {
    forall|i: int|
        0 <= i < lv.floors@.len() ==> (#[trigger] lv.floors@[i]).width * lv.floors@[i].height
            <= lv.floors@[i].blocks@.len()
}

/// `m` is how `ld` is stored: the size of floor 0 (0 × 0 without floors), the
/// start, every floor's glyph rows, and the placements and gimmicks as they
/// are.
pub open spec fn encodes(ld: LevelData, m: MapFile) -> bool {
    let floors = ld.level.floors@;
    &&& m.width == (if floors.len() > 0 { floors[0].width } else { 0 })
    &&& m.height == (if floors.len() > 0 { floors[0].height } else { 0 })
    &&& m.start_x == ld.start.x && m.start_y == ld.start.y && m.start_floor == ld.start.floor
    &&& m.start_facing == ld.start_facing
    &&& rows_of(m) == floors.map_values(|fl: Floor| encode_floor(fl, ld.open_doors@))
    &&& m.items@ == ld.items@
    &&& m.monsters@ == ld.monsters@
    &&& m.wall_texts@ == ld.wall_texts@
    &&& m.stairs_links@ == ld.stairs_links@
    &&& m.events@ == ld.events@
    &&& m.bgm == ld.bgm
}

fn kind_listed(kinds: &Vec<u8>, k: u8) -> (r: bool)
    ensures
        r == kinds@.contains(k),
{
    let mut i: usize = 0;
    while i < kinds.len()
        invariant
            i <= kinds@.len(),
            forall|j: int| 0 <= j < i ==> kinds@[j] != k,
        decreases kinds@.len() - i,
    {
        if kinds[i] == k {
            return true;
        }
        i = i + 1;
    }
    false
}

fn stored_char(b: Block, open: &Vec<u8>) -> (r: char)
    ensures
        r == stored_glyph(b, open@),
{
    if let Block::Door { kind } = b {
        if kind_listed(open, kind) {
            return if kind == 0 {
                '!'
            } else {
                '@'
            };
        }
    }
    block_to_char(b)
}

/// The glyph rows of one floor.
fn encode_floor_rows(fl: &Floor, open: &Vec<u8>) -> (r: FloorRows)
    requires
        fl.width * fl.height <= fl.blocks@.len(),
    ensures
        floor_rows(r) == encode_floor(*fl, open@),
{
    let ghost want = encode_floor(*fl, open@);
    let n = fl.blocks.len();
    let mut rows: Vec<String> = Vec::new();
    let mut y: usize = 0;
    while y < fl.height
        invariant
            fl.width * fl.height <= fl.blocks@.len(),
            n == fl.blocks@.len(),
            want == encode_floor(*fl, open@),
            y <= fl.height,
            rows@.len() == y,
            forall|k: int| 0 <= k < y ==> (#[trigger] rows@[k])@ == want[k],
        decreases fl.height - y,
    {
        let mut row = String::new();
        let mut x: usize = 0;
        while x < fl.width
            invariant
                fl.width * fl.height <= fl.blocks@.len(),
                n == fl.blocks@.len(),
                y < fl.height,
                x <= fl.width,
                row@ == Seq::new(x as nat, |i: int| stored_glyph(fl.blocks@[y * fl.width + i], open@)),
            decreases fl.width - x,
        {
            proof {
                crate::dungeon::lemma_cell_index(fl.width as int, fl.height as int, x as int, y as int);
                assert(0 <= y * fl.width <= y * fl.width + x) by (nonlinear_arith)
                    requires
                        0 <= y,
                        0 <= fl.width,
                        0 <= x,
                ;
            }
            let idx = y * fl.width + x;
            let c = stored_char(fl.blocks[idx], open);
            let g = char_text(c);
            row.append(g.as_str());
            assert(row@ =~= Seq::new((x + 1) as nat, |i: int| stored_glyph(fl.blocks@[y * fl.width + i], open@)));
            x = x + 1;
        }
        rows.push(row);
        y = y + 1;
    }
    let r = FloorRows { rows };
    assert(floor_rows(r) =~= want);
    r
}

/// Store a level: every floor's blocks become glyph rows (open-kind doors as
/// `!`/`@`), everything else is kept as it is.
pub fn map_from_level(data: LevelData) -> (r: MapFile)
    requires
        grids_held(data.level),
    ensures
        encodes(data, r),
{
    let width = data.width();
    let height = data.height();
    let ghost lv = data.level;
    let ghost open = data.open_doors@;
    let mut floors: Vec<FloorRows> = Vec::new();
    let mut f: usize = 0;
    while f < data.level.floors.len()
        invariant
            lv == data.level,
            open == data.open_doors@,
            grids_held(lv),
            f <= lv.floors@.len(),
            floors@.len() == f,
            forall|k: int| 0 <= k < f ==> floor_rows(#[trigger] floors@[k]) == encode_floor(lv.floors@[k], open),
        decreases lv.floors@.len() - f,
    {
        assert(lv.floors@[f as int].width * lv.floors@[f as int].height <= lv.floors@[f as int].blocks@.len());
        let fr = encode_floor_rows(&data.level.floors[f], &data.open_doors);
        floors.push(fr);
        f = f + 1;
    }
    let ghost d0 = data;
    let LevelData { start, start_facing, items, monsters, wall_texts, stairs_links, events, bgm, .. } = data;
    let r = MapFile {
        width,
        height,
        start_x: start.x,
        start_y: start.y,
        start_floor: start.floor,
        start_facing,
        floors,
        items,
        monsters,
        wall_texts,
        stairs_links,
        events,
        bgm,
    };
    assert(rows_of(r) =~= lv.floors@.map_values(|fl: Floor| encode_floor(fl, open)));
    r
}

/// A door of kind `k` stands somewhere in the level.
pub open spec fn has_door(lv: Level, k: u8) -> bool {
    exists|x: int, y: int, f: int| #[trigger] lv.spec_cell(x, y, f) == Some(Block::Door { kind: k })
}

/// Every door of the level is of a kind the project allows.
pub open spec fn blocks_storable(lv: Level, door_kinds: usize) -> bool {
    forall|f: int, i: int|
        0 <= f < lv.floors@.len() && 0 <= i < lv.floors@[f].blocks@.len() ==> {
            let b = #[trigger] lv.floors@[f].blocks@[i];
            b matches Block::Door { kind } ==> (kind as int) < door_kinds
        }
}

/// Door kinds that start open, as a stored level can say them: ascending,
/// among 0 (`!`) and 1 (`@`).
pub open spec fn open_doors_listed(open: Seq<u8>) -> bool {
    open == Seq::<u8>::empty() || open == seq![0u8] || open == seq![1u8] || open == seq![0u8, 1u8]
}

/// A level that survives being stored and read back: at least one and at
/// most the configured number of floors, all of floor 0's size (within the
/// configured size) and fully stored; only doors of kinds below the
/// configured kinds; open door kinds ascending among 0 and 1, each with a
/// door; the start and the placements as the loader demands.
pub open spec fn level_storable(ld: LevelData, limits: LimitsConfig) -> bool {
    let floors = ld.level.floors@;
    let lv = ld.level;
    &&& 0 < floors.len() <= limits.floors_per_level
    &&& floors[0].width <= limits.floor_width && floors[0].height <= limits.floor_height
    &&& forall|f: int|
        0 <= f < floors.len() ==> (#[trigger] floors[f]).width == floors[0].width && floors[f].height
            == floors[0].height && floors[f].wf()
    &&& blocks_storable(lv, limits.door_kinds_per_level)
    &&& open_doors_listed(ld.open_doors@)
    &&& forall|k: u8| #[trigger] ld.open_doors@.contains(k) ==> has_door(lv, k)
    &&& ld.start.floor < floors.len()
    &&& lv.spec_block_at(ld.start) is Some
    &&& lv.spec_block_at(ld.start) != Some(Block::Wall)
    &&& lv.spec_is_supported(ld.start.x as int, ld.start.y as int, ld.start.floor as int)
    &&& ld.items@.len() <= limits.item_placements_per_level
    &&& forall|i: int|
        0 <= i < ld.items@.len() ==> lv.spec_cell(
            (#[trigger] ld.items@[i]).x as int,
            ld.items@[i].y as int,
            ld.items@[i].floor as int,
        ) is Some
    &&& ld.monsters@.len() <= limits.monster_placements_per_level
    &&& distinct_count(placement_ids(ld.monsters@)) <= limits.monster_kinds_per_level
    &&& forall|i: int|
        0 <= i < ld.monsters@.len() ==> lv.spec_cell(
            (#[trigger] ld.monsters@[i]).x as int,
            ld.monsters@[i].y as int,
            ld.monsters@[i].floor as int,
        ) is Some
}

/// Two in-memory levels hold the same data.
pub open spec fn same_level(a: LevelData, b: LevelData) -> bool {
    &&& a.start == b.start
    &&& a.start_facing == b.start_facing
    &&& a.level.floors@.len() == b.level.floors@.len()
    &&& forall|f: int|
        0 <= f < a.level.floors@.len() ==> (#[trigger] a.level.floors@[f]).width == b.level.floors@[f].width
            && a.level.floors@[f].height == b.level.floors@[f].height && a.level.floors@[f].blocks@
            == b.level.floors@[f].blocks@
    &&& a.items@ == b.items@
    &&& a.monsters@ == b.monsters@
    &&& a.wall_texts@ == b.wall_texts@
    &&& a.stairs_links@ == b.stairs_links@
    &&& a.events@ == b.events@
    &&& a.open_doors@ == b.open_doors@
    &&& a.bgm == b.bgm
}

/// Only door kinds 0 and 1 have a door-open glyph (`!` and `@`).
spec fn open_glyph_kinds(open: Seq<u8>) -> bool {
    forall|k: u8| #[trigger] open.contains(k) ==> k <= 1
}

proof fn lemma_storable_open(open: Seq<u8>)
    requires
        open_doors_listed(open),
    ensures
        open_glyph_kinds(open),
{
    assert forall|k: u8| #[trigger] open.contains(k) implies k <= 1 by {
        let j = choose|j: int| 0 <= j < open.len() && open[j] == k;
        if open == seq![0u8, 1u8] {
            assert(open[0] == 0u8 && open[1] == 1u8);
        }
    }
}

proof fn lemma_stored_glyph(b: Block, open: Seq<u8>)
    requires
        open_glyph_kinds(open),
    ensures
        glyph_block(stored_glyph(b, open)) == Some(b),
        stored_glyph(b, open) == '!' <==> (b == Block::Door { kind: 0 } && open.contains(0)),
        stored_glyph(b, open) == '@' <==> (b == Block::Door { kind: 1 } && open.contains(1)),
{
    lemma_block_round_trip(b);
}

/// The row `y` of a stored floor: its glyphs from the blocks `y·w .. y·w+w`.
proof fn lemma_encoded_row(fl: Floor, open: Seq<u8>, fi: int, y: int, door_kinds: usize)
    requires
        open_glyph_kinds(open),
        fl.wf(),
        0 <= y < fl.height,
        forall|i: int| 0 <= i < fl.blocks@.len() ==> ((#[trigger] fl.blocks@[i]) matches Block::Door { kind } ==> (kind as int)
            < door_kinds),
    ensures
        row_error(fi, y, encode_floor(fl, open)[y], fl.width, door_kinds) is None,
        decode_row(encode_floor(fl, open)[y]) == fl.blocks@.subrange(y * fl.width, y * fl.width + fl.width),
{
    let w = fl.width as int;
    let row = encode_floor(fl, open)[y];
    assert forall|x: int| 0 <= x < w implies #[trigger] glyph_block(row[x]) == Some(fl.blocks@[y * w + x]) by {
        crate::dungeon::lemma_cell_index(w, fl.height as int, x, y);
        lemma_stored_glyph(fl.blocks@[y * w + x], open);
    }
    assert(0 <= y * w && y * w + w <= fl.blocks@.len()) by (nonlinear_arith)
        requires
            0 <= y < fl.height,
            0 <= w,
            fl.blocks@.len() == w * fl.height,
    ;
    lemma_cells_ok(fl, open, fi, y, 0, door_kinds);
    assert(decode_row(row) =~= fl.blocks@.subrange(y * w, y * w + w));
}

proof fn lemma_cells_ok(fl: Floor, open: Seq<u8>, fi: int, y: int, x: int, door_kinds: usize)
    requires
        open_glyph_kinds(open),
        fl.wf(),
        0 <= y < fl.height,
        0 <= x <= fl.width,
        forall|i: int| 0 <= i < fl.blocks@.len() ==> ((#[trigger] fl.blocks@[i]) matches Block::Door { kind } ==> (kind as int)
            < door_kinds),
    ensures
        cells_error(fi, y, encode_floor(fl, open)[y], x, door_kinds) is None,
    decreases fl.width - x,
{
    if x < fl.width {
        crate::dungeon::lemma_cell_index(fl.width as int, fl.height as int, x, y);
        lemma_stored_glyph(fl.blocks@[y * fl.width + x], open);
        lemma_cells_ok(fl, open, fi, y, x + 1, door_kinds);
    }
}

proof fn lemma_rows_ok(fl: Floor, open: Seq<u8>, fi: int, y: int, door_kinds: usize)
    requires
        open_glyph_kinds(open),
        fl.wf(),
        0 <= y <= fl.height,
        forall|i: int| 0 <= i < fl.blocks@.len() ==> ((#[trigger] fl.blocks@[i]) matches Block::Door { kind } ==> (kind as int)
            < door_kinds),
    ensures
        rows_error(fi, encode_floor(fl, open), y, fl.width, door_kinds) is None,
    decreases fl.height - y,
{
    if y < fl.height {
        lemma_encoded_row(fl, open, fi, y, door_kinds);
        lemma_rows_ok(fl, open, fi, y + 1, door_kinds);
    }
}

proof fn lemma_decode_prefix(fl: Floor, open: Seq<u8>, k: int, door_kinds: usize)
    requires
        open_glyph_kinds(open),
        fl.wf(),
        0 <= k <= fl.height,
        forall|i: int| 0 <= i < fl.blocks@.len() ==> ((#[trigger] fl.blocks@[i]) matches Block::Door { kind } ==> (kind as int)
            < door_kinds),
    ensures
        0 <= k * fl.width <= fl.blocks@.len(),
        decode_rows(encode_floor(fl, open).take(k)) == fl.blocks@.subrange(0, k * fl.width),
    decreases k,
{
    let w = fl.width as int;
    let h = fl.height as int;
    assert(0 <= k * w <= h * w) by (nonlinear_arith)
        requires
            0 <= k <= h,
            0 <= w,
    ;
    assert(h * w == w * h) by (nonlinear_arith);
    let rows = encode_floor(fl, open);
    if k == 0 {
        assert(k * w == 0) by (nonlinear_arith)
            requires
                k == 0,
        ;
        assert(decode_rows(rows.take(0)) =~= Seq::<Block>::empty());
        assert(fl.blocks@.subrange(0, 0) =~= Seq::<Block>::empty());
    } else {
        lemma_decode_prefix(fl, open, k - 1, door_kinds);
        lemma_encoded_row(fl, open, 0, k - 1, door_kinds);
        assert(rows.take(k).drop_last() =~= rows.take(k - 1));
        assert(rows.take(k).last() == rows[k - 1]);
        assert(decode_rows(rows.take(k)) == decode_rows(rows.take(k - 1)) + decode_row(rows[k - 1]));
        assert((k - 1) * w + w == k * w) by (nonlinear_arith);
        assert(decode_row(rows[k - 1]) == fl.blocks@.subrange((k - 1) * w, k * w));
        assert(fl.blocks@.subrange(0, (k - 1) * w) + fl.blocks@.subrange((k - 1) * w, k * w)
            =~= fl.blocks@.subrange(0, k * w));
    }
}

/// A stored floor reads back as the same blocks, without errors.
proof fn lemma_floor_round_trip(fl: Floor, open: Seq<u8>, fi: int, door_kinds: usize)
    requires
        open_glyph_kinds(open),
        fl.wf(),
        forall|i: int| 0 <= i < fl.blocks@.len() ==> ((#[trigger] fl.blocks@[i]) matches Block::Door { kind } ==> (kind as int)
            < door_kinds),
    ensures
        floor_error(fi, encode_floor(fl, open), fl.width, fl.height, door_kinds) is None,
        decode_rows(encode_floor(fl, open)) == fl.blocks@,
{
    lemma_rows_ok(fl, open, fi, 0, door_kinds);
    lemma_decode_prefix(fl, open, fl.height as int, door_kinds);
    let rows = encode_floor(fl, open);
    assert(rows.take(fl.height as int) =~= rows);
    assert(fl.height * fl.width == fl.width * fl.height) by (nonlinear_arith);
    assert(fl.blocks@.subrange(0, fl.blocks@.len() as int) =~= fl.blocks@);
}

proof fn lemma_floor_glyphs_contains(rows: Seq<Seq<char>>, c: char)
    ensures
        floor_glyphs(rows).contains(c) <==> exists|y: int, x: int|
            0 <= y < rows.len() && 0 <= x < rows[y].len() && #[trigger] rows[y][x] == c,
    decreases rows.len(),
{
    if rows.len() > 0 {
        let init = rows.drop_last();
        lemma_floor_glyphs_contains(init, c);
        lemma_contains_concat(floor_glyphs(init), rows.last(), c);
        if floor_glyphs(rows).contains(c) {
            if floor_glyphs(init).contains(c) {
                let (y, x) = choose|y: int, x: int| 0 <= y < init.len() && 0 <= x < init[y].len() && #[trigger] init[y][x] == c;
                assert(rows[y][x] == c);
            } else {
                let x = choose|x: int| 0 <= x < rows.last().len() && rows.last()[x] == c;
                assert(rows[rows.len() - 1][x] == c);
            }
        }
        if exists|y: int, x: int| 0 <= y < rows.len() && 0 <= x < rows[y].len() && #[trigger] rows[y][x] == c {
            let (y, x) = choose|y: int, x: int| 0 <= y < rows.len() && 0 <= x < rows[y].len() && #[trigger] rows[y][x] == c;
            if y < rows.len() - 1 {
                assert(init[y][x] == c);
            } else {
                assert(rows.last()[x] == c);
            }
        }
    }
}

proof fn lemma_map_glyphs_contains(floors: Seq<Seq<Seq<char>>>, c: char)
    ensures
        map_glyphs(floors).contains(c) <==> exists|f: int, y: int, x: int|
            0 <= f < floors.len() && 0 <= y < floors[f].len() && 0 <= x < floors[f][y].len()
                && #[trigger] floors[f][y][x] == c,
    decreases floors.len(),
{
    if floors.len() > 0 {
        let init = floors.drop_last();
        lemma_map_glyphs_contains(init, c);
        lemma_floor_glyphs_contains(floors.last(), c);
        lemma_contains_concat(map_glyphs(init), floor_glyphs(floors.last()), c);
        if map_glyphs(floors).contains(c) {
            if map_glyphs(init).contains(c) {
                let (f, y, x) = choose|f: int, y: int, x: int|
                    0 <= f < init.len() && 0 <= y < init[f].len() && 0 <= x < init[f][y].len()
                        && #[trigger] init[f][y][x] == c;
                assert(floors[f][y][x] == c);
            } else {
                let (y, x) = choose|y: int, x: int|
                    0 <= y < floors.last().len() && 0 <= x < floors.last()[y].len() && #[trigger] floors.last()[y][x] == c;
                assert(floors[floors.len() - 1][y][x] == c);
            }
        }
        if exists|f: int, y: int, x: int|
            0 <= f < floors.len() && 0 <= y < floors[f].len() && 0 <= x < floors[f][y].len()
                && #[trigger] floors[f][y][x] == c {
            let (f, y, x) = choose|f: int, y: int, x: int|
                0 <= f < floors.len() && 0 <= y < floors[f].len() && 0 <= x < floors[f][y].len()
                    && #[trigger] floors[f][y][x] == c;
            if f < floors.len() - 1 {
                assert(init[f][y][x] == c);
            } else {
                assert(floors.last()[y][x] == c);
            }
        }
    }
}

proof fn lemma_grid_ok(ld: LevelData, limits: LimitsConfig, fi: int)
    requires
        level_storable(ld, limits),
        0 <= fi <= ld.level.floors@.len(),
    ensures
        grid_error(
            ld.level.floors@.map_values(|fl: Floor| encode_floor(fl, ld.open_doors@)),
            fi,
            ld.level.floors@[0].width,
            ld.level.floors@[0].height,
            limits.door_kinds_per_level,
        ) is None,
    decreases ld.level.floors@.len() - fi,
{
    let floors = ld.level.floors@;
    if fi < floors.len() {
        let fl = floors[fi];
        assert(fl.width == floors[0].width && fl.height == floors[0].height && fl.wf());
        assert forall|i: int| 0 <= i < fl.blocks@.len() implies ((#[trigger] fl.blocks@[i]) matches Block::Door { kind } ==> (kind as int)
            < limits.door_kinds_per_level) by {
            assert(ld.level.floors@[fi].blocks@[i] == fl.blocks@[i]);
        }
        lemma_storable_open(ld.open_doors@);
        lemma_floor_round_trip(fl, ld.open_doors@, fi, limits.door_kinds_per_level);
        lemma_grid_ok(ld, limits, fi + 1);
    }
}

proof fn lemma_items_inside(m: MapFile, i: int)
    requires
        0 <= i <= m.items@.len(),
        forall|k: int| 0 <= k < m.items@.len() ==> decoded_cell(
            m,
            (#[trigger] m.items@[k]).x as int,
            m.items@[k].y as int,
            m.items@[k].floor as int,
        ) is Some,
    ensures
        first_item_outside(m, i) is None,
    decreases m.items@.len() - i,
{
    if i < m.items@.len() {
        lemma_items_inside(m, i + 1);
    }
}

proof fn lemma_monsters_inside(m: MapFile, i: int)
    requires
        0 <= i <= m.monsters@.len(),
        forall|k: int| 0 <= k < m.monsters@.len() ==> decoded_cell(
            m,
            (#[trigger] m.monsters@[k]).x as int,
            m.monsters@[k].y as int,
            m.monsters@[k].floor as int,
        ) is Some,
    ensures
        first_monster_outside(m, i) is None,
    decreases m.monsters@.len() - i,
{
    if i < m.monsters@.len() {
        lemma_monsters_inside(m, i + 1);
    }
}

/// Storing a level and reading it back gives the same level: a storable
/// level's stored form `m` passes every check, and whatever it decodes to
/// holds the same data.
pub proof fn lemma_level_round_trip(ld: LevelData, m: MapFile, back: LevelData, limits: LimitsConfig)
    requires
        level_storable(ld, limits),
        encodes(ld, m),
    ensures
        spec_level_error(m, limits) is None,
        decodes_to(m, back) ==> same_level(back, ld),
{
    let floors = ld.level.floors@;
    let open = ld.open_doors@;
    let rows = rows_of(m);
    assert(rows == floors.map_values(|fl: Floor| encode_floor(fl, open)));
    lemma_storable_open(ld.open_doors@);
    lemma_grid_ok(ld, limits, 0);
    assert forall|f: int| 0 <= f < floors.len() implies decode_rows(#[trigger] rows[f]) == floors[f].blocks@ by {
        let fl = floors[f];
        assert(fl.wf());
        assert forall|i: int| 0 <= i < fl.blocks@.len() implies ((#[trigger] fl.blocks@[i]) matches Block::Door { kind } ==> (kind as int)
            < limits.door_kinds_per_level) by {
            assert(ld.level.floors@[f].blocks@[i] == fl.blocks@[i]);
        }
        lemma_floor_round_trip(fl, open, f, limits.door_kinds_per_level);
    }
    assert forall|x: int, y: int, f: int| #[trigger] decoded_cell(m, x, y, f) == ld.level.spec_cell(x, y, f) by {
        if 0 <= f < floors.len() {
            assert(decode_rows(rows[f]) == floors[f].blocks@);
        }
    }
    lemma_items_inside(m, 0);
    lemma_monsters_inside(m, 0);
    // the door-open glyphs
    lemma_map_glyphs_contains(rows, '!');
    lemma_map_glyphs_contains(rows, '@');
    assert forall|k: u8| (k == 0u8 || k == 1u8) implies (map_glyphs(rows).contains(
        if k == 0u8 { '!' } else { '@' },
    ) <==> open.contains(k)) by {
        let c = if k == 0u8 { '!' } else { '@' };
        if map_glyphs(rows).contains(c) {
            let (f, y, x) = choose|f: int, y: int, x: int|
                0 <= f < rows.len() && 0 <= y < rows[f].len() && 0 <= x < rows[f][y].len()
                    && #[trigger] rows[f][y][x] == c;
            let fl = floors[f];
            crate::dungeon::lemma_cell_index(fl.width as int, fl.height as int, x, y);
            let b = fl.blocks@[y * fl.width + x];
            assert(blocks_storable(ld.level, limits.door_kinds_per_level));
            lemma_stored_glyph(b, open);
        }
        if open.contains(k) {
            assert(has_door(ld.level, k));
            let (x, y, f) = choose|x: int, y: int, f: int| #[trigger] ld.level.spec_cell(x, y, f) == Some(
                Block::Door { kind: k },
            );
            let fl = floors[f];
            let b = fl.blocks@[y * fl.width + x];
            assert(b == Block::Door { kind: k });
            lemma_stored_glyph(b, open);
            assert(rows[f][y][x] == c);
        }
    }
    assert(map_glyphs(rows).contains('!') <==> open.contains(0u8));
    assert(map_glyphs(rows).contains('@') <==> open.contains(1u8));
    assert(open_doors_listed(open));
    assert(open_kinds(rows) =~= open) by {
        if open == seq![0u8, 1u8] {
            assert(open[0] == 0u8 && open[1] == 1u8);
        }
        if open == seq![0u8] {
            assert(open[0] == 0u8);
            assert(!open.contains(1u8));
        }
        if open == seq![1u8] {
            assert(open[0] == 1u8);
            assert(!open.contains(0u8));
        }
        if open == Seq::<u8>::empty() {
            assert(!open.contains(0u8) && !open.contains(1u8));
        }
    }
    if decodes_to(m, back) {
        assert forall|f: int| 0 <= f < back.level.floors@.len() implies (#[trigger] back.level.floors@[f]).width
            == ld.level.floors@[f].width && back.level.floors@[f].height == ld.level.floors@[f].height
            && back.level.floors@[f].blocks@ == ld.level.floors@[f].blocks@ by {
            assert(decode_rows(rows[f]) == floors[f].blocks@);
        }
    }
}

proof fn lemma_floors_accepted(floors: Seq<Seq<Seq<char>>>, fi: int, w: usize, h: usize, dk: usize)
    requires
        0 <= fi,
        grid_error(floors, fi, w, h, dk) is None,
    ensures
        forall|f: int| fi <= f < floors.len() ==> floor_error(f, #[trigger] floors[f], w, h, dk) is None,
    decreases floors.len() - fi,
{
    if fi < floors.len() {
        lemma_floors_accepted(floors, fi + 1, w, h, dk);
    }
}

proof fn lemma_rows_accepted(fi: int, rows: Seq<Seq<char>>, y: int, w: usize, dk: usize)
    requires
        0 <= y,
        rows_error(fi, rows, y, w, dk) is None,
    ensures
        forall|k: int| y <= k < rows.len() ==> row_error(fi, k, #[trigger] rows[k], w, dk) is None,
    decreases rows.len() - y,
{
    if y < rows.len() {
        lemma_rows_accepted(fi, rows, y + 1, w, dk);
    }
}

proof fn lemma_cells_accepted(fi: int, y: int, row: Seq<char>, x: int, dk: usize)
    requires
        0 <= x,
        cells_error(fi, y, row, x, dk) is None,
    ensures
        forall|k: int| x <= k < row.len() ==> cell_error(fi, y, k, #[trigger] row[k], dk) is None,
    decreases row.len() - x,
{
    if x < row.len() {
        lemma_cells_accepted(fi, y, row, x + 1, dk);
    }
}

/// A floor whose stored rows pass the reader's checks holds only doors of
/// the allowed kinds.
proof fn lemma_accepted_door_kinds(fl: Floor, open: Seq<u8>, fi: int, dk: usize)
    requires
        fl.wf(),
        open_glyph_kinds(open),
        floor_error(fi, encode_floor(fl, open), fl.width, fl.height, dk) is None,
    ensures
        forall|i: int| 0 <= i < fl.blocks@.len() ==> ((#[trigger] fl.blocks@[i]) matches Block::Door { kind } ==> (
        kind as int) < dk),
{
    let rows = encode_floor(fl, open);
    let w = fl.width as int;
    let h = fl.height as int;
    lemma_rows_accepted(fi, rows, 0, fl.width, dk);
    assert forall|i: int| 0 <= i < fl.blocks@.len() implies ((#[trigger] fl.blocks@[i]) matches Block::Door {
        kind,
    } ==> (kind as int) < dk) by {
        assert(w > 0) by (nonlinear_arith)
            requires
                fl.blocks@.len() == w * h,
                0 <= i < fl.blocks@.len(),
                0 <= h,
                0 <= w,
        ;
        let y = i / w;
        let x = i % w;
        vstd::arithmetic::div_mod::lemma_fundamental_div_mod(i, w);
        assert(0 <= x < w);
        assert(0 <= y < h) by (nonlinear_arith)
            requires
                i == w * y + x,
                0 <= x < w,
                0 <= i < w * h,
        ;
        assert(y * w + x == i) by (nonlinear_arith)
            requires
                i == w * y + x,
        ;
        assert(row_error(fi, y, rows[y], fl.width, dk) is None);
        lemma_cells_accepted(fi, y, rows[y], 0, dk);
        assert(rows[y][x] == stored_glyph(fl.blocks@[i], open));
        assert(cell_error(fi, y, x, rows[y][x], dk) is None);
        lemma_stored_glyph(fl.blocks@[i], open);
    }
}

proof fn lemma_items_placed(m: MapFile, i: int)
    requires
        0 <= i,
        first_item_outside(m, i) is None,
    ensures
        forall|k: int| i <= k < m.items@.len() ==> decoded_cell(
            m,
            (#[trigger] m.items@[k]).x as int,
            m.items@[k].y as int,
            m.items@[k].floor as int,
        ) is Some,
    decreases m.items@.len() - i,
{
    if i < m.items@.len() {
        lemma_items_placed(m, i + 1);
    }
}

proof fn lemma_monsters_placed(m: MapFile, i: int)
    requires
        0 <= i,
        first_monster_outside(m, i) is None,
    ensures
        forall|k: int| i <= k < m.monsters@.len() ==> decoded_cell(
            m,
            (#[trigger] m.monsters@[k]).x as int,
            m.monsters@[k].y as int,
            m.monsters@[k].floor as int,
        ) is Some,
    decreases m.monsters@.len() - i,
{
    if i < m.monsters@.len() {
        lemma_monsters_placed(m, i + 1);
    }
}

/// Storing a level and reading it back gives the same level whenever the
/// reader accepts the stored form: for a level whose floors all have floor
/// 0's size and hold exactly their `width * height` blocks, whose open door
/// kinds are listed ascending among 0 and 1 and each have a door, and whose
/// stored form `m` passes every check under `limits`, whatever `m` decodes
/// to holds the same data (and such a level is [`level_storable`]).
pub proof fn lemma_accepted_level_round_trip(ld: LevelData, m: MapFile, back: LevelData, limits: LimitsConfig)
    requires
        encodes(ld, m),
        spec_level_error(m, limits) is None,
        forall|f: int|
            0 <= f < ld.level.floors@.len() ==> (#[trigger] ld.level.floors@[f]).width == ld.level.floors@[0].width
                && ld.level.floors@[f].height == ld.level.floors@[0].height && ld.level.floors@[f].wf(),
        open_doors_listed(ld.open_doors@),
        forall|k: u8| #[trigger] ld.open_doors@.contains(k) ==> has_door(ld.level, k),
    ensures
        level_storable(ld, limits),
        decodes_to(m, back) ==> same_level(back, ld),
{
    let floors = ld.level.floors@;
    let open = ld.open_doors@;
    let rows = rows_of(m);
    let dk = limits.door_kinds_per_level;
    assert(rows == floors.map_values(|fl: Floor| encode_floor(fl, open)));
    assert(rows.len() == m.floors@.len());
    lemma_storable_open(open);
    lemma_floors_accepted(rows, 0, m.width, m.height, dk);
    assert forall|f: int, i: int| 0 <= f < floors.len() && 0 <= i < floors[f].blocks@.len() implies {
        let b = #[trigger] floors[f].blocks@[i];
        b matches Block::Door { kind } ==> (kind as int) < dk
    } by {
        let fl = floors[f];
        assert(rows[f] == encode_floor(fl, open));
        assert(floor_error(f, rows[f], m.width, m.height, dk) is None);
        lemma_accepted_door_kinds(fl, open, f, dk);
        assert(fl.blocks@[i] == floors[f].blocks@[i]);
    }
    assert(blocks_storable(ld.level, dk));
    assert forall|f: int| 0 <= f < floors.len() implies decode_rows(#[trigger] rows[f]) == floors[f].blocks@ by {
        let fl = floors[f];
        assert forall|i: int| 0 <= i < fl.blocks@.len() implies ((#[trigger] fl.blocks@[i]) matches Block::Door {
            kind,
        } ==> (kind as int) < dk) by {
            assert(ld.level.floors@[f].blocks@[i] == fl.blocks@[i]);
        }
        lemma_floor_round_trip(fl, open, f, dk);
    }
    assert forall|x: int, y: int, f: int| #[trigger] decoded_cell(m, x, y, f) == ld.level.spec_cell(x, y, f) by {
        if 0 <= f < floors.len() {
            assert(decode_rows(rows[f]) == floors[f].blocks@);
        }
    }
    let st = ld.start;
    assert(start_error(m) is None);
    assert(decoded_cell(m, st.x as int, st.y as int, st.floor as int) == ld.level.spec_cell(
        st.x as int,
        st.y as int,
        st.floor as int,
    ));
    assert(decoded_cell(m, st.x as int, st.y as int, st.floor - 1) == ld.level.spec_cell(
        st.x as int,
        st.y as int,
        st.floor - 1,
    ));
    assert(placement_error(m, limits) is None);
    lemma_items_placed(m, 0);
    lemma_monsters_placed(m, 0);
    assert forall|i: int| 0 <= i < ld.items@.len() implies ld.level.spec_cell(
        (#[trigger] ld.items@[i]).x as int,
        ld.items@[i].y as int,
        ld.items@[i].floor as int,
    ) is Some by {
        assert(m.items@[i] == ld.items@[i]);
    }
    assert forall|i: int| 0 <= i < ld.monsters@.len() implies ld.level.spec_cell(
        (#[trigger] ld.monsters@[i]).x as int,
        ld.monsters@[i].y as int,
        ld.monsters@[i].floor as int,
    ) is Some by {
        assert(m.monsters@[i] == ld.monsters@[i]);
    }
    assert(level_storable(ld, limits));
    lemma_level_round_trip(ld, m, back, limits);
}

/// "`what` has `count` `noun`, exceeds `limit_name` `limit`".
pub open spec fn over_limit_message(what: Seq<char>, count: nat, noun: Seq<char>, limit_name: Seq<char>, limit: nat) -> Seq<char> {
    what + " has "@ + decimal(count) + " "@ + noun + ", exceeds "@ + limit_name + " "@ + decimal(limit)
}

fn over_limit_text(what: &str, count: usize, noun: &str, limit_name: &str, limit: usize) -> (r: String)
    ensures
        r@ == over_limit_message(what@, count as nat, noun@, limit_name@, limit as nat),
{
    proof {
        reveal_strlit(" has ");
        reveal_strlit(" ");
        reveal_strlit(", exceeds ");
    }
    let a = cat4(what, " has ", u64_text(count as u64).as_str(), " ");
    let b = cat4(a.as_str(), noun, ", exceeds ", limit_name);
    cat3(b.as_str(), " ", u64_text(limit as u64).as_str())
}

pub open spec fn character_ids(cs: Seq<Character>) -> Seq<Seq<char>> {
    cs.map_values(|c: Character| c.id@)
}

fn character_id_list(cs: &Vec<Character>) -> (r: Vec<String>)
    ensures
        texts(r@) == character_ids(cs@),
{
    let mut r: Vec<String> = Vec::new();
    let mut i: usize = 0;
    while i < cs.len()
        invariant
            i <= cs@.len(),
            r@.len() == i,
            forall|k: int| 0 <= k < i ==> (#[trigger] r@[k])@ == cs@[k].id@,
        decreases cs@.len() - i,
    {
        r.push(cs[i].id.clone());
        i = i + 1;
    }
    assert(texts(r@) =~= character_ids(cs@));
    r
}

/// Check registered characters against the limits: at most `max_characters`,
/// ids distinct (the error names the first repeated id).
pub fn check_characters(characters: &Vec<Character>, limits: &LimitsConfig, what: &str) -> (r: Result<(), String>)
    ensures
        if characters@.len() > limits.max_characters {
            r matches Err(e) && e@ == over_limit_message(what@, characters@.len(), "characters"@, "max_characters"@, limits.max_characters as nat)
        } else {
            match first_duplicate(character_ids(characters@)) {
                Some(k) => r matches Err(e) && e@ == what@ + ": duplicate character id '"@ + characters@[k].id@ + "'"@,
                None => r is Ok,
            }
        },
{
    if characters.len() > limits.max_characters {
        proof {
            reveal_strlit("characters");
            reveal_strlit("max_characters");
        }
        return Err(over_limit_text(what, characters.len(), "characters", "max_characters", limits.max_characters));
    }
    let ids = character_id_list(characters);
    proof {
        crate::item::lemma_first_duplicate(character_ids(characters@));
    }
    match first_duplicate_index(&ids) {
        Some(k) => {
            let m = cat3(what, ": duplicate character id '", characters[k].id.as_str());
            Err(cat(m.as_str(), "'"))
        },
        None => Ok(()),
    }
}

/// Check item definitions against the limits: at most `max_item_kinds`, ids
/// distinct.
pub fn check_items(items: &Vec<ItemDef>, limits: &LimitsConfig, what: &str) -> (r: Result<(), String>)
    ensures
        if items@.len() > limits.max_item_kinds {
            r matches Err(e) && e@ == over_limit_message(what@, items@.len(), "item kinds"@, "max_item_kinds"@, limits.max_item_kinds as nat)
        } else {
            match first_duplicate(item_ids(items@)) {
                Some(k) => r matches Err(e) && e@ == what@ + ": duplicate item id '"@ + items@[k].id@ + "'"@,
                None => r is Ok,
            }
        },
{
    if items.len() > limits.max_item_kinds {
        proof {
            reveal_strlit("item kinds");
            reveal_strlit("max_item_kinds");
        }
        return Err(over_limit_text(what, items.len(), "item kinds", "max_item_kinds", limits.max_item_kinds));
    }
    let mut ids: Vec<String> = Vec::new();
    let mut i: usize = 0;
    while i < items.len()
        invariant
            i <= items@.len(),
            ids@.len() == i,
            forall|k: int| 0 <= k < i ==> (#[trigger] ids@[k])@ == items@[k].id@,
        decreases items@.len() - i,
    {
        ids.push(items[i].id.clone());
        i = i + 1;
    }
    assert(texts(ids@) =~= item_ids(items@));
    proof {
        crate::item::lemma_first_duplicate(item_ids(items@));
    }
    match first_duplicate_index(&ids) {
        Some(k) => {
            let m = cat3(what, ": duplicate item id '", items[k].id.as_str());
            Err(cat(m.as_str(), "'"))
        },
        None => Ok(()),
    }
}

/// Check monster definitions against the limits: at most
/// `max_monster_kinds`, ids distinct.
pub fn check_monsters(monsters: &Vec<MonsterDef>, limits: &LimitsConfig, what: &str) -> (r: Result<(), String>)
    ensures
        if monsters@.len() > limits.max_monster_kinds {
            r matches Err(e) && e@ == over_limit_message(what@, monsters@.len(), "monster kinds"@, "max_monster_kinds"@, limits.max_monster_kinds as nat)
        } else {
            match first_duplicate(monster_ids(monsters@)) {
                Some(k) => r matches Err(e) && e@ == what@ + ": duplicate monster id '"@ + monsters@[k].id@ + "'"@,
                None => r is Ok,
            }
        },
{
    if monsters.len() > limits.max_monster_kinds {
        proof {
            reveal_strlit("monster kinds");
            reveal_strlit("max_monster_kinds");
        }
        return Err(over_limit_text(what, monsters.len(), "monster kinds", "max_monster_kinds", limits.max_monster_kinds));
    }
    let ids = crate::monster::id_list(monsters);
    proof {
        crate::item::lemma_first_duplicate(monster_ids(monsters@));
    }
    match first_duplicate_index(&ids) {
        Some(k) => {
            let m = cat3(what, ": duplicate monster id '", monsters[k].id.as_str());
            Err(cat(m.as_str(), "'"))
        },
        None => Ok(()),
    }
}

/// Check magic definitions against the limits: at most `max_magic_kinds`,
/// ids distinct.
pub fn check_magics(magics: &Vec<MagicDef>, limits: &LimitsConfig, what: &str) -> (r: Result<(), String>)
    ensures
        if magics@.len() > limits.max_magic_kinds {
            r matches Err(e) && e@ == over_limit_message(what@, magics@.len(), "magic kinds"@, "max_magic_kinds"@, limits.max_magic_kinds as nat)
        } else {
            match first_duplicate(magic_ids(magics@)) {
                Some(k) => r matches Err(e) && e@ == what@ + ": duplicate magic id '"@ + magics@[k].id@ + "'"@,
                None => r is Ok,
            }
        },
{
    if magics.len() > limits.max_magic_kinds {
        proof {
            reveal_strlit("magic kinds");
            reveal_strlit("max_magic_kinds");
        }
        return Err(over_limit_text(what, magics.len(), "magic kinds", "max_magic_kinds", limits.max_magic_kinds));
    }
    let ids = crate::magic::magic_id_list(magics);
    proof {
        crate::item::lemma_first_duplicate(magic_ids(magics@));
    }
    match first_duplicate_index(&ids) {
        Some(k) => {
            let m = cat3(what, ": duplicate magic id '", magics[k].id.as_str());
            Err(cat(m.as_str(), "'"))
        },
        None => Ok(()),
    }
}

/// Whether some character in `cs` has id `id`.
pub open spec fn has_character(cs: Seq<Character>, id: Seq<char>) -> bool {
    exists|i: int| 0 <= i < cs.len() && (#[trigger] cs[i]).id@ == id
}

/// The first roster entry naming no character, from index `k` on.
pub open spec fn first_unknown_member(party: Seq<String>, cs: Seq<Character>, k: int) -> Option<int>
    decreases party.len() - k,
    when 0 <= k
{
    if k >= party.len() {
        None
    } else if !has_character(cs, party[k]@) {
        Some(k)
    } else {
        first_unknown_member(party, cs, k + 1)
    }
}

fn find_character(cs: &Vec<Character>, id: &String) -> (r: Option<usize>)
    ensures
        match r {
            Some(i) => i < cs@.len() && cs@[i as int].id@ == id@ && forall|j: int| 0 <= j < i ==> (#[trigger] cs@[j]).id@ != id@,
            None => !has_character(cs@, id@),
        },
{
    let mut i: usize = 0;
    while i < cs.len()
        invariant
            i <= cs@.len(),
            forall|j: int| 0 <= j < i ==> (#[trigger] cs@[j]).id@ != id@,
        decreases cs@.len() - i,
    {
        if cs[i].id == *id {
            return Some(i);
        }
        i = i + 1;
    }
    None
}

/// Validate the party roster: at most `party_size` members, every id a
/// registered character (the error names the first unknown one).
pub fn validate_party(party: &Vec<String>, characters: &Vec<Character>, limits: &LimitsConfig) -> (r: Result<(), String>)
    ensures
        if party@.len() > limits.party_size {
            r matches Err(e) && e@ == "party has "@ + decimal(party@.len()) + " members, exceeds party_size "@
                + decimal(limits.party_size as nat)
        } else {
            match first_unknown_member(party@, characters@, 0) {
                Some(k) => r matches Err(e) && e@ == "party references unknown character id '"@ + party@[k]@ + "'"@,
                None => r is Ok,
            }
        },
{
    if party.len() > limits.party_size {
        let a = cat3("party has ", u64_text(party.len() as u64).as_str(), " members, exceeds party_size ");
        return Err(cat(a.as_str(), u64_text(limits.party_size as u64).as_str()));
    }
    let mut i: usize = 0;
    while i < party.len()
        invariant
            i <= party@.len(),
            party@.len() <= limits.party_size,
            first_unknown_member(party@, characters@, 0) == first_unknown_member(party@, characters@, i as int),
        decreases party@.len() - i,
    {
        if find_character(characters, &party[i]).is_none() {
            let m = cat("party references unknown character id '", party[i].as_str());
            return Err(cat(m.as_str(), "'"));
        }
        i = i + 1;
    }
    Ok(())
}

/// One authored demo (message-scroll cutscene).
#[derive(Clone, Debug, PartialEq, Eq)]
pub struct DemoDef {
    pub id: String,
    pub name: String,
    /// The lines shown one by one.
    pub lines: Vec<String>,
    /// BGM file name while playing ("" = keep).
    pub bgm: String,
}

/// Why the demo `d` (at index `k`) is refused given the ids of the demos
/// before it: an empty id, an id already used, or too many lines.
pub open spec fn demo_error(d: DemoDef, earlier: Seq<Seq<char>>, limits: LimitsConfig, what: Seq<char>) -> Option<Seq<char>> {
    if d.id@.len() == 0 {
        Some(what + ": a demo has an empty id"@)
    } else if earlier.contains(d.id@) {
        Some(what + ": duplicate demo id '"@ + d.id@ + "'"@)
    } else if d.lines@.len() > limits.demo_message_lines {
        Some(what + ": demo '"@ + d.id@ + "' has "@ + decimal(d.lines@.len()) + " lines, exceeds demo_message_lines "@
            + decimal(limits.demo_message_lines as nat))
    } else {
        None
    }
}

pub open spec fn demo_ids(ds: Seq<DemoDef>) -> Seq<Seq<char>> {
    ds.map_values(|d: DemoDef| d.id@)
}

/// The first refused demo's error, from index `k` on.
pub open spec fn demos_error(ds: Seq<DemoDef>, limits: LimitsConfig, what: Seq<char>, k: int) -> Option<Seq<char>>
    decreases ds.len() - k,
    when 0 <= k
{
    if k >= ds.len() {
        None
    } else {
        match demo_error(ds[k], demo_ids(ds).take(k), limits, what) {
            Some(e) => Some(e),
            None => demos_error(ds, limits, what, k + 1),
        }
    }
}

/// Validate demos: at most `max_demos`, then each in order (see
/// [`demo_error`]).
pub fn check_demos(demos: &Vec<DemoDef>, limits: &LimitsConfig, what: &str) -> (r: Result<(), String>)
    ensures
        if demos@.len() > limits.max_demos {
            r matches Err(e) && e@ == what@ + " defines "@ + decimal(demos@.len()) + " demos, exceeds max_demos "@
                + decimal(limits.max_demos as nat)
        } else {
            match demos_error(demos@, *limits, what@, 0) {
                Some(msg) => r matches Err(e) && e@ == msg,
                None => r is Ok,
            }
        },
{
    if demos.len() > limits.max_demos {
        let a = cat3(what, " defines ", u64_text(demos.len() as u64).as_str());
        let b = cat3(a.as_str(), " demos, exceeds max_demos ", u64_text(limits.max_demos as u64).as_str());
        return Err(b);
    }
    let mut seen: Vec<String> = Vec::new();
    let mut i: usize = 0;
    while i < demos.len()
        invariant
            i <= demos@.len(),
            demos@.len() <= limits.max_demos,
            texts(seen@) == demo_ids(demos@).take(i as int),
            demos_error(demos@, *limits, what@, 0) == demos_error(demos@, *limits, what@, i as int),
        decreases demos@.len() - i,
    {
        let d = &demos[i];
        if d.id.as_str().unicode_len() == 0 {
            return Err(cat(what, ": a demo has an empty id"));
        }
        let found = position_of(&seen, &d.id);
        proof {
            crate::item::lemma_first_index_of(texts(seen@), d.id@);
        }
        if found.is_some() {
            proof {
                assert(texts(seen@)[found.unwrap() as int] == d.id@);
            }
            let m = cat3(what, ": duplicate demo id '", d.id.as_str());
            return Err(cat(m.as_str(), "'"));
        }
        if d.lines.len() > limits.demo_message_lines {
            let a = cat4(what, ": demo '", d.id.as_str(), "' has ");
            let b = cat3(a.as_str(), u64_text(d.lines.len() as u64).as_str(), " lines, exceeds demo_message_lines ");
            return Err(cat(b.as_str(), u64_text(limits.demo_message_lines as u64).as_str()));
        }
        seen.push(d.id.clone());
        assert(texts(seen@) =~= demo_ids(demos@).take(i as int + 1));
        i = i + 1;
    }
    Ok(())
}

/// The index of the first id (from index `k` on) not among `known`.
pub open spec fn first_missing(ids: Seq<Seq<char>>, known: Seq<Seq<char>>, k: int) -> Option<int>
    decreases ids.len() - k,
    when 0 <= k
{
    if k >= ids.len() {
        None
    } else if !known.contains(ids[k]) {
        Some(k)
    } else {
        first_missing(ids, known, k + 1)
    }
}

proof fn lemma_first_missing(ids: Seq<Seq<char>>, known: Seq<Seq<char>>, k: int)
    requires
        0 <= k,
    ensures
        first_missing(ids, known, k) matches Some(j) ==> k <= j < ids.len() && !known.contains(ids[j]),
    decreases ids.len() - k,
{
    if k < ids.len() {
        lemma_first_missing(ids, known, k + 1);
    }
}

fn is_known(known: &Vec<String>, id: &String) -> (r: bool)
    ensures
        r == texts(known@).contains(id@),
{
    let mut i: usize = 0;
    while i < known.len()
        invariant
            i <= known@.len(),
            forall|k: int| 0 <= k < i ==> (#[trigger] texts(known@)[k]) != id@,
        decreases known@.len() - i,
    {
        if known[i] == *id {
            assert(texts(known@)[i as int] == id@);
            return true;
        }
        i = i + 1;
    }
    false
}

/// The first id of `ids` (from `k` on) not among `known`.
fn find_missing(ids: &Vec<String>, known: &Vec<String>) -> (r: Option<usize>)
    ensures
        r == match first_missing(texts(ids@), texts(known@), 0) {
            Some(j) => Some(j as usize),
            None => None,
        },
{
    proof {
        lemma_first_missing(texts(ids@), texts(known@), 0);
    }
    let n = ids.len();
    let mut i: usize = 0;
    while i < ids.len()
        invariant
            i <= ids@.len(),
            first_missing(texts(ids@), texts(known@), 0) == first_missing(texts(ids@), texts(known@), i as int),
        decreases ids@.len() - i,
    {
        if !is_known(known, &ids[i]) {
            return Some(i);
        }
        i = i + 1;
    }
    None
}

pub open spec fn item_placement_ids(ps: Seq<ItemPlacement>) -> Seq<Seq<char>> {
    ps.map_values(|p: ItemPlacement| p.id@)
}

fn item_placement_id_list(ps: &Vec<ItemPlacement>) -> (r: Vec<String>)
    ensures
        texts(r@) == item_placement_ids(ps@),
{
    let mut r: Vec<String> = Vec::new();
    let mut i: usize = 0;
    while i < ps.len()
        invariant
            i <= ps@.len(),
            r@.len() == i,
            forall|k: int| 0 <= k < i ==> (#[trigger] r@[k])@ == ps@[k].id@,
        decreases ps@.len() - i,
    {
        r.push(ps[i].id.clone());
        i = i + 1;
    }
    assert(texts(r@) =~= item_placement_ids(ps@));
    r
}

fn monster_placement_id_list(ps: &Vec<MonsterPlacement>) -> (r: Vec<String>)
    ensures
        texts(r@) == placement_ids(ps@),
{
    let mut r: Vec<String> = Vec::new();
    let mut i: usize = 0;
    while i < ps.len()
        invariant
            i <= ps@.len(),
            r@.len() == i,
            forall|k: int| 0 <= k < i ==> (#[trigger] r@[k])@ == ps@[k].id@,
        decreases ps@.len() - i,
    {
        r.push(ps[i].id.clone());
        i = i + 1;
    }
    assert(texts(r@) =~= placement_ids(ps@));
    r
}

/// The names of the data files references are checked against.
#[derive(Clone, Debug, PartialEq, Eq)]
pub struct DataFiles {
    pub items: String,
    pub monsters: String,
    pub magics: String,
}

/// The first dangling reference of level `ld` (stored as `rel`): a placed
/// item, then a placed monster, that is not defined.
pub open spec fn level_reference_error(
    rel: Seq<char>,
    ld: LevelData,
    items: Seq<Seq<char>>,
    monsters: Seq<Seq<char>>,
    files: DataFiles,
) -> Option<Seq<char>> {
    let pi = item_placement_ids(ld.items@);
    let pm = placement_ids(ld.monsters@);
    match first_missing(pi, items, 0) {
        Some(k) => Some(rel + ": placed item '"@ + pi[k] + "' is not defined in "@ + files.items@),
        None => match first_missing(pm, monsters, 0) {
            Some(k) => Some(rel + ": placed monster '"@ + pm[k] + "' is not defined in "@ + files.monsters@),
            None => None,
        },
    }
}

/// The first dangling reference of character `c`: a starting item, then a
/// starting magic, that is not defined.
pub open spec fn character_reference_error(
    c: Character,
    items: Seq<Seq<char>>,
    magics: Seq<Seq<char>>,
    files: DataFiles,
) -> Option<Seq<char>> {
    let ci = texts(c.items@);
    let cm = texts(c.magics@);
    match first_missing(ci, items, 0) {
        Some(k) => Some("character '"@ + c.id@ + "' starting item '"@ + ci[k] + "' is not defined in "@ + files.items@),
        None => match first_missing(cm, magics, 0) {
            Some(k) => Some("character '"@ + c.id@ + "' starting magic '"@ + cm[k] + "' is not defined in "@ + files.magics@),
            None => None,
        },
    }
}

/// The dangling reference of item `d`: the magic it teaches is not defined.
pub open spec fn item_reference_error(d: ItemDef, magics: Seq<Seq<char>>, files: DataFiles) -> Option<Seq<char>> {
    match d.teaches {
        Some(id) => if !magics.contains(id@) {
            Some("item '"@ + d.id@ + "' teaches magic '"@ + id@ + "' not defined in "@ + files.magics@)
        } else {
            None
        },
        None => None,
    }
}

/// The first dangling reference of monster `m`: a carried item, then an
/// attack item, that is not defined.
pub open spec fn monster_reference_error(m: MonsterDef, items: Seq<Seq<char>>, files: DataFiles) -> Option<Seq<char>> {
    let all = texts(m.carry_items@) + texts(m.attack_items@);
    match first_missing(all, items, 0) {
        Some(k) => Some("monster '"@ + m.id@ + "' references unknown item '"@ + all[k] + "' in "@ + files.items@),
        None => None,
    }
}

/// The first dangling level reference, from the `k`-th (level, file name)
/// pair on (`n` pairs in all).
pub open spec fn levels_error(
    paths: Seq<String>,
    levels: Seq<LevelData>,
    items: Seq<Seq<char>>,
    monsters: Seq<Seq<char>>,
    files: DataFiles,
    n: int,
    k: int,
) -> Option<Seq<char>>
    decreases n - k,
{
    if k >= n {
        None
    } else {
        match level_reference_error(paths[k]@, levels[k], items, monsters, files) {
            Some(e) => Some(e),
            None => levels_error(paths, levels, items, monsters, files, n, k + 1),
        }
    }
}

/// The first dangling character reference, from the `k`-th character on.
pub open spec fn characters_error(cs: Seq<Character>, items: Seq<Seq<char>>, magics: Seq<Seq<char>>, files: DataFiles, k: int) -> Option<
    Seq<char>,
>
    decreases cs.len() - k,
    when 0 <= k
{
    if k >= cs.len() {
        None
    } else {
        match character_reference_error(cs[k], items, magics, files) {
            Some(e) => Some(e),
            None => characters_error(cs, items, magics, files, k + 1),
        }
    }
}

/// The first dangling scroll reference, from the `k`-th item on.
pub open spec fn items_error(ds: Seq<ItemDef>, magics: Seq<Seq<char>>, files: DataFiles, k: int) -> Option<Seq<char>>
    decreases ds.len() - k,
    when 0 <= k
{
    if k >= ds.len() {
        None
    } else {
        match item_reference_error(ds[k], magics, files) {
            Some(e) => Some(e),
            None => items_error(ds, magics, files, k + 1),
        }
    }
}

/// The first dangling monster reference, from the `k`-th monster on.
pub open spec fn monsters_error(ms: Seq<MonsterDef>, items: Seq<Seq<char>>, files: DataFiles, k: int) -> Option<Seq<char>>
    decreases ms.len() - k,
    when 0 <= k
{
    if k >= ms.len() {
        None
    } else {
        match monster_reference_error(ms[k], items, files) {
            Some(e) => Some(e),
            None => monsters_error(ms, items, files, k + 1),
        }
    }
}

/// The first dangling reference across a project's data: level placements
/// (levels paired with their file names, in order), characters' starting
/// items and magic, the magic scrolls teach, and monsters' items.
pub open spec fn reference_error(
    level_paths: Seq<String>,
    levels: Seq<LevelData>,
    characters: Seq<Character>,
    items: Seq<ItemDef>,
    monsters: Seq<MonsterDef>,
    magics: Seq<MagicDef>,
    files: DataFiles,
) -> Option<Seq<char>> {
    let ii = item_ids(items);
    let mi = monster_ids(monsters);
    let gi = magic_ids(magics);
    let nl = if level_paths.len() < levels.len() { level_paths.len() as int } else { levels.len() as int };
    let a = levels_error(level_paths, levels, ii, mi, files, nl, 0);
    let b = characters_error(characters, ii, gi, files, 0);
    let c = items_error(items, gi, files, 0);
    let d = monsters_error(monsters, ii, files, 0);
    if a is Some { a } else if b is Some { b } else if c is Some { c } else { d }
}

fn level_references(rel: &String, ld: &LevelData, items: &Vec<String>, monsters: &Vec<String>, files: &DataFiles) -> (r: Result<(), String>)
    ensures
        match level_reference_error(rel@, *ld, texts(items@), texts(monsters@), *files) {
            Some(e) => r matches Err(m) && m@ == e,
            None => r is Ok,
        },
{
    let pi = item_placement_id_list(&ld.items);
    proof {
        lemma_first_missing(texts(pi@), texts(items@), 0);
    }
    if let Some(k) = find_missing(&pi, items) {
        let a = cat4(rel.as_str(), ": placed item '", pi[k].as_str(), "' is not defined in ");
        return Err(cat(a.as_str(), files.items.as_str()));
    }
    let pm = monster_placement_id_list(&ld.monsters);
    proof {
        lemma_first_missing(texts(pm@), texts(monsters@), 0);
    }
    if let Some(k) = find_missing(&pm, monsters) {
        let a = cat4(rel.as_str(), ": placed monster '", pm[k].as_str(), "' is not defined in ");
        return Err(cat(a.as_str(), files.monsters.as_str()));
    }
    Ok(())
}

fn character_references(c: &Character, items: &Vec<String>, magics: &Vec<String>, files: &DataFiles) -> (r: Result<(), String>)
    ensures
        match character_reference_error(*c, texts(items@), texts(magics@), *files) {
            Some(e) => r matches Err(m) && m@ == e,
            None => r is Ok,
        },
{
    proof {
        lemma_first_missing(texts(c.items@), texts(items@), 0);
        lemma_first_missing(texts(c.magics@), texts(magics@), 0);
    }
    let ni = c.items.len();
    let nm = c.magics.len();
    if let Some(k) = find_missing(&c.items, items) {
        let a = cat4("character '", c.id.as_str(), "' starting item '", c.items[k].as_str());
        return Err(cat3(a.as_str(), "' is not defined in ", files.items.as_str()));
    }
    if let Some(k) = find_missing(&c.magics, magics) {
        let a = cat4("character '", c.id.as_str(), "' starting magic '", c.magics[k].as_str());
        return Err(cat3(a.as_str(), "' is not defined in ", files.magics.as_str()));
    }
    Ok(())
}

fn item_references(d: &ItemDef, magics: &Vec<String>, files: &DataFiles) -> (r: Result<(), String>)
    ensures
        match item_reference_error(*d, texts(magics@), *files) {
            Some(e) => r matches Err(m) && m@ == e,
            None => r is Ok,
        },
{
    if let Some(id) = &d.teaches {
        if !is_known(magics, id) {
            let a = cat4("item '", d.id.as_str(), "' teaches magic '", id.as_str());
            return Err(cat3(a.as_str(), "' not defined in ", files.magics.as_str()));
        }
    }
    Ok(())
}

fn monster_references(m: &MonsterDef, items: &Vec<String>, files: &DataFiles) -> (r: Result<(), String>)
    ensures
        match monster_reference_error(*m, texts(items@), *files) {
            Some(e) => r matches Err(msg) && msg@ == e,
            None => r is Ok,
        },
{
    let mut all = crate::monster::copy_texts(&m.carry_items);
    let ghost head = all@;
    let mut i: usize = 0;
    while i < m.attack_items.len()
        invariant
            i <= m.attack_items@.len(),
            head == m.carry_items@,
            all@ == head + m.attack_items@.take(i as int),
        decreases m.attack_items@.len() - i,
    {
        all.push(m.attack_items[i].clone());
        assert(m.attack_items@.take(i as int + 1) =~= m.attack_items@.take(i as int).push(m.attack_items@[i as int]));
        i = i + 1;
    }
    assert(m.attack_items@.take(m.attack_items@.len() as int) =~= m.attack_items@);
    assert(texts(all@) =~= texts(m.carry_items@) + texts(m.attack_items@));
    proof {
        lemma_first_missing(texts(all@), texts(items@), 0);
    }
    if let Some(k) = find_missing(&all, items) {
        let a = cat4("monster '", m.id.as_str(), "' references unknown item '", all[k].as_str());
        return Err(cat3(a.as_str(), "' in ", files.items.as_str()));
    }
    Ok(())
}

/// Check that every reference across a project's data names a defined item,
/// monster or magic (see [`reference_error`]).
pub fn check_references(
    level_paths: &Vec<String>,
    levels: &Vec<LevelData>,
    characters: &Vec<Character>,
    items: &Vec<ItemDef>,
    monsters: &Vec<MonsterDef>,
    magics: &Vec<MagicDef>,
    files: &DataFiles,
) -> (r: Result<(), String>)
    ensures
        match reference_error(level_paths@, levels@, characters@, items@, monsters@, magics@, *files) {
            Some(e) => r matches Err(m) && m@ == e,
            None => r is Ok,
        },
{
    let mut ii: Vec<String> = Vec::new();
    let mut k: usize = 0;
    while k < items.len()
        invariant
            k <= items@.len(),
            ii@.len() == k,
            forall|j: int| 0 <= j < k ==> (#[trigger] ii@[j])@ == items@[j].id@,
        decreases items@.len() - k,
    {
        ii.push(items[k].id.clone());
        k = k + 1;
    }
    assert(texts(ii@) =~= item_ids(items@));
    let mi = crate::monster::id_list(monsters);
    let gi = crate::magic::magic_id_list(magics);
    let ghost ti = item_ids(items@);
    let ghost tm = monster_ids(monsters@);
    let ghost tg = magic_ids(magics@);
    let nl = if level_paths.len() < levels.len() {
        level_paths.len()
    } else {
        levels.len()
    };
    let mut i: usize = 0;
    while i < nl
        invariant
            i <= nl,
            nl <= level_paths@.len(),
            nl <= levels@.len(),
            nl == (if level_paths@.len() < levels@.len() { level_paths@.len() as int } else { levels@.len() as int }),
            texts(ii@) == ti && texts(mi@) == tm,
            ti == item_ids(items@) && tm == monster_ids(monsters@) && tg == magic_ids(magics@),
            levels_error(level_paths@, levels@, ti, tm, *files, nl as int, 0) == levels_error(
                level_paths@,
                levels@,
                ti,
                tm,
                *files,
                nl as int,
                i as int,
            ),
        decreases nl - i,
    {
        match level_references(&level_paths[i], &levels[i], &ii, &mi, files) {
            Err(e) => {
                return Err(e);
            },
            Ok(()) => {},
        }
        i = i + 1;
    }
    let mut i: usize = 0;
    while i < characters.len()
        invariant
            i <= characters@.len(),
            texts(ii@) == ti && texts(gi@) == tg,
            ti == item_ids(items@) && tm == monster_ids(monsters@) && tg == magic_ids(magics@),
            levels_error(level_paths@, levels@, ti, tm, *files, nl as int, 0) is None,
            nl == (if level_paths@.len() < levels@.len() { level_paths@.len() as int } else { levels@.len() as int }),
            characters_error(characters@, ti, tg, *files, 0) == characters_error(characters@, ti, tg, *files, i as int),
        decreases characters@.len() - i,
    {
        match character_references(&characters[i], &ii, &gi, files) {
            Err(e) => {
                return Err(e);
            },
            Ok(()) => {},
        }
        i = i + 1;
    }
    let mut i: usize = 0;
    while i < items.len()
        invariant
            i <= items@.len(),
            texts(gi@) == tg,
            ti == item_ids(items@) && tm == monster_ids(monsters@) && tg == magic_ids(magics@),
            levels_error(level_paths@, levels@, ti, tm, *files, nl as int, 0) is None,
            nl == (if level_paths@.len() < levels@.len() { level_paths@.len() as int } else { levels@.len() as int }),
            characters_error(characters@, ti, tg, *files, 0) is None,
            items_error(items@, tg, *files, 0) == items_error(items@, tg, *files, i as int),
        decreases items@.len() - i,
    {
        match item_references(&items[i], &gi, files) {
            Err(e) => {
                return Err(e);
            },
            Ok(()) => {},
        }
        i = i + 1;
    }
    let mut i: usize = 0;
    while i < monsters.len()
        invariant
            i <= monsters@.len(),
            texts(ii@) == ti,
            ti == item_ids(items@) && tm == monster_ids(monsters@) && tg == magic_ids(magics@),
            levels_error(level_paths@, levels@, ti, tm, *files, nl as int, 0) is None,
            nl == (if level_paths@.len() < levels@.len() { level_paths@.len() as int } else { levels@.len() as int }),
            characters_error(characters@, ti, tg, *files, 0) is None,
            items_error(items@, tg, *files, 0) is None,
            monsters_error(monsters@, ti, *files, 0) == monsters_error(monsters@, ti, *files, i as int),
        decreases monsters@.len() - i,
    {
        match monster_references(&monsters[i], &ii, files) {
            Err(e) => {
                return Err(e);
            },
            Ok(()) => {},
        }
        i = i + 1;
    }
    Ok(())
}

/// The project format version this build writes; versions 1 to this one load.
pub const PROJECT_VERSION: u32 = 8;

/// A loaded project: metadata, limits, levels, characters and party roster,
/// item / monster / magic definitions, rules, starting flags, demos, and the
/// data file names it was loaded from (empty: the conventional name is used
/// when there is data to save).
#[derive(Clone, Debug)]
pub struct Project {
    pub dir: String,
    pub name: String,
    pub author: String,
    pub description: String,
    pub limits: LimitsConfig,
    pub level_paths: Vec<String>,
    pub levels: Vec<LevelData>,
    pub characters: Vec<Character>,
    pub party: Vec<String>,
    pub items: Vec<ItemDef>,
    pub monsters: Vec<MonsterDef>,
    pub magics: Vec<MagicDef>,
    pub rules: RulesConfig,
    pub initial_flags: Vec<usize>,
    pub demos: Vec<DemoDef>,
    pub characters_path: String,
    pub items_path: String,
    pub monsters_path: String,
    pub magics_path: String,
    pub demos_path: String,
}

/// Why a project's metadata (read from `path`) is refused: an unsupported
/// version, no levels, or more levels than configured.
pub open spec fn meta_error(path: Seq<char>, version: u32, levels: nat, max_levels: nat) -> Option<Seq<char>> {
    if version == 0 || version > PROJECT_VERSION {
        Some(path + ": unsupported project version "@ + decimal(version as nat) + " (this build reads versions 1..="@
            + decimal(PROJECT_VERSION as nat) + ")"@)
    } else if levels == 0 {
        Some(path + " lists no levels"@)
    } else if levels > max_levels {
        Some(path + " lists "@ + decimal(levels) + " levels, exceeds max_levels "@ + decimal(max_levels))
    } else {
        None
    }
}

/// Check a project's metadata (see [`meta_error`]).
pub fn check_meta(path: &str, version: u32, levels: &Vec<String>, limits: &LimitsConfig) -> (r: Result<(), String>)
    ensures
        match meta_error(path@, version, levels@.len(), limits.max_levels as nat) {
            Some(e) => r matches Err(m) && m@ == e,
            None => r is Ok,
        },
{
    if version == 0 || version > PROJECT_VERSION {
        let a = cat3(path, ": unsupported project version ", u64_text(version as u64).as_str());
        let b = cat3(a.as_str(), " (this build reads versions 1..=", u64_text(PROJECT_VERSION as u64).as_str());
        return Err(cat(b.as_str(), ")"));
    }
    if levels.len() == 0 {
        return Err(cat(path, " lists no levels"));
    }
    if levels.len() > limits.max_levels {
        let a = cat3(path, " lists ", u64_text(levels.len() as u64).as_str());
        return Err(cat3(a.as_str(), " levels, exceeds max_levels ", u64_text(limits.max_levels as u64).as_str()));
    }
    Ok(())
}

/// The file a data set is saved to: the name it was loaded from, else the
/// conventional name when there is data, else none ("").
pub fn data_file_name(path: &String, default: &str, has_data: bool) -> (r: String)
    ensures
        r@ == if path@.len() > 0 {
            path@
        } else if has_data {
            default@
        } else {
            Seq::empty()
        },
{
    if path.as_str().unicode_len() > 0 {
        path.clone()
    } else if has_data {
        String::from_str(default)
    } else {
        String::new()
    }
}

fn filled_floor(block: Block) -> (r: Floor)
    ensures
        r.width == 3 && r.height == 3 && r.blocks@ == Seq::new(9, |i: int| block),
{
    let mut blocks: Vec<Block> = Vec::new();
    let mut i: usize = 0;
    while i < 9
        invariant
            i <= 9,
            blocks@ == Seq::new(i as nat, |k: int| block),
        decreases 9 - i,
    {
        blocks.push(block);
        assert(blocks@ =~= Seq::new((i + 1) as nat, |k: int| block));
        i = i + 1;
    }
    Floor { width: 3, height: 3, blocks }
}

impl Project {
    /// A minimal, always-valid project for when the requested one fails to
    /// load: one level of a 3×3 wall floor under a 3×3 empty floor, starting
    /// in the middle of the upper floor facing north; default limits and
    /// rules; nothing else.
    pub fn fallback(dir: String) -> (r: Project)
        ensures
            r.dir == dir,
            r.name@ == "(読み込み失敗)"@,
            r.author@.len() == 0 && r.description@.len() == 0,
            r.limits == LimitsConfig::spec_default(),
            r.level_paths@.len() == 1 && r.level_paths@[0]@ == "levels/level00.ron"@,
            r.levels@.len() == 1,
            r.levels@[0].start == (GridPos { x: 1, y: 1, floor: 1 }),
            r.levels@[0].start_facing == Facing::North,
            r.levels@[0].level.floors@.len() == 2,
            r.levels@[0].level.floors@[0].blocks@ == Seq::new(9, |i: int| Block::Wall),
            r.levels@[0].level.floors@[1].blocks@ == Seq::new(9, |i: int| Block::Empty),
            level_storable(r.levels@[0], r.limits),
            r.characters@.len() == 0 && r.party@.len() == 0 && r.items@.len() == 0,
            r.monsters@.len() == 0 && r.magics@.len() == 0 && r.initial_flags@.len() == 0,
            r.demos@.len() == 0,
            r.rules.hunger == crate::rules::HungerRules::spec_default(),
    {
        let mut floors: Vec<Floor> = Vec::new();
        floors.push(filled_floor(Block::Wall));
        floors.push(filled_floor(Block::Empty));
        let level = LevelData {
            start: GridPos::new(1, 1, 1),
            start_facing: Facing::North,
            level: Level { floors },
            items: Vec::new(),
            monsters: Vec::new(),
            wall_texts: Vec::new(),
            stairs_links: Vec::new(),
            events: Vec::new(),
            open_doors: Vec::new(),
            bgm: String::new(),
        };
        let mut levels: Vec<LevelData> = Vec::new();
        levels.push(level);
        let mut level_paths: Vec<String> = Vec::new();
        level_paths.push(String::from_str("levels/level00.ron"));
        let r = Project {
            dir,
            name: String::from_str("(読み込み失敗)"),
            author: String::new(),
            description: String::new(),
            limits: LimitsConfig::default(),
            level_paths,
            levels,
            characters: Vec::new(),
            party: Vec::new(),
            items: Vec::new(),
            monsters: Vec::new(),
            magics: Vec::new(),
            rules: RulesConfig::default(),
            initial_flags: Vec::new(),
            demos: Vec::new(),
            characters_path: String::new(),
            items_path: String::new(),
            monsters_path: String::new(),
            magics_path: String::new(),
            demos_path: String::new(),
        };
        proof {
            let ld = r.levels@[0];
            let lv = ld.level;
            assert(lv.floors@[0].wf() && lv.floors@[1].wf());
            assert(lv.spec_cell(1, 1, 1) == Some(Block::Empty));
            assert(lv.spec_cell(1, 1, 0) == Some(Block::Wall));
            assert(ld.open_doors@ =~= Seq::<u8>::empty());
            assert(placement_ids(ld.monsters@) =~= Seq::<Seq<char>>::empty());
        }
        r
    }
}

/// The title-screen listing entry of a project: its directory and metadata.
#[derive(Clone, Debug, PartialEq, Eq)]
pub struct ProjectCard {
    pub dir: String,
    pub name: String,
    pub author: String,
    pub description: String,
}

/// `base` joined with the path `part` as a Unix path join does: an absolute
/// `part` replaces `base`; an empty `base` gives `part`; otherwise one `/`
/// separates them.
pub open spec fn path_join(base: Seq<char>, part: Seq<char>) -> Seq<char> {
    if part.len() > 0 && part[0] == '/' {
        part
    } else if base.len() == 0 {
        part
    } else if base.last() == '/' {
        base + part
    } else {
        base + seq!['/'] + part
    }
}

fn join_path(base: &str, part: &str) -> (r: String)
    ensures
        r@ == path_join(base@, part@),
{
    proof {
        reveal_strlit("/");
    }
    let pl = part.unicode_len();
    if pl > 0 && part.get_char(0) == '/' {
        return String::from_str(part);
    }
    let bl = base.unicode_len();
    if bl == 0 {
        String::from_str(part)
    } else if base.get_char(bl - 1) == '/' {
        cat(base, part)
    } else {
        cat3(base, "/", part)
    }
}

/// The path of the override copy of asset `rel` in project `dir`.
pub open spec fn override_path(dir: Seq<char>, rel: Seq<char>) -> Seq<char> {
    path_join(path_join(dir, "override"@), rel)
}

/// The path of the override copy of asset `rel` in project `dir`.
pub fn override_candidate(dir: &str, rel: &str) -> (r: String)
    ensures
        r@ == override_path(dir@, rel@),
{
    proof {
        reveal_strlit("override");
    }
    let a = join_path(dir, "override");
    join_path(a.as_str(), rel)
}

/// `s` with every backslash turned into a slash.
pub open spec fn forward_slashes(s: Seq<char>) -> Seq<char> {
    s.map_values(|c: char| if c == '\\' { '/' } else { c })
}

/// Where `"/assets/"` first occurs in `s`, if it does.
pub open spec fn assets_marker(s: Seq<char>, k: int) -> Option<int>
    decreases s.len() - k,
    when 0 <= k
{
    if k + 8 > s.len() {
        None
    } else if s.subrange(k, k + 8) == "/assets/"@ {
        Some(k)
    } else {
        assets_marker(s, k + 1)
    }
}

/// The asset path of an override copy found at `candidate` (relative to the
/// assets directory): the part after a leading `assets/`, else after the
/// first `/assets/`; `None` when it is not under an assets directory.
pub open spec fn asset_relative(candidate: Seq<char>) -> Option<Seq<char>> {
    let s = forward_slashes(candidate);
    if s.len() >= 7 && s.subrange(0, 7) == "assets/"@ {
        Some(s.subrange(7, s.len() as int))
    } else {
        match assets_marker(s, 0) {
            Some(k) => Some(s.subrange(k + 8, s.len() as int)),
            None => None,
        }
    }
}

fn slashed(s: &str) -> (r: String)
    ensures
        r@ == forward_slashes(s@),
{
    proof {
        reveal_strlit("/");
    }
    let n = s.unicode_len();
    let mut out = String::new();
    let mut i: usize = 0;
    while i < n
        invariant
            n == s@.len(),
            i <= n,
            out@ == forward_slashes(s@.take(i as int)),
        decreases n - i,
    {
        let c = s.get_char(i);
        if c == '\\' {
            out.append("/");
            proof {
                reveal_strlit("/");
            }
        } else {
            let piece = s.substring_char(i, i + 1);
            assert(piece@ =~= seq![c]);
            out.append(piece);
        }
        assert(forward_slashes(s@.take(i as int + 1)) =~= forward_slashes(s@.take(i as int)).push(
            if c == '\\' { '/' } else { c },
        ));
        i = i + 1;
    }
    assert(s@.take(n as int) =~= s@);
    out
}

fn matches_at(s: &str, k: usize, lit: &str) -> (r: bool)
    requires
        k + lit@.len() <= s@.len(),
    ensures
        r == (s@.subrange(k as int, k + lit@.len()) == lit@),
{
    let n = lit.unicode_len();
    let sl = s.unicode_len();
    let mut j: usize = 0;
    while j < n
        invariant
            n == lit@.len(),
            sl == s@.len(),
            k + n <= s@.len(),
            j <= n,
            forall|t: int| 0 <= t < j ==> s@[k + t] == lit@[t],
        decreases n - j,
    {
        if s.get_char(k + j) != lit.get_char(j) {
            assert(s@.subrange(k as int, k + n)[j as int] != lit@[j as int]);
            return false;
        }
        j = j + 1;
    }
    assert(s@.subrange(k as int, k + n) =~= lit@);
    true
}

/// Resolve asset `rel` against project `dir`'s override directory: when the
/// override copy exists (`override_exists`, for the file at
/// [`override_candidate`]) and lies under an assets directory, its asset path
/// ([`asset_relative`]); otherwise `rel` itself.
pub fn resolve_asset(dir: &str, rel: &str, override_exists: bool) -> (r: String)
    ensures
        r@ == if override_exists && asset_relative(override_path(dir@, rel@)) is Some {
            asset_relative(override_path(dir@, rel@))->0
        } else {
            rel@
        },
{
    if !override_exists {
        return String::from_str(rel);
    }
    let cand = override_candidate(dir, rel);
    let s = slashed(cand.as_str());
    let n = s.as_str().unicode_len();
    proof {
        reveal_strlit("assets/");
        reveal_strlit("/assets/");
    }
    if n >= 7 && matches_at(s.as_str(), 0, "assets/") {
        return String::from_str(s.as_str().substring_char(7, n));
    }
    if n >= 8 {
        let mut k: usize = 0;
        while k <= n - 8
            invariant
                n == s@.len(),
                n >= 8,
                k <= n - 7,
                s@ == forward_slashes(cand@),
                cand@ == override_path(dir@, rel@),
                override_exists,
                !(n >= 7 && s@.subrange(0, 7) == "assets/"@),
                assets_marker(s@, 0) == assets_marker(s@, k as int),
            decreases n - k,
        {
            proof {
                reveal_strlit("/assets/");
            }
            if matches_at(s.as_str(), k, "/assets/") {
                assert(s@.subrange(k as int, k + 8) == "/assets/"@);
                assert(assets_marker(s@, k as int) == Some(k as int));
                assert(asset_relative(cand@) == Some(s@.subrange(k + 8, n as int)));
                return String::from_str(s.as_str().substring_char(k + 8, n));
            }
            k = k + 1;
        }
    }
    String::from_str(rel)
}

/// The loaded project's directory, for resolving asset overrides.
#[derive(Clone, Debug, PartialEq, Eq)]
pub struct AssetResolver {
    pub project_dir: String,
}

impl AssetResolver {
    /// See [`resolve_asset`].
    pub fn resolve(&self, rel: &str, override_exists: bool) -> (r: String)
        ensures
            r@ == if override_exists && asset_relative(override_path(self.project_dir@, rel@)) is Some {
                asset_relative(override_path(self.project_dir@, rel@))->0
            } else {
                rel@
            },
    {
        resolve_asset(self.project_dir.as_str(), rel, override_exists)
    }
}

/// The item catalog of a list of definitions, or an empty one when ids repeat.
pub fn catalog_or_empty(defs: Vec<ItemDef>) -> (r: ItemCatalog)
    ensures
        r@ == if first_duplicate(item_ids(defs@)) is None {
            defs@
        } else {
            Seq::empty()
        },
{
    proof {
        reveal_strlit("items");
    }
    match ItemCatalog::from_defs(defs, "items") {
        Ok(c) => c,
        Err(_) => ItemCatalog::empty(),
    }
}

/// `a` holds the same data as `b`.
pub open spec fn same_character(a: Character, b: Character) -> bool {
    &&& a.id == b.id && a.first_name == b.first_name && a.last_name == b.last_name
    &&& a.gender == b.gender && a.birth_date == b.birth_date && a.age == b.age
    &&& a.likes == b.likes && a.dislikes == b.dislikes && a.background == b.background
    &&& a.growth == b.growth && a.stats == b.stats && a.model == b.model && a.portrait == b.portrait
    &&& a.items@ == b.items@ && a.magics@ == b.magics@
}

/// A copy of a character.
pub fn copy_character(c: &Character) -> (r: Character)
    ensures
        same_character(r, *c),
{
    Character {
        id: c.id.clone(),
        first_name: c.first_name.clone(),
        last_name: c.last_name.clone(),
        gender: c.gender.clone(),
        birth_date: c.birth_date.clone(),
        age: c.age,
        likes: c.likes.clone(),
        dislikes: c.dislikes.clone(),
        background: c.background.clone(),
        growth: c.growth,
        stats: c.stats.copy(),
        model: c.model.clone(),
        portrait: c.portrait.clone(),
        items: crate::monster::copy_texts(&c.items),
        magics: crate::monster::copy_texts(&c.magics),
    }
}

/// An empty inventory of the given pouch and backpack sizes.
pub open spec fn empty_inventory(pouch: usize, backpack: usize) -> InventoryView {
    InventoryView {
        hands: seq![None::<ItemInstance>, None],
        equipment: Seq::new(6, |i: int| None::<ItemInstance>),
        pouch: Seq::new(pouch as nat, |i: int| None::<ItemInstance>),
        backpack: Seq::new(backpack as nat, |i: int| None::<ItemInstance>),
    }
}

/// The inventory after taking the starting items `ids` in order: each goes
/// to the first free slot (dropped when none is free) and, when its kind is
/// equippable, is equipped from there if possible.
pub open spec fn stocked(v: InventoryView, ids: Seq<String>, defs: Seq<ItemDef>) -> InventoryView
    decreases ids.len(),
{
    if ids.len() == 0 {
        v
    } else {
        let v0 = stocked(v, ids.drop_last(), defs);
        let it = ItemInstance { def_id: ids.last(), entropy: 0, potion_of: None };
        match v0.spec_first_free() {
            None => v0,
            Some(slot) => {
                let v1 = v0.spec_put(slot, it)->0;
                if lookup_item(defs, ids.last()@) matches Some(d) && d.equip_slots@.len() > 0 {
                    match spec_equip(v1, slot, defs) {
                        Ok(v2) => v2,
                        Err(_) => v1,
                    }
                } else {
                    v1
                }
            },
        }
    }
}

/// The index of the first character with id `id`, if any.
pub open spec fn character_index(cs: Seq<Character>, id: Seq<char>) -> Option<int> {
    crate::item::first_index_of(character_ids(cs), id)
}

/// The characters the roster names, in roster order (ids naming nobody are
/// skipped), as indices into `cs`.
pub open spec fn roster(party: Seq<String>, cs: Seq<Character>) -> Seq<int>
    decreases party.len(),
{
    if party.len() == 0 {
        Seq::empty()
    } else {
        roster(party.drop_last(), cs) + match character_index(cs, party.last()@) {
            Some(i) => seq![i],
            None => Seq::empty(),
        }
    }
}

/// Member `m` is the starting member for character `c`: a copy of it, full
/// HP/MP/concentration, satiety at the rules' ceiling, its starting magic
/// learned, and its starting items stocked into an empty inventory.
pub open spec fn starting_member(m: PartyMember, c: Character, limits: LimitsConfig, rules: RulesConfig, defs: Seq<ItemDef>) -> bool {
    &&& same_character(m.character, c)
    &&& m.state.hp == c.stats.max_hp && m.state.mp == c.stats.max_mp
    &&& m.state.concentration == c.stats.concentration
    &&& !m.state.down && m.state.effects@.len() == 0 && m.state.poison_remaining == 0
    &&& m.state.satiety == rules.hunger.satiety_max
    &&& m.state.exp == 0 && !m.state.guarding && !m.state.concentrating
    &&& m.state.learned@ == c.magics@
    &&& m.inventory.wf()
    &&& m.inventory@ == stocked(empty_inventory(limits.pouch_size, limits.backpack_size), c.items@, defs)
}

fn stock_inventory(inv: &mut Inventory, ids: &Vec<String>, catalog: &ItemCatalog)
    requires
        old(inv).wf(),
    ensures
        final(inv).wf(),
        final(inv)@ == stocked(old(inv)@, ids@, catalog@),
{
    let ghost v0 = inv@;
    let mut i: usize = 0;
    while i < ids.len()
        invariant
            i <= ids@.len(),
            inv.wf(),
            inv@ == stocked(v0, ids@.take(i as int), catalog@),
        decreases ids@.len() - i,
    {
        assert(ids@.take(i as int + 1).drop_last() =~= ids@.take(i as int));
        assert(ids@.take(i as int + 1).last() == ids@[i as int]);
        let id = &ids[i];
        let instance = ItemInstance::new(id.clone());
        match inv.pickup(instance) {
            Ok(slot) => {
                let equippable = match catalog.get(id.as_str()) {
                    Some(d) => d.is_equippable(),
                    None => false,
                };
                if equippable {
                    let _ = inv.equip(slot, catalog);
                }
            },
            Err(_) => {},
        }
        i = i + 1;
    }
    assert(ids@.take(ids@.len() as int) =~= ids@);
}

impl Project {
    /// The party at the start of play: each roster id that names a character
    /// (in roster order) becomes a [`starting_member`]; `catalog` decides which
    /// starting items are equipped.
    pub fn build_party(&self, catalog: &ItemCatalog) -> (r: Party)
        ensures
            ({
                let idx = roster(self.party@, self.characters@);
                &&& r.members@.len() == idx.len()
                &&& forall|i: int|
                    0 <= i < idx.len() ==> starting_member(
                        #[trigger] r.members@[i],
                        self.characters@[idx[i]],
                        self.limits,
                        self.rules,
                        catalog@,
                    )
            }),
    {
        let ghost cs = self.characters@;
        let ids = character_id_list(&self.characters);
        let nc = self.characters.len();
        let mut members: Vec<PartyMember> = Vec::new();
        let ghost mut idx: Seq<int> = Seq::empty();
        let mut k: usize = 0;
        while k < self.party.len()
            invariant
                k <= self.party@.len(),
                cs == self.characters@,
                nc == cs.len(),
                texts(ids@) == character_ids(cs),
                idx == roster(self.party@.take(k as int), cs),
                members@.len() == idx.len(),
                forall|i: int| 0 <= i < idx.len() ==> 0 <= #[trigger] idx[i] < cs.len(),
                forall|i: int|
                    0 <= i < members@.len() ==> starting_member(
                        #[trigger] members@[i],
                        cs[idx[i]],
                        self.limits,
                        self.rules,
                        catalog@,
                    ),
            decreases self.party@.len() - k,
        {
            assert(self.party@.take(k as int + 1).drop_last() =~= self.party@.take(k as int));
            assert(self.party@.take(k as int + 1).last() == self.party@[k as int]);
            let found = position_of(&ids, &self.party[k]);
            proof {
                crate::item::lemma_first_index_of(character_ids(cs), self.party@[k as int]@);
            }
            match found {
                Some(ci) => {
                    let c = &self.characters[ci];
                    let mut inventory = Inventory::new(self.limits.pouch_size, self.limits.backpack_size);
                    assert(inventory@ == empty_inventory(self.limits.pouch_size, self.limits.backpack_size));
                    stock_inventory(&mut inventory, &c.items, catalog);
                    let mut state = CharacterState::full(c);
                    state.satiety = self.rules.hunger.satiety_max;
                    state.learned = crate::monster::copy_texts(&c.magics);
                    let member = PartyMember { character: copy_character(c), state, inventory };
                    assert(character_index(cs, self.party@[k as int]@) == Some(ci as int));
                    assert(starting_member(member, cs[ci as int], self.limits, self.rules, catalog@));
                    members.push(member);
                    proof {
                        assert(roster(self.party@.take(k as int + 1), cs) =~= idx.push(ci as int));
                        idx = idx.push(ci as int);
                    }
                },
                None => {
                    assert(roster(self.party@.take(k as int + 1), cs) =~= idx);
                },
            }
            k = k + 1;
        }
        assert(self.party@.take(self.party@.len() as int) =~= self.party@);
        Party { members }
    }
}

impl LevelData {
    /// The writable-wall text at `(x, y, floor)`, if any (the first one).
    pub fn wall_text_at(&self, x: i32, y: i32, floor: usize) -> (r: Option<&String>)
        ensures
            r == match authored_text(self.wall_texts@, x, y, floor) {
                Some(t) => Some(&t),
                None => None,
            },
    {
        let mut i: usize = 0;
        assert(self.wall_texts@.skip(0) =~= self.wall_texts@);
        while i < self.wall_texts.len()
            invariant
                i <= self.wall_texts@.len(),
                authored_text(self.wall_texts@, x, y, floor) == authored_text(self.wall_texts@.skip(i as int), x, y, floor),
            decreases self.wall_texts@.len() - i,
        {
            assert(self.wall_texts@.skip(i as int).drop_first() =~= self.wall_texts@.skip(i as int + 1));
            let w = &self.wall_texts[i];
            if w.x == x && w.y == y && w.floor == floor {
                return Some(&w.text);
            }
            i = i + 1;
        }
        None
    }

    /// The stairs link out of `(x, y, floor)`, if any (the first one).
    pub fn stairs_link_at(&self, x: i32, y: i32, floor: usize) -> (r: Option<StairsLink>)
        ensures
            r == link_from(self.stairs_links@, (x, y, floor)),
    {
        let mut i: usize = 0;
        assert(self.stairs_links@.skip(0) =~= self.stairs_links@);
        while i < self.stairs_links.len()
            invariant
                i <= self.stairs_links@.len(),
                link_from(self.stairs_links@, (x, y, floor)) == link_from(self.stairs_links@.skip(i as int), (x, y, floor)),
            decreases self.stairs_links@.len() - i,
        {
            assert(self.stairs_links@.skip(i as int).drop_first() =~= self.stairs_links@.skip(i as int + 1));
            let l = self.stairs_links[i];
            if l.from.0 == x && l.from.1 == y && l.from.2 == floor {
                return Some(l);
            }
            i = i + 1;
        }
        None
    }

    /// The width of floor 0 (0 for a level without floors).
    pub fn width(&self) -> (r: usize)
        ensures
            r == if self.level.floors@.len() > 0 {
                self.level.floors@[0].width
            } else {
                0
            },
    {
        match self.level.floor(0) {
            Some(f) => f.width,
            None => 0,
        }
    }

    /// The height of floor 0 (0 for a level without floors).
    pub fn height(&self) -> (r: usize)
        ensures
            r == if self.level.floors@.len() > 0 {
                self.level.floors@[0].height
            } else {
                0
            },
    {
        match self.level.floor(0) {
            Some(f) => f.height,
            None => 0,
        }
    }

    pub fn floor_count(&self) -> (r: usize)
        ensures
            r == self.level.floors@.len(),
    {
        self.level.floor_count()
    }

    /// The runtime dungeon of this level: its grids and start.
    pub fn to_dungeon(self) -> (r: Dungeon)
        ensures
            r.level == self.level,
            r.start_pos == self.start,
            r.start_facing == self.start_facing,
    {
        Dungeon { level: self.level, start_pos: self.start, start_facing: self.start_facing }
    }
}

} // verus!
