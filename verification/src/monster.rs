//! Monsters: the data model, the catalog, occupancy and passability rules,
//! line of sight, the cycle-driven wander / chase / flee step, and the combat
//! bookkeeping around a monster (attacks on the party, death, experience,
//! regeneration). Random draws are made by the caller and handed in.
use vstd::prelude::*;
use crate::dungeon::{Block, DoorStates, Facing, GridPos, Level, door_open};
use crate::ids::{texts, first_duplicate_index};
use crate::item::{first_duplicate, first_index_of, lemma_first_index_of, lemma_first_index_of_at};
use crate::text::{cat, cat3, cat4, same_text, i64_text, signed_decimal};
use crate::character::{Party, PartyMember, Character, CharacterState, spec_level_ups, level_ups_fit, level_up_message};
use crate::item::{ItemCatalog, SlotRef, lookup_item, ItemDef};
use crate::combat::{UNARMED_SHARPNESS, spec_final_damage, spec_guarded, final_damage, guarded, base_damage_in_range, tdiv, UNARMED_GRIP};
use crate::player::step_target;

verus! {

/// How a monster moves.
#[derive(Clone, Copy, PartialEq, Eq, Debug, Structural)]
pub enum MoveType {
    Ground,
    Air,
    /// Never moves.
    Immobile,
}

/// Animation clip names of a monster model.
#[derive(Clone, Debug, PartialEq, Eq)]
pub struct MonsterAnims {
    pub idle: String,
    pub walk: String,
    pub attack: String,
    pub hit: String,
    pub death: String,
}

/// A monster definition.
#[derive(Clone, Debug, PartialEq, Eq)]
pub struct MonsterDef {
    pub id: String,
    pub name: String,
    pub profile: String,
    pub max_hp: i32,
    pub attack: i32,
    pub defense: i32,
    pub agility: i32,
    /// Attack interval in cycles; 255 or more = never attacks.
    pub attack_freq: u32,
    pub anti_magic: i32,
    pub body_temp: i32,
    pub resist_air: i32,
    pub resist_water: i32,
    pub resist_heat: i32,
    pub resist_poison: i32,
    pub wariness: i32,
    pub regen_cycles: u64,
    pub move_type: MoveType,
    pub can_use_ladder: bool,
    pub fits_narrow: bool,
    pub sight: i32,
    /// Move interval in cycles; 255 or more = never moves.
    pub action_unit: u32,
    pub flee_hp: i32,
    pub large: bool,
    pub carry_items: Vec<String>,
    pub attack_items: Vec<String>,
    /// Experience awarded on kill.
    pub exp: i32,
    pub model: String,
    pub anim: MonsterAnims,
}

/// The resistance guarding a liquid tile (128 or more: the monster likes it).
pub open spec fn spec_liquid_resist(def: MonsterDef, block: Block) -> Option<i32> {
    match block {
        Block::Water => Some(def.resist_water),
        Block::Fire => Some(def.resist_heat),
        Block::Poison => Some(def.resist_poison),
        _ => None,
    }
}

impl MonsterDef {
    pub fn liquid_resist(&self, block: Block) -> (r: Option<i32>)
        ensures
            r == spec_liquid_resist(*self, block),
    {
        match block {
            Block::Water => Some(self.resist_water),
            Block::Fire => Some(self.resist_heat),
            Block::Poison => Some(self.resist_poison),
            _ => None,
        }
    }
}

/// One placed monster.
#[derive(Clone, Debug, PartialEq, Eq)]
pub struct MonsterPlacement {
    pub id: String,
    pub x: i32,
    pub y: i32,
    pub floor: usize,
    pub facing: Facing,
}

pub open spec fn monster_ids(defs: Seq<MonsterDef>) -> Seq<Seq<char>> {
    defs.map_values(|d: MonsterDef| d.id@)
}

/// The definition with id `id` in `defs`, if any (the first one).
pub open spec fn lookup_monster(defs: Seq<MonsterDef>, id: Seq<char>) -> Option<MonsterDef> {
    match first_index_of(monster_ids(defs), id) {
        Some(i) => Some(defs[i]),
        None => None,
    }
}

/// All monster definitions, keyed by (distinct) id.
#[derive(Clone, Debug, Default)]
pub struct MonsterCatalog {
    defs: Vec<MonsterDef>,
}

impl View for MonsterCatalog {
    type V = Seq<MonsterDef>;

    closed spec fn view(&self) -> Seq<MonsterDef> {
        self.defs@
    }
}

/// The ids of `defs`, in order.
pub fn id_list(defs: &Vec<MonsterDef>) -> (r: Vec<String>)
    ensures
        texts(r@) == monster_ids(defs@),
{
    let mut r: Vec<String> = Vec::new();
    let mut i: usize = 0;
    while i < defs.len()
        invariant
            i <= defs@.len(),
            r@.len() == i,
            forall|k: int| 0 <= k < i ==> (#[trigger] r@[k])@ == defs@[k].id@,
        decreases defs@.len() - i,
    {
        r.push(defs[i].id.clone());
        i = i + 1;
    }
    assert(texts(r@) =~= monster_ids(defs@));
    r
}

impl MonsterCatalog {
    pub open spec fn spec_get(&self, id: Seq<char>) -> Option<MonsterDef> {
        lookup_monster(self@, id)
    }

    /// Build from a list, rejecting duplicate ids: the error names the first
    /// definition whose id already occurred.
    pub fn from_defs(defs: Vec<MonsterDef>, what: &str) -> (r: Result<MonsterCatalog, String>)
        ensures
            match first_duplicate(monster_ids(defs@)) {
                None => r matches Ok(c) && c@ == defs@,
                Some(k) => r matches Err(e) && e@ == what@ + ": duplicate monster id '"@
                    + defs@[k].id@ + "'"@,
            },
    {
        let ids = id_list(&defs);
        proof {
            crate::item::lemma_first_duplicate(monster_ids(defs@));
        }
        match first_duplicate_index(&ids) {
            Some(k) => {
                let msg = cat3(what, ": duplicate monster id '", defs[k].id.as_str());
                Err(cat(msg.as_str(), "'"))
            },
            None => Ok(MonsterCatalog { defs }),
        }
    }

    /// The definition with id `id`, if any.
    pub fn get(&self, id: &str) -> (r: Option<&MonsterDef>)
        ensures
            r == match self.spec_get(id@) {
                Some(d) => Some(&d),
                None => None,
            },
    {
        let mut i: usize = 0;
        while i < self.defs.len()
            invariant
                i <= self.defs@.len(),
                forall|k: int| 0 <= k < i ==> monster_ids(self.defs@)[k] != id@,
            decreases self.defs@.len() - i,
        {
            if same_text(&self.defs[i].id, id) {
                proof {
                    lemma_first_index_of_at(monster_ids(self.defs@), id@, i as int);
                }
                return Some(&self.defs[i]);
            }
            i = i + 1;
        }
        proof {
            lemma_first_index_of(monster_ids(self.defs@), id@);
        }
        None
    }
}

/// Which animation a monster is showing.
#[derive(Clone, Copy, PartialEq, Eq, Debug, Structural)]
pub enum AnimKind {
    Idle,
    Walk,
    Attack,
    Hit,
    Death,
}

/// The live state of one monster. The definition is referenced by id.
#[derive(Clone, Debug, PartialEq, Eq)]
pub struct Monster {
    pub def_id: String,
    pub hp: i32,
    pub pos: GridPos,
    pub facing: Facing,
    /// Next cycle this monster may move / act.
    pub next_action: u64,
    /// Next cycle this monster may attack.
    pub next_attack: u64,
    pub dead: bool,
    pub dead_cycle: u64,
    pub fleeing: bool,
    /// Remaining carry items (dropped on death / removed on steal).
    pub carry: Vec<String>,
    pub anim: AnimKind,
    pub moved_this_cycle: bool,
}

impl Monster {
    /// A live, idle monster at `pos` carrying nothing.
    pub fn new_at(def_id: String, hp: i32, pos: GridPos, facing: Facing) -> (r: Monster)
        ensures
            r.def_id == def_id && r.hp == hp && r.pos == pos && r.facing == facing,
            r.next_action == 0 && r.next_attack == 0 && !r.dead && r.dead_cycle == 0,
            !r.fleeing && r.carry@.len() == 0 && r.anim == AnimKind::Idle && !r.moved_this_cycle,
    {
        Monster {
            def_id,
            hp,
            pos,
            facing,
            next_action: 0,
            next_attack: 0,
            dead: false,
            dead_cycle: 0,
            fleeing: false,
            carry: Vec::new(),
            anim: AnimKind::Idle,
            moved_this_cycle: false,
        }
    }

    /// The tiles a monster at `pos` occupies: 2×2 (growing east and south)
    /// when `large`, else its own tile.
    pub open spec fn spec_footprint(pos: GridPos, large: bool) -> Seq<GridPos> {
        if large {
            seq![
                pos,
                GridPos { x: (pos.x + 1) as i32, ..pos },
                GridPos { y: (pos.y + 1) as i32, ..pos },
                GridPos { x: (pos.x + 1) as i32, y: (pos.y + 1) as i32, ..pos },
            ]
        } else {
            seq![pos]
        }
    }

    /// The tiles this monster occupies.
    pub fn footprint(&self, large: bool) -> (r: Vec<GridPos>)
        requires
            large ==> self.pos.x < i32::MAX && self.pos.y < i32::MAX,
        ensures
            r@ == Self::spec_footprint(self.pos, large),
    {
        let p = self.pos;
        if large {
            let mut v: Vec<GridPos> = Vec::new();
            v.push(p);
            v.push(GridPos::new(p.x + 1, p.y, p.floor));
            v.push(GridPos::new(p.x, p.y + 1, p.floor));
            v.push(GridPos::new(p.x + 1, p.y + 1, p.floor));
            assert(v@ =~= Self::spec_footprint(p, large));
            v
        } else {
            let mut v: Vec<GridPos> = Vec::new();
            v.push(p);
            assert(v@ =~= Self::spec_footprint(p, large));
            v
        }
    }
}

pub open spec fn abs_int(v: int) -> int {
    if v < 0 {
        -v
    } else {
        v
    }
}

/// Chessboard distance between two tiles (floors ignored).
pub open spec fn spec_chebyshev(a: GridPos, b: GridPos) -> int {
    let dx = abs_int(a.x - b.x);
    let dy = abs_int(a.y - b.y);
    if dx >= dy {
        dx
    } else {
        dy
    }
}

/// Chessboard distance between two tiles (floors ignored).
pub fn chebyshev(a: GridPos, b: GridPos) -> (r: i64)
    ensures
        r == spec_chebyshev(a, b),
{
    let ddx = a.x as i64 - b.x as i64;
    let ddy = a.y as i64 - b.y as i64;
    let dx: i64 = if ddx < 0 {
        -ddx
    } else {
        ddx
    };
    let dy: i64 = if ddy < 0 {
        -ddy
    } else {
        ddy
    };
    if dx >= dy {
        dx
    } else {
        dy
    }
}

/// The cardinal heading pointing from `from` most directly toward `to` (ties
/// prefer the horizontal axis).
pub open spec fn spec_facing_toward(from: GridPos, to: GridPos) -> Facing {
    let dx = to.x - from.x;
    let dy = to.y - from.y;
    if abs_int(dx) >= abs_int(dy) {
        if dx >= 0 {
            Facing::East
        } else {
            Facing::West
        }
    } else if dy >= 0 {
        Facing::South
    } else {
        Facing::North
    }
}

pub fn facing_toward(from: GridPos, to: GridPos) -> (r: Facing)
    ensures
        r == spec_facing_toward(from, to),
{
    let dx = to.x as i64 - from.x as i64;
    let dy = to.y as i64 - from.y as i64;
    let ax: i64 = if dx < 0 {
        -dx
    } else {
        dx
    };
    let ay: i64 = if dy < 0 {
        -dy
    } else {
        dy
    };
    if ax >= ay {
        if dx >= 0 {
            Facing::East
        } else {
            Facing::West
        }
    } else if dy >= 0 {
        Facing::South
    } else {
        Facing::North
    }
}

/// Whether `p` is listed in `tiles`.
pub fn tile_listed(tiles: &Vec<GridPos>, p: GridPos) -> (r: bool)
    ensures
        r == tiles@.contains(p),
{
    let mut i: usize = 0;
    while i < tiles.len()
        invariant
            i <= tiles@.len(),
            forall|k: int| 0 <= k < i ==> tiles@[k] != p,
        decreases tiles@.len() - i,
    {
        if tiles[i] == p {
            return true;
        }
        i = i + 1;
    }
    false
}

/// A cell counts as wall for the narrow-corridor rule when it is a wall or
/// outside the level.
pub open spec fn wall_or_outside(level: Level, x: int, y: int, floor: int) -> bool {
    match level.spec_cell(x, y, floor) {
        Some(Block::Wall) | None => true,
        _ => false,
    }
}

/// A tile with a wall (or the void) beside it: east or west, or north or
/// south.
pub open spec fn pinched(level: Level, p: GridPos) -> bool {
    let (x, y, f) = (p.x as int, p.y as int, p.floor as int);
    (wall_or_outside(level, x - 1, y, f) || wall_or_outside(level, x + 1, y, f))
        || (wall_or_outside(level, x, y - 1, f) || wall_or_outside(level, x, y + 1, f))
}

/// Whether a monster of kind `def` standing at `self_pos` may step onto
/// `dest`: never onto the party or another monster's tile, never into walls,
/// shut doors or the void; liquids need a resistance of 128 or more; monsters
/// that do not fit narrow corridors refuse tiles pinched by walls east/west or
/// north/south; ground movers need footing, flyers do not, immobile ones never
/// move.
pub open spec fn spec_can_enter(
    def: MonsterDef,
    level: Level,
    dest: GridPos,
    doors: Seq<bool>,
    occ: Seq<GridPos>,
    player: GridPos,
    self_pos: GridPos,
) -> bool {
    &&& dest != player
    &&& !(occ.contains(dest) && dest != self_pos)
    &&& match level.spec_block_at(dest) {
        None => false,
        Some(block) => {
            &&& block != Block::Wall
            &&& (block matches Block::Door { kind } ==> door_open(doors, kind))
            &&& (spec_liquid_resist(def, block) matches Some(r) ==> r >= 128)
            &&& (!def.fits_narrow ==> !pinched(level, dest))
            &&& match def.move_type {
                MoveType::Immobile => false,
                MoveType::Air => true,
                MoveType::Ground => level.spec_is_supported(dest.x as int, dest.y as int, dest.floor as int),
            }
        },
    }
}

fn is_wall_or_outside(level: &Level, x: i32, y: i32, floor: usize) -> (r: bool)
    ensures
        r == wall_or_outside(*level, x as int, y as int, floor as int),
{
    match level.block_at(GridPos::new(x, y, floor)) {
        Some(Block::Wall) | None => true,
        _ => false,
    }
}

pub fn can_enter(
    def: &MonsterDef,
    level: &Level,
    dest: GridPos,
    doors: &DoorStates,
    occ: &Vec<GridPos>,
    player: GridPos,
    self_pos: GridPos,
) -> (r: bool)
    requires
        pos_interior(dest),
    ensures
        r == spec_can_enter(*def, *level, dest, doors@, occ@, player, self_pos),
{
    if dest == player || (tile_listed(occ, dest) && dest != self_pos) {
        return false;
    }
    let block = match level.block_at(dest) {
        None => {
            return false;
        },
        Some(b) => b,
    };
    match block {
        Block::Wall => {
            return false;
        },
        Block::Door { kind } => {
            if !doors.is_open(kind) {
                return false;
            }
        },
        _ => {},
    }
    if let Some(r) = def.liquid_resist(block) {
        if r < 128 {
            return false;
        }
    }
    if !def.fits_narrow {
        let ew = is_wall_or_outside(level, dest.x - 1, dest.y, dest.floor) || is_wall_or_outside(
            level,
            dest.x + 1,
            dest.y,
            dest.floor,
        );
        let ns = is_wall_or_outside(level, dest.x, dest.y - 1, dest.floor) || is_wall_or_outside(
            level,
            dest.x,
            dest.y + 1,
            dest.floor,
        );
        if ew || ns {
            return false;
        }
    }
    match def.move_type {
        MoveType::Immobile => false,
        MoveType::Air => true,
        MoveType::Ground => level.is_supported(dest.x, dest.y, dest.floor),
    }
}

/// Whether the tile at `p` blocks sight: walls and shut doors.
pub open spec fn blocks_sight(level: Level, doors: Seq<bool>, p: GridPos) -> bool {
    match level.spec_block_at(p) {
        Some(Block::Wall) => true,
        Some(Block::Door { kind }) => !door_open(doors, kind),
        _ => false,
    }
}

/// `n` steps from `base`, forward (`+`) or backward (`-`).
pub open spec fn along(base: int, forward: bool, n: int) -> int {
    if forward {
        base + n
    } else {
        base - n
    }
}

/// One step of the integer line walk toward a target `dx` columns and `dy`
/// rows away, from a point `cx` columns and `cy` rows along: the error term
/// `dx·(cy+1) − dy·(cx+1)` decides which axes advance.
pub open spec fn line_step(dx: int, dy: int, cx: int, cy: int) -> (int, int) {
    let e2 = 2 * (dx * (cy + 1) - dy * (cx + 1));
    (if e2 >= -dy {
        cx + 1
    } else {
        cx
    }, if e2 <= dx {
        cy + 1
    } else {
        cy
    })
}

/// A line step never overshoots the target and always advances.
pub proof fn lemma_line_step(dx: int, dy: int, cx: int, cy: int)
    requires
        0 <= cx <= dx,
        0 <= cy <= dy,
        !(cx == dx && cy == dy),
    ensures
        ({
            let (nx, ny) = line_step(dx, dy, cx, cy);
            &&& cx <= nx <= cx + 1 && nx <= dx
            &&& cy <= ny <= cy + 1 && ny <= dy
            &&& nx + ny > cx + cy
        }),
{
    let err = dx * (cy + 1) - dy * (cx + 1);
    if cx == dx {
        assert(2 * err < -dy) by (nonlinear_arith)
            requires
                err == dx * (cy + 1) - dy * (cx + 1),
                cx == dx,
                0 <= cy < dy,
                0 <= dx,
        ;
    }
    if cy == dy {
        assert(2 * err > dx) by (nonlinear_arith)
            requires
                err == dx * (cy + 1) - dy * (cx + 1),
                cy == dy,
                0 <= cx < dx,
                0 <= dy,
        ;
    }
}

/// Whether the line from `a` (stepping `dx` columns in direction `xf` and `dy`
/// rows in direction `yf`), walked from `(cx, cy)` steps on, passes only cells
/// that do not block sight; the target cell itself is not examined.
pub open spec fn sight_clear(
    level: Level,
    doors: Seq<bool>,
    a: GridPos,
    xf: bool,
    yf: bool,
    dx: int,
    dy: int,
    cx: int,
    cy: int,
) -> bool
    decreases (dx - cx) + (dy - cy),
    when 0 <= cx <= dx && 0 <= cy <= dy
{
    if cx == dx && cy == dy {
        true
    } else {
        proof {
            lemma_line_step(dx, dy, cx, cy);
        }
        let (nx, ny) = line_step(dx, dy, cx, cy);
        let p = GridPos { x: along(a.x as int, xf, nx) as i32, y: along(a.y as int, yf, ny) as i32, floor: a.floor };
        &&& (nx == dx && ny == dy) || !blocks_sight(level, doors, p)
        &&& sight_clear(level, doors, a, xf, yf, dx, dy, nx, ny)
    }
}

/// Straight-line visibility on one floor: the integer line from `a` to `b`
/// crosses no wall or shut door (the endpoints themselves are not examined).
pub open spec fn spec_line_of_sight(level: Level, doors: Seq<bool>, a: GridPos, b: GridPos) -> bool {
    a.floor == b.floor && sight_clear(
        level,
        doors,
        a,
        a.x < b.x,
        a.y < b.y,
        abs_int(b.x - a.x),
        abs_int(b.y - a.y),
        0,
        0,
    )
}

fn sight_blocked(level: &Level, doors: &DoorStates, p: GridPos) -> (r: bool)
    ensures
        r == blocks_sight(*level, doors@, p),
{
    match level.block_at(p) {
        Some(Block::Wall) => true,
        Some(Block::Door { kind }) => !doors.is_open(kind),
        _ => false,
    }
}

pub fn line_of_sight(level: &Level, doors: &DoorStates, a: GridPos, b: GridPos) -> (r: bool)
    ensures
        r == spec_line_of_sight(*level, doors@, a, b),
{
    if a.floor != b.floor {
        return false;
    }
    let xf = a.x < b.x;
    let yf = a.y < b.y;
    let x1 = b.x as i64;
    let y1 = b.y as i64;
    let dx: i64 = if x1 >= a.x as i64 {
        x1 - a.x as i64
    } else {
        a.x as i64 - x1
    };
    let ady: i64 = if y1 >= a.y as i64 {
        y1 - a.y as i64
    } else {
        a.y as i64 - y1
    };
    let dy: i64 = -ady;
    let sx: i64 = if xf {
        1
    } else {
        -1
    };
    let sy: i64 = if yf {
        1
    } else {
        -1
    };
    let mut x0: i64 = a.x as i64;
    let mut y0: i64 = a.y as i64;
    let mut err: i64 = dx + dy;
    let ghost mut cx: int = 0;
    let ghost mut cy: int = 0;
    proof {
        assert(dx * (0 + 1) - ady * (0 + 1) == dx - ady) by (nonlinear_arith);
    }
    loop
        invariant
            a.floor == b.floor,
            xf == (a.x < b.x),
            yf == (a.y < b.y),
            x1 == b.x,
            y1 == b.y,
            dx == abs_int(b.x - a.x),
            ady == abs_int(b.y - a.y),
            dy == -ady,
            sx == (if xf { 1int } else { -1int }),
            sy == (if yf { 1int } else { -1int }),
            0 <= cx <= dx,
            0 <= cy <= ady,
            x0 == along(a.x as int, xf, cx),
            y0 == along(a.y as int, yf, cy),
            err == dx * (cy + 1) - ady * (cx + 1),
            -2 * ady - dx <= err <= 2 * dx + ady,
            spec_line_of_sight(*level, doors@, a, b) == sight_clear(
                *level,
                doors@,
                a,
                xf,
                yf,
                dx as int,
                ady as int,
                cx,
                cy,
            ),
        decreases (dx - cx) + (ady - cy),
    {
        if x0 == x1 && y0 == y1 {
            return true;
        }
        proof {
            lemma_line_step(dx as int, ady as int, cx, cy);
        }
        let ghost (nx, ny) = line_step(dx as int, ady as int, cx, cy);
        let e2 = 2 * err;
        if e2 >= dy {
            proof {
                assert(ady * (cx + 2) == ady * (cx + 1) + ady) by (nonlinear_arith);
            }
            err = err + dy;
            x0 = x0 + sx;
            proof {
                cx = cx + 1;
            }
        }
        if e2 <= dx {
            proof {
                assert(dx * (cy + 2) == dx * (cy + 1) + dx) by (nonlinear_arith);
            }
            err = err + dx;
            y0 = y0 + sy;
            proof {
                cy = cy + 1;
            }
        }
        assert(cx == nx && cy == ny);
        if !(x0 == x1 && y0 == y1) {
            let p = GridPos::new(x0 as i32, y0 as i32, a.floor);
            if sight_blocked(level, doors, p) {
                return false;
            }
        }
    }
}

/// Whether the monster at `pos` may step heading `d`.
pub open spec fn may_step(
    def: MonsterDef,
    level: Level,
    doors: Seq<bool>,
    occ: Seq<GridPos>,
    player: GridPos,
    pos: GridPos,
    d: Facing,
) -> bool {
    spec_can_enter(def, level, step_target(pos, d), doors, occ, player, pos)
}

pub open spec fn keep_if(b: bool, d: Facing) -> Seq<Facing> {
    if b {
        seq![d]
    } else {
        Seq::empty()
    }
}

/// The headings (north, east, south, west order) the monster may step.
pub open spec fn open_dirs(
    def: MonsterDef,
    level: Level,
    doors: Seq<bool>,
    occ: Seq<GridPos>,
    player: GridPos,
    pos: GridPos,
) -> Seq<Facing> {
    keep_if(may_step(def, level, doors, occ, player, pos, Facing::North), Facing::North)
        + keep_if(may_step(def, level, doors, occ, player, pos, Facing::East), Facing::East)
        + keep_if(may_step(def, level, doors, occ, player, pos, Facing::South), Facing::South)
        + keep_if(may_step(def, level, doors, occ, player, pos, Facing::West), Facing::West)
}

/// Among `dirs`, the heading whose target tile is farthest from the party;
/// among equally far ones the last.
pub open spec fn farthest(dirs: Seq<Facing>, pos: GridPos, player: GridPos) -> Option<Facing>
    decreases dirs.len(),
{
    if dirs.len() == 0 {
        None
    } else {
        let d = dirs.last();
        match farthest(dirs.drop_last(), pos, player) {
            None => Some(d),
            Some(b) => if spec_chebyshev(step_target(pos, d), player) >= spec_chebyshev(
                step_target(pos, b),
                player,
            ) {
                Some(d)
            } else {
                Some(b)
            },
        }
    }
}

/// Greedy chase: try the heading along the larger axis toward the party, then
/// the other axis.
pub open spec fn chase_choice(
    def: MonsterDef,
    level: Level,
    doors: Seq<bool>,
    occ: Seq<GridPos>,
    player: GridPos,
    pos: GridPos,
) -> Option<Facing> {
    let dx = player.x - pos.x;
    let dy = player.y - pos.y;
    let horiz = if dx > 0 {
        Some(Facing::East)
    } else if dx < 0 {
        Some(Facing::West)
    } else {
        None
    };
    let vert = if dy > 0 {
        Some(Facing::South)
    } else if dy < 0 {
        Some(Facing::North)
    } else {
        None
    };
    let first = if abs_int(dx) >= abs_int(dy) {
        horiz
    } else {
        vert
    };
    let second = if abs_int(dx) >= abs_int(dy) {
        vert
    } else {
        horiz
    };
    if first is Some && may_step(def, level, doors, occ, player, pos, first->0) {
        first
    } else if second is Some && may_step(def, level, doors, occ, player, pos, second->0) {
        second
    } else {
        None
    }
}

/// Whether a monster of kind `def` at `pos` sees the party at `player`.
pub open spec fn spec_sees(def: MonsterDef, level: Level, doors: Seq<bool>, pos: GridPos, player: GridPos) -> bool {
    def.sight > 0 && spec_chebyshev(pos, player) <= def.sight && spec_line_of_sight(
        level,
        doors,
        pos,
        player,
    )
}

/// The heading a monster picks this cycle: away from a seen party when
/// fleeing, toward it when seen, otherwise (when `coin` came up) the open
/// heading picked by `pick` among the open ones.
pub open spec fn ai_choice(
    def: MonsterDef,
    level: Level,
    doors: Seq<bool>,
    occ: Seq<GridPos>,
    player: GridPos,
    pos: GridPos,
    fleeing: bool,
    coin: bool,
    pick: usize,
) -> Option<Facing> {
    let sees = spec_sees(def, level, doors, pos, player);
    let open = open_dirs(def, level, doors, occ, player, pos);
    if fleeing && sees {
        farthest(open, pos, player)
    } else if sees {
        chase_choice(def, level, doors, occ, player, pos)
    } else if coin && open.len() > 0 {
        Some(open[(pick as int) % (open.len() as int)])
    } else {
        None
    }
}

/// One AI cycle of monster `m` (kind `def`, when its kind is known): dead
/// monsters, unknown kinds, immobile kinds and monsters still waiting do
/// nothing; otherwise the next action is scheduled `action_unit` cycles on,
/// the monster starts fleeing below its flee HP, takes the chosen step (see
/// [`ai_choice`]) and turns to face the party when adjacent on its floor.
/// `holding` says an attack / hit animation is still showing.
pub open spec fn spec_think(
    m: Monster,
    def: Option<MonsterDef>,
    level: Level,
    doors: Seq<bool>,
    occ: Seq<GridPos>,
    player: GridPos,
    cycle: u64,
    holding: bool,
    coin: bool,
    pick: usize,
) -> Monster {
    let m0 = Monster { moved_this_cycle: false, ..m };
    if m.dead || def is None {
        m0
    } else {
        let d = def->0;
        if d.action_unit >= 255 || d.move_type == MoveType::Immobile || cycle < m.next_action {
            m0
        } else {
            let m1 = Monster {
                next_action: (cycle + d.action_unit) as u64,
                fleeing: m.fleeing || m.hp < d.flee_hp,
                ..m0
            };
            let m2 = match ai_choice(d, level, doors, occ, player, m.pos, m1.fleeing, coin, pick) {
                Some(dir) => Monster {
                    pos: step_target(m.pos, dir),
                    facing: dir,
                    moved_this_cycle: true,
                    anim: if holding {
                        m1.anim
                    } else {
                        AnimKind::Walk
                    },
                    ..m1
                },
                None => Monster {
                    anim: if holding {
                        m1.anim
                    } else {
                        AnimKind::Idle
                    },
                    ..m1
                },
            };
            if spec_chebyshev(m2.pos, player) == 1 && m2.pos.floor == player.floor {
                Monster { facing: spec_facing_toward(m2.pos, player), ..m2 }
            } else {
                m2
            }
        }
    }
}

/// The number of single (non-diagonal) steps between two tiles (floors
/// ignored).
pub open spec fn spec_manhattan(a: GridPos, b: GridPos) -> int {
    abs_int(a.x - b.x) + abs_int(a.y - b.y)
}

/// A monster that sees the party and is not fleeing only ever steps toward
/// it: the step heads along an axis on which the party lies, so it ends one
/// step nearer the party, and never farther in chessboard distance.
pub proof fn lemma_chase_approaches(
    def: MonsterDef,
    level: Level,
    doors: Seq<bool>,
    occ: Seq<GridPos>,
    player: GridPos,
    pos: GridPos,
    coin: bool,
    pick: usize,
    d: Facing,
)
    requires
        pos_interior(pos),
        spec_sees(def, level, doors, pos, player),
        ai_choice(def, level, doors, occ, player, pos, false, coin, pick) == Some(d),
    ensures
        spec_manhattan(step_target(pos, d), player) == spec_manhattan(pos, player) - 1,
        spec_chebyshev(step_target(pos, d), player) <= spec_chebyshev(pos, player),
        d is East ==> player.x > pos.x,
        d is West ==> player.x < pos.x,
        d is South ==> player.y > pos.y,
        d is North ==> player.y < pos.y,
{
    assert(chase_choice(def, level, doors, occ, player, pos) == Some(d));
}

/// A monster that sees the party and is not fleeing takes the step along the
/// axis on which the party is farther off (horizontal on a tie) whenever that
/// step is open; it stays put only when no step toward the party is open.
pub proof fn lemma_chase_prefers_long_axis(
    def: MonsterDef,
    level: Level,
    doors: Seq<bool>,
    occ: Seq<GridPos>,
    player: GridPos,
    pos: GridPos,
    coin: bool,
    pick: usize,
)
    requires
        spec_sees(def, level, doors, pos, player),
    ensures
        ({
            let c = ai_choice(def, level, doors, occ, player, pos, false, coin, pick);
            let ax = abs_int(player.x - pos.x);
            let ay = abs_int(player.y - pos.y);
            let open = |d: Facing| may_step(def, level, doors, occ, player, pos, d);
            &&& ax >= ay && player.x > pos.x && open(Facing::East) ==> c == Some(Facing::East)
            &&& ax >= ay && player.x < pos.x && open(Facing::West) ==> c == Some(Facing::West)
            &&& ay > ax && player.y > pos.y && open(Facing::South) ==> c == Some(Facing::South)
            &&& ay > ax && player.y < pos.y && open(Facing::North) ==> c == Some(Facing::North)
            &&& c is None ==> !(player.x > pos.x && open(Facing::East)) && !(player.x < pos.x && open(Facing::West))
                && !(player.y > pos.y && open(Facing::South)) && !(player.y < pos.y && open(Facing::North))
        }),
{
}

/// Among `dirs`, [`farthest`] picks one whose target tile is at least as far
/// from the party as every other's.
pub proof fn lemma_farthest_is_farthest(dirs: Seq<Facing>, pos: GridPos, player: GridPos)
    ensures
        dirs.len() == 0 <==> farthest(dirs, pos, player) is None,
        farthest(dirs, pos, player) matches Some(b) ==> dirs.contains(b) && forall|i: int|
            0 <= i < dirs.len() ==> spec_chebyshev(step_target(pos, #[trigger] dirs[i]), player) <= spec_chebyshev(
                step_target(pos, b),
                player,
            ),
    decreases dirs.len(),
{
    if dirs.len() > 0 {
        let init = dirs.drop_last();
        lemma_farthest_is_farthest(init, pos, player);
        let d = dirs.last();
        assert(dirs[dirs.len() - 1] == d);
        match farthest(init, pos, player) {
            None => {
                assert(dirs.len() == 1);
            },
            Some(b) => {
                let k = choose|k: int| 0 <= k < init.len() && init[k] == b;
                assert(dirs[k] == b);
                let r = farthest(dirs, pos, player)->0;
                assert(dirs.contains(r));
                assert forall|i: int| 0 <= i < dirs.len() implies spec_chebyshev(
                    step_target(pos, #[trigger] dirs[i]),
                    player,
                ) <= spec_chebyshev(step_target(pos, r), player) by {
                    if i < dirs.len() - 1 {
                        assert(dirs[i] == init[i]);
                    }
                }
            },
        }
    }
}

/// A fleeing monster that sees the party and has a step open takes an open
/// step whose target is at least as far from the party as any other open
/// step's.
pub proof fn lemma_flee_retreats(
    def: MonsterDef,
    level: Level,
    doors: Seq<bool>,
    occ: Seq<GridPos>,
    player: GridPos,
    pos: GridPos,
    coin: bool,
    pick: usize,
    e: Facing,
)
    requires
        spec_sees(def, level, doors, pos, player),
        may_step(def, level, doors, occ, player, pos, e),
    ensures
        ai_choice(def, level, doors, occ, player, pos, true, coin, pick) matches Some(d) && may_step(
            def,
            level,
            doors,
            occ,
            player,
            pos,
            d,
        ) && spec_chebyshev(step_target(pos, e), player) <= spec_chebyshev(step_target(pos, d), player),
{
    let open = open_dirs(def, level, doors, occ, player, pos);
    let n = keep_if(may_step(def, level, doors, occ, player, pos, Facing::North), Facing::North);
    let ea = keep_if(may_step(def, level, doors, occ, player, pos, Facing::East), Facing::East);
    let so = keep_if(may_step(def, level, doors, occ, player, pos, Facing::South), Facing::South);
    let we = keep_if(may_step(def, level, doors, occ, player, pos, Facing::West), Facing::West);
    assert(open == n + ea + so + we);
    assert(forall|i: int| 0 <= i < open.len() ==> may_step(def, level, doors, occ, player, pos, #[trigger] open[i]));
    let ie: int = match e {
        Facing::North => 0,
        Facing::East => n.len() as int,
        Facing::South => (n.len() + ea.len()) as int,
        Facing::West => (n.len() + ea.len() + so.len()) as int,
    };
    assert(open[ie] == e);
    lemma_farthest_is_farthest(open, pos, player);
    let d = farthest(open, pos, player)->0;
    let j = choose|j: int| 0 <= j < open.len() && open[j] == d;
    assert(may_step(def, level, doors, occ, player, pos, open[j]));
}

proof fn lemma_choice_open(
    def: MonsterDef,
    level: Level,
    doors: Seq<bool>,
    occ: Seq<GridPos>,
    player: GridPos,
    pos: GridPos,
    fleeing: bool,
    coin: bool,
    pick: usize,
    d: Facing,
)
    requires
        ai_choice(def, level, doors, occ, player, pos, fleeing, coin, pick) == Some(d),
    ensures
        may_step(def, level, doors, occ, player, pos, d),
{
    let open = open_dirs(def, level, doors, occ, player, pos);
    let n = keep_if(may_step(def, level, doors, occ, player, pos, Facing::North), Facing::North);
    let ea = keep_if(may_step(def, level, doors, occ, player, pos, Facing::East), Facing::East);
    let so = keep_if(may_step(def, level, doors, occ, player, pos, Facing::South), Facing::South);
    let we = keep_if(may_step(def, level, doors, occ, player, pos, Facing::West), Facing::West);
    assert(open == n + ea + so + we);
    assert(forall|i: int| 0 <= i < open.len() ==> may_step(def, level, doors, occ, player, pos, #[trigger] open[i]));
    let sees = spec_sees(def, level, doors, pos, player);
    if fleeing && sees {
        lemma_farthest_is_farthest(open, pos, player);
        let j = choose|j: int| 0 <= j < open.len() && open[j] == d;
        assert(may_step(def, level, doors, occ, player, pos, open[j]));
    } else if sees {
    } else {
        let j = (pick as int) % (open.len() as int);
        assert(may_step(def, level, doors, occ, player, pos, open[j]));
    }
}

/// Whatever a monster chooses (chasing, fleeing or wandering), its step lands
/// on a tile of the level that is not the party's, not a wall and not a door
/// of a closed kind, and an immobile monster never steps.
pub proof fn lemma_monster_steps_legally(
    def: MonsterDef,
    level: Level,
    doors: Seq<bool>,
    occ: Seq<GridPos>,
    player: GridPos,
    pos: GridPos,
    fleeing: bool,
    coin: bool,
    pick: usize,
    d: Facing,
)
    requires
        ai_choice(def, level, doors, occ, player, pos, fleeing, coin, pick) == Some(d),
    ensures
        ({
            let t = step_target(pos, d);
            &&& t != player
            &&& level.spec_block_at(t) is Some
            &&& level.spec_block_at(t) != Some(Block::Wall)
            &&& forall|k: u8| level.spec_block_at(t) == Some(Block::Door { kind: k }) ==> (k as int) < doors.len()
                && doors[k as int]
            &&& def.move_type != MoveType::Immobile
        }),
{
    lemma_choice_open(def, level, doors, occ, player, pos, fleeing, coin, pick, d);
}

/// A monster's AI turn, while it is not fleeing (and not about to start) and
/// sees the party: if it moves at all, it ends one step nearer the party.
pub proof fn lemma_think_chases(
    m: Monster,
    def: MonsterDef,
    level: Level,
    doors: Seq<bool>,
    occ: Seq<GridPos>,
    player: GridPos,
    cycle: u64,
    holding: bool,
    coin: bool,
    pick: usize,
)
    requires
        pos_interior(m.pos),
        !m.fleeing,
        m.hp >= def.flee_hp,
        spec_sees(def, level, doors, m.pos, player),
    ensures
        ({
            let r = spec_think(m, Some(def), level, doors, occ, player, cycle, holding, coin, pick);
            r.moved_this_cycle ==> spec_manhattan(r.pos, player) == spec_manhattan(m.pos, player) - 1
        }),
{
    let r = spec_think(m, Some(def), level, doors, occ, player, cycle, holding, coin, pick);
    if r.moved_this_cycle {
        let c = ai_choice(def, level, doors, occ, player, m.pos, false, coin, pick);
        assert(c is Some);
        lemma_chase_approaches(def, level, doors, occ, player, m.pos, coin, pick, c->0);
    }
}

fn step_dir(pos: GridPos, d: Facing) -> (r: GridPos)
    requires
        pos_interior(pos),
    ensures
        r == step_target(pos, d),
{
    let (dx, dy) = d.delta();
    GridPos::new(pos.x + dx, pos.y + dy, pos.floor)
}

fn open_dir_list(
    def: &MonsterDef,
    level: &Level,
    doors: &DoorStates,
    occ: &Vec<GridPos>,
    player: GridPos,
    pos: GridPos,
) -> (r: Vec<Facing>)
    requires
        pos_interior(pos),
        forall|d: Facing| pos_interior(#[trigger] step_target(pos, d)),
    ensures
        r@ == open_dirs(*def, *level, doors@, occ@, player, pos),
{
    let mut r: Vec<Facing> = Vec::new();
    let ghost s0 = r@;
    if can_enter(def, level, step_dir(pos, Facing::North), doors, occ, player, pos) {
        r.push(Facing::North);
    }
    let ghost s1 = r@;
    assert(s1 =~= keep_if(may_step(*def, *level, doors@, occ@, player, pos, Facing::North), Facing::North));
    if can_enter(def, level, step_dir(pos, Facing::East), doors, occ, player, pos) {
        r.push(Facing::East);
    }
    let ghost s2 = r@;
    assert(s2 =~= s1 + keep_if(may_step(*def, *level, doors@, occ@, player, pos, Facing::East), Facing::East));
    if can_enter(def, level, step_dir(pos, Facing::South), doors, occ, player, pos) {
        r.push(Facing::South);
    }
    let ghost s3 = r@;
    assert(s3 =~= s2 + keep_if(may_step(*def, *level, doors@, occ@, player, pos, Facing::South), Facing::South));
    if can_enter(def, level, step_dir(pos, Facing::West), doors, occ, player, pos) {
        r.push(Facing::West);
    }
    assert(r@ =~= s3 + keep_if(may_step(*def, *level, doors@, occ@, player, pos, Facing::West), Facing::West));
    r
}

fn farthest_of(dirs: &Vec<Facing>, pos: GridPos, player: GridPos) -> (r: Option<Facing>)
    requires
        pos_interior(pos),
    ensures
        r == farthest(dirs@, pos, player),
{
    let mut best: Option<Facing> = None;
    let mut best_d: i64 = 0;
    let mut i: usize = 0;
    while i < dirs.len()
        invariant
            i <= dirs@.len(),
            pos_interior(pos),
            best == farthest(dirs@.take(i as int), pos, player),
            best matches Some(b) ==> best_d == spec_chebyshev(step_target(pos, b), player),
        decreases dirs@.len() - i,
    {
        assert(dirs@.take(i as int + 1).drop_last() =~= dirs@.take(i as int));
        let d = dirs[i];
        let dist = chebyshev(step_dir(pos, d), player);
        match best {
            None => {
                best = Some(d);
                best_d = dist;
            },
            Some(_) => {
                if dist >= best_d {
                    best = Some(d);
                    best_d = dist;
                }
            },
        }
        i = i + 1;
    }
    assert(dirs@.take(dirs@.len() as int) =~= dirs@);
    best
}

fn chase_dir(
    def: &MonsterDef,
    level: &Level,
    doors: &DoorStates,
    occ: &Vec<GridPos>,
    player: GridPos,
    pos: GridPos,
) -> (r: Option<Facing>)
    requires
        pos_interior(pos),
        forall|d: Facing| pos_interior(#[trigger] step_target(pos, d)),
    ensures
        r == chase_choice(*def, *level, doors@, occ@, player, pos),
{
    let dx = player.x as i64 - pos.x as i64;
    let dy = player.y as i64 - pos.y as i64;
    let horiz = if dx > 0 {
        Some(Facing::East)
    } else if dx < 0 {
        Some(Facing::West)
    } else {
        None
    };
    let vert = if dy > 0 {
        Some(Facing::South)
    } else if dy < 0 {
        Some(Facing::North)
    } else {
        None
    };
    let ax: i64 = if dx < 0 {
        -dx
    } else {
        dx
    };
    let ay: i64 = if dy < 0 {
        -dy
    } else {
        dy
    };
    let (first, second) = if ax >= ay {
        (horiz, vert)
    } else {
        (vert, horiz)
    };
    if let Some(f) = first {
        if can_enter(def, level, step_dir(pos, f), doors, occ, player, pos) {
            return first;
        }
    }
    if let Some(s) = second {
        if can_enter(def, level, step_dir(pos, s), doors, occ, player, pos) {
            return second;
        }
    }
    None
}

/// Whether a monster of kind `def` at `pos` sees the party.
pub fn sees(def: &MonsterDef, level: &Level, doors: &DoorStates, pos: GridPos, player: GridPos) -> (r: bool)
    ensures
        r == spec_sees(*def, *level, doors@, pos, player),
{
    def.sight > 0 && chebyshev(pos, player) <= def.sight as i64 && line_of_sight(
        level,
        doors,
        pos,
        player,
    )
}

/// Whether some living monster of a known kind sees `pos`.
pub open spec fn seen_by_any(ms: Seq<Monster>, cat: MonsterCatalog, level: Level, doors: Seq<bool>, pos: GridPos) -> bool {
    exists|i: int|
        0 <= i < ms.len() && !(#[trigger] ms[i]).dead && (cat.spec_get(ms[i].def_id@) matches Some(d) && spec_sees(
            d,
            level,
            doors,
            ms[i].pos,
            pos,
        ))
}

/// Whether any living monster can see `pos` (within its sight and line of
/// sight). A party in view of a monster cannot begin to rest.
pub fn any_monster_sees(
    pos: GridPos,
    monsters: &Vec<Monster>,
    catalog: &MonsterCatalog,
    level: &Level,
    doors: &DoorStates,
) -> (r: bool)
    ensures
        r == seen_by_any(monsters@, *catalog, *level, doors@, pos),
{
    let mut i: usize = 0;
    while i < monsters.len()
        invariant
            i <= monsters@.len(),
            forall|k: int|
                0 <= k < i ==> !(!(#[trigger] monsters@[k]).dead && (catalog.spec_get(monsters@[k].def_id@) matches Some(
                    d,
                ) && spec_sees(d, *level, doors@, monsters@[k].pos, pos))),
        decreases monsters@.len() - i,
    {
        let m = &monsters[i];
        if !m.dead {
            match catalog.get(m.def_id.as_str()) {
                Some(d) => {
                    if sees(d, level, doors, m.pos, pos) {
                        return true;
                    }
                },
                None => {},
            }
        }
        i = i + 1;
    }
    false
}

/// Positions two steps away from the `i32` edges, so every step target is
/// itself an interior tile.
pub open spec fn pos_roomy(p: GridPos) -> bool {
    i32::MIN + 1 < p.x < i32::MAX - 1 && i32::MIN + 1 < p.y < i32::MAX - 1
}

/// Run one AI cycle for `m` (see [`spec_think`]). `coin` and `pick` are the
/// random draws for wandering.
pub fn monster_think(
    m: &mut Monster,
    catalog: &MonsterCatalog,
    level: &Level,
    doors: &DoorStates,
    occ: &Vec<GridPos>,
    player: GridPos,
    cycle: u64,
    holding: bool,
    coin: bool,
    pick: usize,
)
    requires
        cycle <= u64::MAX - 255,
        !old(m).dead ==> pos_roomy(old(m).pos),
    ensures
        *final(m) == spec_think(
            *old(m),
            catalog.spec_get(old(m).def_id@),
            *level,
            doors@,
            occ@,
            player,
            cycle,
            holding,
            coin,
            pick,
        ),
{
    m.moved_this_cycle = false;
    if m.dead {
        return ;
    }
    let def = match catalog.get(m.def_id.as_str()) {
        None => {
            return ;
        },
        Some(d) => d,
    };
    if def.action_unit >= 255 || def.move_type == MoveType::Immobile || cycle < m.next_action {
        return ;
    }
    m.next_action = cycle + def.action_unit as u64;
    let pos = m.pos;
    let seen = sees(def, level, doors, pos, player);
    if m.hp < def.flee_hp {
        m.fleeing = true;
    }
    assert forall|d: Facing| pos_interior(#[trigger] step_target(pos, d)) by {}
    let open = open_dir_list(def, level, doors, occ, player, pos);
    let step = if m.fleeing && seen {
        farthest_of(&open, pos, player)
    } else if seen {
        chase_dir(def, level, doors, occ, player, pos)
    } else if coin && open.len() > 0 {
        Some(open[pick % open.len()])
    } else {
        None
    };
    match step {
        Some(dir) => {
            m.pos = step_dir(pos, dir);
            m.facing = dir;
            m.moved_this_cycle = true;
            if !holding {
                m.anim = AnimKind::Walk;
            }
        },
        None => {
            if !holding {
                m.anim = AnimKind::Idle;
            }
        },
    }
    if chebyshev(m.pos, player) == 1 && m.pos.floor == player.floor {
        m.facing = facing_toward(m.pos, player);
    }
}

/// Whether the monster kind `id` is large (unknown kinds are not).
pub open spec fn is_large(defs: Seq<MonsterDef>, id: Seq<char>) -> bool {
    match lookup_monster(defs, id) {
        Some(d) => d.large,
        None => false,
    }
}

/// Every monster's footprint has representable coordinates.
pub open spec fn footprints_fit(ms: Seq<Monster>) -> bool {
    forall|i: int| 0 <= i < ms.len() ==> (#[trigger] ms[i]).pos.x < i32::MAX && ms[i].pos.y < i32::MAX
}

/// The tiles occupied by the living monsters, monster by monster.
pub open spec fn occupied_tiles(ms: Seq<Monster>, defs: Seq<MonsterDef>) -> Seq<GridPos>
    decreases ms.len(),
{
    if ms.len() == 0 {
        Seq::empty()
    } else {
        let m = ms.last();
        occupied_tiles(ms.drop_last(), defs) + if m.dead {
            Seq::empty()
        } else {
            Monster::spec_footprint(m.pos, is_large(defs, m.def_id@))
        }
    }
}

fn large_kind(catalog: &MonsterCatalog, id: &String) -> (r: bool)
    ensures
        r == is_large(catalog@, id@),
{
    match catalog.get(id.as_str()) {
        Some(d) => d.large,
        None => false,
    }
}

/// The tiles occupied by living monsters.
#[verifier::rlimit(40)]
#[verifier::spinoff_prover]
pub fn occupancy(monsters: &Vec<Monster>, catalog: &MonsterCatalog) -> (r: Vec<GridPos>)
    requires
        footprints_fit(monsters@),
    ensures
        r@ == occupied_tiles(monsters@, catalog@),
{
    let mut r: Vec<GridPos> = Vec::new();
    let mut i: usize = 0;
    while i < monsters.len()
        invariant
            i <= monsters@.len(),
            footprints_fit(monsters@),
            r@ == occupied_tiles(monsters@.take(i as int), catalog@),
        decreases monsters@.len() - i,
    {
        assert(monsters@.take(i as int + 1).drop_last() =~= monsters@.take(i as int));
        let m = &monsters[i];
        if !m.dead {
            let fp = m.footprint(large_kind(catalog, &m.def_id));
            let ghost before = r@;
            let mut j: usize = 0;
            while j < fp.len()
                invariant
                    j <= fp@.len(),
                    r@ == before + fp@.take(j as int),
                decreases fp@.len() - j,
            {
                r.push(fp[j]);
                assert(fp@.take(j as int + 1) =~= fp@.take(j as int).push(fp@[j as int]));
                j = j + 1;
            }
            assert(fp@.take(fp@.len() as int) =~= fp@);
        } else {
            assert(r@ =~= r@ + Seq::<GridPos>::empty());
        }
        i = i + 1;
    }
    assert(monsters@.take(monsters@.len() as int) =~= monsters@);
    r
}

/// Whether the living monster `m` covers tile `pos`.
pub open spec fn covers(m: Monster, defs: Seq<MonsterDef>, pos: GridPos) -> bool {
    !m.dead && Monster::spec_footprint(m.pos, is_large(defs, m.def_id@)).contains(pos)
}

/// `r` is the first living monster of `ms` covering `pos`, if any.
pub open spec fn target_pick(ms: Seq<Monster>, defs: Seq<MonsterDef>, pos: GridPos, r: Option<usize>) -> bool {
    match r {
        Some(i) => i < ms.len() && covers(ms[i as int], defs, pos) && forall|j: int|
            0 <= j < i ==> !covers(#[trigger] ms[j], defs, pos),
        None => forall|j: int| 0 <= j < ms.len() ==> !covers(#[trigger] ms[j], defs, pos),
    }
}

/// The first living monster whose footprint covers `pos`.
pub fn monster_at(pos: GridPos, monsters: &Vec<Monster>, catalog: &MonsterCatalog) -> (r: Option<usize>)
    requires
        footprints_fit(monsters@),
    ensures
        target_pick(monsters@, catalog@, pos, r),
{
    let mut i: usize = 0;
    while i < monsters.len()
        invariant
            i <= monsters@.len(),
            footprints_fit(monsters@),
            forall|j: int| 0 <= j < i ==> !covers(#[trigger] monsters@[j], catalog@, pos),
        decreases monsters@.len() - i,
    {
        let m = &monsters[i];
        if !m.dead {
            let fp = m.footprint(large_kind(catalog, &m.def_id));
            if tile_listed(&fp, pos) {
                return Some(i);
            }
        }
        i = i + 1;
    }
    None
}

/// The rotation counter after `k` wrapping increments.
pub open spec fn advance(x: usize, k: nat) -> usize
    decreases k,
{
    if k == 0 {
        x
    } else {
        advance(x, (k - 1) as nat).wrapping_add(1)
    }
}

/// The member slot the rotation counter `x` points at, `k` increments on.
pub open spec fn rotation_slot(x: usize, k: nat, n: int) -> int {
    advance(x, k) as int % n
}

/// `r` is the attacker the rotation picks from `start` among `ms`: the first
/// standing member from the rotation slot on (`None` when all are down), the
/// rotation then standing at `after`, just past the slot used.
pub open spec fn actor_pick(ms: Seq<PartyMember>, start: usize, r: Option<usize>, after: usize) -> bool {
    let n = ms.len() as int;
    match r {
        Some(i) => exists|k: nat|
            #![trigger advance(start, k)]
            k < n && i == rotation_slot(start, k, n) && !ms[i as int].state.down && (forall|j: nat|
                j < k ==> (#[trigger] ms[rotation_slot(start, j, n)]).state.down) && after == advance(start, k + 1),
        None => (forall|j: nat| j < n ==> (#[trigger] ms[rotation_slot(start, j, n)]).state.down) && after == advance(
            start,
            n as nat,
        ),
    }
}

/// Pick the next member to act: starting at the rotation counter, the first
/// standing member in rotation order; the counter advances once per member
/// looked at. `None` when everyone is down (or the party is empty).
pub fn next_actor(party: &Party, next: &mut usize) -> (r: Option<usize>)
    ensures
        actor_pick(party.members@, *old(next), r, *final(next)),
{
    let n = party.members.len();
    let ghost start = *next;
    let mut k: usize = 0;
    while k < n
        invariant
            k <= n == party.members@.len(),
            start == *old(next),
            *next == advance(start, k as nat),
            forall|j: nat| j < k ==> (#[trigger] party.members@[rotation_slot(start, j, n as int)]).state.down,
        decreases n - k,
    {
        let i = *next % n;
        assert(i == rotation_slot(start, k as nat, n as int));
        *next = next.wrapping_add(1);
        assert(*next == advance(start, (k + 1) as nat));
        if !party.members[i].state.down {
            proof {
                let kk = k as nat;
                assert(kk < n && i == rotation_slot(start, kk, n as int) && !party.members@[i as int].state.down
                    && (forall|j: nat| j < kk ==> (#[trigger] party.members@[rotation_slot(start, j, n as int)]).state.down)
                    && *next == advance(start, kk + 1));
            }
            return Some(i);
        }
        k = k + 1;
    }
    None
}

/// Each standing member's share of `exp` experience: the total split evenly
/// among them, rounded up.
pub open spec fn spec_exp_share(exp: int, alive: int) -> int {
    if alive == 0 {
        0
    } else {
        tdiv(exp + alive - 1, alive)
    }
}

pub fn exp_share(exp: i32, alive: usize) -> (r: i32)
    requires
        alive <= i32::MAX,
        exp + alive - 1 <= i32::MAX,
    ensures
        r == spec_exp_share(exp as int, alive as int),
{
    if alive == 0 {
        0
    } else {
        let a = alive as i32;
        (exp + (a - 1)) / a
    }
}

/// Member `m` after gaining `amount` experience (see `gain_exp`).
pub open spec fn gained(m: PartyMember, amount: int) -> PartyMember {
    let res = spec_level_ups(m.character.stats, m.character.growth, m.state.hp as int, m.state.mp as int, m.state.exp + amount);
    PartyMember {
        character: Character { stats: res.0, ..m.character },
        state: CharacterState { hp: res.1 as i32, mp: res.2 as i32, exp: res.3 as i32, ..m.state },
        inventory: m.inventory,
    }
}

/// The level-up announcements `m` produces gaining `amount` experience.
pub open spec fn gain_messages(m: PartyMember, amount: int) -> Seq<Seq<char>> {
    let res = spec_level_ups(m.character.stats, m.character.growth, m.state.hp as int, m.state.mp as int, m.state.exp + amount);
    res.4.map_values(|l: u32| level_up_message(m.character.first_name@, l))
}

/// Gaining `amount` experience stays in range for `m`.
pub open spec fn gain_fits(m: PartyMember, amount: int) -> bool {
    &&& i32::MIN <= m.state.exp + amount <= i32::MAX
    &&& level_ups_fit(m.character.stats, m.character.growth, m.state.hp as int, m.state.mp as int, m.state.exp + amount)
}

/// The announcements of every standing member gaining `amount`, in order.
pub open spec fn award_messages(ms: Seq<PartyMember>, amount: int) -> Seq<Seq<char>>
    decreases ms.len(),
{
    if ms.len() == 0 {
        Seq::empty()
    } else {
        award_messages(ms.drop_last(), amount) + if ms.last().state.down {
            Seq::empty()
        } else {
            gain_messages(ms.last(), amount)
        }
    }
}

/// How many members are standing.
pub open spec fn standing_count(ms: Seq<PartyMember>) -> nat
    decreases ms.len(),
{
    if ms.len() == 0 {
        0
    } else {
        standing_count(ms.drop_last()) + if ms.last().state.down {
            0nat
        } else {
            1nat
        }
    }
}

proof fn lemma_standing_count_bound(ms: Seq<PartyMember>)
    ensures
        standing_count(ms) <= ms.len(),
    decreases ms.len(),
{
    if ms.len() > 0 {
        lemma_standing_count_bound(ms.drop_last());
    }
}

/// Give every standing member `amount` experience; returns the level-up
/// announcements in member order.
pub fn award_exp(party: &mut Party, amount: i32) -> (msgs: Vec<String>)
    requires
        forall|i: int|
            0 <= i < old(party).members@.len() && !old(party).members@[i].state.down ==> gain_fits(
                #[trigger] old(party).members@[i],
                amount as int,
            ),
    ensures
        final(party).members@.len() == old(party).members@.len(),
        forall|i: int|
            0 <= i < final(party).members@.len() ==> #[trigger] final(party).members@[i] == if old(
                party,
            ).members@[i].state.down {
                old(party).members@[i]
            } else {
                gained(old(party).members@[i], amount as int)
            },
        msgs@.map_values(|s: String| s@) == award_messages(old(party).members@, amount as int),
{
    let ghost ms0 = party.members@;
    let mut msgs: Vec<String> = Vec::new();
    let mut i: usize = 0;
    while i < party.members.len()
        invariant
            i <= party.members@.len() == ms0.len(),
            forall|k: int| 0 <= k < ms0.len() && !ms0[k].state.down ==> gain_fits(#[trigger] ms0[k], amount as int),
            forall|k: int| 0 <= k < i ==> #[trigger] party.members@[k] == if ms0[k].state.down {
                ms0[k]
            } else {
                gained(ms0[k], amount as int)
            },
            forall|k: int| i <= k < ms0.len() ==> #[trigger] party.members@[k] == ms0[k],
            msgs@.map_values(|s: String| s@) == award_messages(ms0.take(i as int), amount as int),
        decreases ms0.len() - i,
    {
        assert(ms0.take(i as int + 1).drop_last() =~= ms0.take(i as int));
        assert(ms0.take(i as int + 1).last() == ms0[i as int]);
        if !party.members[i].state.down {
            let mut m = party.members.remove(i);
            assert(m == ms0[i as int]);
            assert(gain_fits(ms0[i as int], amount as int));
            let got = m.gain_exp(amount);
            let ghost before = msgs@;
            let mut j: usize = 0;
            while j < got.len()
                invariant
                    j <= got@.len(),
                    msgs@ == before + got@.take(j as int),
                decreases got@.len() - j,
            {
                msgs.push(got[j].clone());
                assert(got@.take(j as int + 1) =~= got@.take(j as int).push(got@[j as int]));
                j = j + 1;
            }
            assert(got@.take(got@.len() as int) =~= got@);
            assert(got@.map_values(|s: String| s@) =~= gain_messages(ms0[i as int], amount as int));
            assert(msgs@.map_values(|s: String| s@) =~= before.map_values(|s: String| s@) + got@.map_values(|s: String| s@));
            party.members.insert(i, m);
            assert(party.members@[i as int] == gained(ms0[i as int], amount as int));
        } else {
            assert(msgs@.map_values(|s: String| s@) =~= award_messages(ms0.take(i as int + 1), amount as int));
        }
        i = i + 1;
    }
    assert(ms0.take(ms0.len() as int) =~= ms0);
    msgs
}

/// The announcement of defeating a monster named `name` worth `exp`.
pub open spec fn defeat_message(name: Seq<char>, exp: int) -> Seq<char> {
    name + "を たおした! (経験値 "@ + signed_decimal(exp) + ")"@
}

/// Defeat monster `mon` (kind `def`) at `cycle`: it dies (HP 0, death
/// animation, death cycle recorded) and drops everything it carried (returned,
/// in order); the standing members share its experience, rounded up. The
/// announcements come back in order: the defeat, then every level-up.
pub fn kill_monster(mon: &mut Monster, def: &MonsterDef, cycle: u64, party: &mut Party) -> (r: (
    Vec<String>,
    Vec<String>,
))
    requires
        old(party).members@.len() <= i32::MAX,
        def.exp + standing_count(old(party).members@) - 1 <= i32::MAX,
        forall|i: int|
            0 <= i < old(party).members@.len() && !old(party).members@[i].state.down ==> gain_fits(
                #[trigger] old(party).members@[i],
                spec_exp_share(def.exp as int, standing_count(old(party).members@) as int),
            ),
    ensures
        *final(mon) == (Monster {
            hp: 0,
            dead: true,
            dead_cycle: cycle,
            anim: AnimKind::Death,
            carry: final(mon).carry,
            ..*old(mon)
        }),
        final(mon).carry@.len() == 0,
        r.1@ == old(mon).carry@,
        ({
            let share = spec_exp_share(def.exp as int, standing_count(old(party).members@) as int);
            &&& final(party).members@.len() == old(party).members@.len()
            &&& forall|i: int|
                0 <= i < final(party).members@.len() ==> #[trigger] final(party).members@[i] == if old(
                    party,
                ).members@[i].state.down {
                    old(party).members@[i]
                } else {
                    gained(old(party).members@[i], share)
                }
            &&& r.0@.map_values(|s: String| s@) == seq![defeat_message(def.name@, def.exp as int)]
                + award_messages(old(party).members@, share)
        }),
{
    mon.hp = 0;
    mon.dead = true;
    mon.dead_cycle = cycle;
    mon.anim = AnimKind::Death;
    let mut dropped: Vec<String> = Vec::new();
    std::mem::swap(&mut dropped, &mut mon.carry);
    let ghost ms0 = party.members@;
    let mut alive: usize = 0;
    let mut i: usize = 0;
    while i < party.members.len()
        invariant
            i <= party.members@.len(),
            party.members@ == ms0,
            alive == standing_count(ms0.take(i as int)),
            alive <= i,
        decreases party.members@.len() - i,
    {
        assert(ms0.take(i as int + 1).drop_last() =~= ms0.take(i as int));
        if !party.members[i].state.down {
            alive = alive + 1;
        }
        i = i + 1;
    }
    assert(ms0.take(ms0.len() as int) =~= ms0);
    let share = exp_share(def.exp, alive);
    let head = cat4(def.name.as_str(), "を たおした! (経験値 ", i64_text(def.exp as i64).as_str(), ")");
    let mut msgs: Vec<String> = Vec::new();
    msgs.push(head);
    let more = award_exp(party, share);
    let mut j: usize = 0;
    let ghost before = msgs@;
    while j < more.len()
        invariant
            j <= more@.len(),
            msgs@ == before + more@.take(j as int),
        decreases more@.len() - j,
    {
        msgs.push(more[j].clone());
        assert(more@.take(j as int + 1) =~= more@.take(j as int).push(more@[j as int]));
        j = j + 1;
    }
    assert(more@.take(more@.len() as int) =~= more@);
    assert(msgs@.map_values(|s: String| s@) =~= before.map_values(|s: String| s@) + more@.map_values(|s: String| s@));
    (msgs, dropped)
}

/// Whether monster `m` (kind `def`) attacks the party at `player` this cycle:
/// alive, able to attack, not fleeing, adjacent on the same floor, and its
/// attack cadence elapsed.
pub open spec fn attack_ready(m: Monster, def: MonsterDef, player: GridPos, cycle: u64) -> bool {
    &&& !m.dead
    &&& def.attack_freq < 255
    &&& !m.fleeing
    &&& m.pos.floor == player.floor
    &&& spec_chebyshev(m.pos, player) == 1
    &&& cycle >= m.next_attack
}

/// The attack cadence: when `m` attacks this cycle it schedules its next
/// attack `attack_freq` cycles on, shows its attack animation, and its
/// definition is returned for resolving the hit.
pub fn attack_due<'a>(m: &mut Monster, catalog: &'a MonsterCatalog, player: GridPos, cycle: u64) -> (r:
    Option<&'a MonsterDef>)
    requires
        cycle <= u64::MAX - 255,
    ensures
        match catalog.spec_get(old(m).def_id@) {
            Some(d) => if attack_ready(*old(m), d, player, cycle) {
                r == Some(&d) && *final(m) == (Monster {
                    next_attack: (cycle + d.attack_freq) as u64,
                    anim: AnimKind::Attack,
                    ..*old(m)
                })
            } else {
                r is None && *final(m) == *old(m)
            },
            None => r is None && *final(m) == *old(m),
        },
{
    if m.dead {
        return None;
    }
    let def = match catalog.get(m.def_id.as_str()) {
        None => {
            return None;
        },
        Some(d) => d,
    };
    if def.attack_freq >= 255 || m.fleeing {
        return None;
    }
    if m.pos.floor != player.floor || chebyshev(m.pos, player) != 1 || cycle < m.next_attack {
        return None;
    }
    m.next_attack = cycle + def.attack_freq as u64;
    m.anim = AnimKind::Attack;
    Some(def)
}

/// The indices of the standing members, in order.
pub open spec fn standing_indices(ms: Seq<PartyMember>) -> Seq<int>
    decreases ms.len(),
{
    if ms.len() == 0 {
        Seq::empty()
    } else {
        standing_indices(ms.drop_last()) + if ms.last().state.down {
            Seq::empty()
        } else {
            seq![ms.len() - 1]
        }
    }
}

pub proof fn lemma_standing_indices(ms: Seq<PartyMember>)
    ensures
        forall|k: int| 0 <= k < standing_indices(ms).len() ==> 0 <= #[trigger] standing_indices(ms)[k] < ms.len()
            && !ms[standing_indices(ms)[k]].state.down,
    decreases ms.len(),
{
    if ms.len() > 0 {
        lemma_standing_indices(ms.drop_last());
    }
}

/// The member a monster's attack goes to: among the standing members (in
/// order), the one `pick` selects modulo their number; `None` when everyone is
/// down.
pub fn pick_victim(party: &Party, pick: usize) -> (r: Option<usize>)
    ensures
        ({
            let alive = standing_indices(party.members@);
            if alive.len() == 0 {
                r is None
            } else {
                r == Some(alive[(pick as int) % (alive.len() as int)] as usize)
            }
        }),
        r matches Some(v) ==> v < party.members@.len() && !party.members@[v as int].state.down,
{
    let ghost ms = party.members@;
    let mut alive: Vec<usize> = Vec::new();
    let mut i: usize = 0;
    while i < party.members.len()
        invariant
            i <= ms.len(),
            ms == party.members@,
            alive@.len() == standing_indices(ms.take(i as int)).len(),
            forall|k: int| 0 <= k < alive@.len() ==> alive@[k] as int == #[trigger] standing_indices(ms.take(i as int))[k],
        decreases ms.len() - i,
    {
        assert(ms.take(i as int + 1).drop_last() =~= ms.take(i as int));
        assert(ms.take(i as int + 1).last() == ms[i as int]);
        if !party.members[i].state.down {
            alive.push(i);
        }
        i = i + 1;
    }
    assert(ms.take(ms.len() as int) =~= ms);
    proof {
        lemma_standing_indices(ms);
    }
    if alive.len() == 0 {
        None
    } else {
        let v = alive[pick % alive.len()];
        Some(v)
    }
}

/// Damage a monster of kind `def` deals to `m` on a hit: its attack against
/// the member's base defense, halved when the member guards.
pub open spec fn hit_damage(def: MonsterDef, m: PartyMember) -> int {
    let d = spec_final_damage(0, def.attack as int, m.character.stats.defense as int, 0, 1);
    if m.state.guarding {
        spec_guarded(d, true)
    } else {
        d
    }
}

/// Member `m` after taking a monster hit of `dmg`: guard and concentration
/// end, HP drops (not below 0) and the member falls at 0 HP.
pub open spec fn struck(m: PartyMember, dmg: int) -> PartyMember {
    let hp = if m.state.hp - dmg < 0 {
        0
    } else {
        m.state.hp - dmg
    };
    PartyMember {
        state: CharacterState {
            hp: hp as i32,
            guarding: false,
            concentrating: false,
            down: m.state.down || hp == 0,
            ..m.state
        },
        ..m
    }
}

/// The log lines of a monster named `name` hitting `vname` for `dmg`.
pub open spec fn hit_messages(name: Seq<char>, vname: Seq<char>, dmg: int, falls: bool) -> Seq<Seq<char>> {
    seq![name + "の こうげき! "@ + vname + "に "@ + signed_decimal(dmg) + "のダメージ"@] + if falls {
        seq![vname + "は 気絶した!"@]
    } else {
        Seq::empty()
    }
}

/// Resolve a monster's attack on member `v`: a miss (`hits` false) only logs
/// the dodge; a hit deals [`hit_damage`] and applies [`struck`].
pub fn monster_hit(def: &MonsterDef, party: &mut Party, v: usize, hits: bool) -> (msgs: Vec<String>)
    requires
        v < old(party).members@.len(),
        base_damage_in_range(0, def.attack as int, old(party).members@[v as int].character.stats.defense as int),
    ensures
        ({
            let m = old(party).members@[v as int];
            let vname = m.character.first_name@;
            if !hits {
                &&& final(party).members@ == old(party).members@
                &&& msgs@.map_values(|s: String| s@) == seq![def.name@ + "の こうげき! "@ + vname + "は かわした"@]
            } else {
                let dmg = hit_damage(*def, m);
                let after = struck(m, dmg);
                &&& final(party).members@ == old(party).members@.update(v as int, after)
                &&& msgs@.map_values(|s: String| s@) == hit_messages(def.name@, vname, dmg, after.state.hp == 0)
            }
        }),
{
    let mut msgs: Vec<String> = Vec::new();
    if !hits {
        let line = cat4(def.name.as_str(), "の こうげき! ", party.members[v].character.first_name.as_str(), "は かわした");
        msgs.push(line);
        assert(msgs@.map_values(|s: String| s@) =~= seq![def.name@ + "の こうげき! "@ + party.members@[v as int].character.first_name@ + "は かわした"@]);
        return msgs;
    }
    let ghost ms0 = party.members@;
    let mut m = party.members.remove(v);
    assert(m == ms0[v as int]);
    let mut dmg = final_damage(0, def.attack, m.character.stats.defense, 0, 1);
    if m.state.guarding {
        dmg = guarded(dmg, true);
        m.state.guarding = false;
    }
    m.state.concentrating = false;
    let raw = m.state.hp as i64 - dmg as i64;
    m.state.hp = if raw < 0 {
        0
    } else {
        raw as i32
    };
    let head = cat4(def.name.as_str(), "の こうげき! ", m.character.first_name.as_str(), "に ");
    let line = cat3(head.as_str(), i64_text(dmg as i64).as_str(), "のダメージ");
    msgs.push(line);
    if m.state.hp == 0 {
        m.state.down = true;
        msgs.push(cat(m.character.first_name.as_str(), "は 気絶した!"));
    }
    party.members.insert(v, m);
    assert(party.members@ =~= ms0.update(v as int, struck(ms0[v as int], hit_damage(*def, ms0[v as int]))));
    assert(msgs@.map_values(|s: String| s@) =~= hit_messages(def.name@, ms0[v as int].character.first_name@, hit_damage(*def, ms0[v as int]), party.members@[v as int].state.hp == 0));
    msgs
}

/// A copy of a list of strings.
pub fn copy_texts(v: &Vec<String>) -> (r: Vec<String>)
    ensures
        r@ == v@,
{
    let mut r: Vec<String> = Vec::new();
    let mut i: usize = 0;
    while i < v.len()
        invariant
            i <= v@.len(),
            r@ == v@.take(i as int),
        decreases v@.len() - i,
    {
        r.push(v[i].clone());
        assert(v@.take(i as int + 1) =~= v@.take(i as int).push(v@[i as int]));
        i = i + 1;
    }
    assert(v@.take(v@.len() as int) =~= v@);
    r
}

/// Monster `m` is the one placement `p` of kind `d` puts in the level: at
/// full health, at the placement's tile and facing, idle, carrying its kind's
/// items.
pub open spec fn placed_monster(p: MonsterPlacement, d: MonsterDef, m: Monster) -> bool {
    &&& m.def_id@ == d.id@
    &&& m.hp == d.max_hp
    &&& m.pos == (GridPos { x: p.x, y: p.y, floor: p.floor })
    &&& m.facing == p.facing
    &&& m.next_action == 0 && m.next_attack == 0 && !m.dead && m.dead_cycle == 0 && !m.fleeing
    &&& m.carry@ == d.carry_items@
    &&& m.anim == AnimKind::Idle && !m.moved_this_cycle
}

/// `ms` are the monsters the placements `ps` put in the level, in order;
/// placements of unknown kinds put none.
pub open spec fn spawned_from(ps: Seq<MonsterPlacement>, cat: MonsterCatalog, ms: Seq<Monster>) -> bool
    decreases ps.len(),
{
    if ps.len() == 0 {
        ms.len() == 0
    } else {
        match cat.spec_get(ps.last().id@) {
            None => spawned_from(ps.drop_last(), cat, ms),
            Some(d) => ms.len() > 0 && placed_monster(ps.last(), d, ms.last()) && spawned_from(
                ps.drop_last(),
                cat,
                ms.drop_last(),
            ),
        }
    }
}

/// The monsters of a level's initial placements (see [`spawned_from`]).
pub fn setup_monsters(placements: &Vec<MonsterPlacement>, catalog: &MonsterCatalog) -> (r: Vec<Monster>)
    ensures
        spawned_from(placements@, *catalog, r@),
{
    let mut out: Vec<Monster> = Vec::new();
    let mut i: usize = 0;
    while i < placements.len()
        invariant
            i <= placements@.len(),
            spawned_from(placements@.take(i as int), *catalog, out@),
        decreases placements@.len() - i,
    {
        assert(placements@.take(i as int + 1).drop_last() =~= placements@.take(i as int));
        assert(placements@.take(i as int + 1).last() == placements@[i as int]);
        let p = &placements[i];
        match catalog.get(p.id.as_str()) {
            Some(d) => {
                let m = Monster {
                    def_id: d.id.clone(),
                    hp: d.max_hp,
                    pos: GridPos { x: p.x, y: p.y, floor: p.floor },
                    facing: p.facing,
                    next_action: 0,
                    next_attack: 0,
                    dead: false,
                    dead_cycle: 0,
                    fleeing: false,
                    carry: copy_texts(&d.carry_items),
                    anim: AnimKind::Idle,
                    moved_this_cycle: false,
                };
                let ghost before = out@;
                out.push(m);
                assert(out@.drop_last() =~= before);
            },
            None => {},
        }
        i = i + 1;
    }
    assert(placements@.take(placements@.len() as int) =~= placements@);
    out
}

/// What a dead monster does this cycle.
#[derive(Clone, Debug, PartialEq, Eq)]
pub enum Regen {
    /// Nothing (alive, unknown kind, or still waiting).
    Stay,
    /// A kind that never regenerates: remove the monster.
    Despawn,
    /// Came back to life; the announcement.
    Revived(String),
}

/// Regeneration of a dead monster: kinds with no regeneration period vanish;
/// the others come back (full HP, not fleeing, carrying their kind's items
/// again, idle) once the period since death has elapsed, unless the party
/// stands on their tile.
pub fn regen_step(m: &mut Monster, catalog: &MonsterCatalog, cycle: u64, player: GridPos) -> (r: Regen)
    ensures
        match catalog.spec_get(old(m).def_id@) {
            Some(d) => if !old(m).dead {
                r == Regen::Stay && *final(m) == *old(m)
            } else if d.regen_cycles == 0 {
                r == Regen::Despawn && *final(m) == *old(m)
            } else if cycle >= old(m).dead_cycle + d.regen_cycles && old(m).pos != player {
                &&& r matches Regen::Revived(msg) && msg@ == d.name@ + "が よみがえった!"@
                &&& *final(m) == (Monster {
                    dead: false,
                    hp: d.max_hp,
                    fleeing: false,
                    carry: final(m).carry,
                    anim: AnimKind::Idle,
                    ..*old(m)
                })
                &&& final(m).carry@ == d.carry_items@
            } else {
                r == Regen::Stay && *final(m) == *old(m)
            },
            None => r == Regen::Stay && *final(m) == *old(m),
        },
{
    if !m.dead {
        return Regen::Stay;
    }
    let def = match catalog.get(m.def_id.as_str()) {
        None => {
            return Regen::Stay;
        },
        Some(d) => d,
    };
    if def.regen_cycles == 0 {
        return Regen::Despawn;
    }
    if cycle >= m.dead_cycle && cycle - m.dead_cycle >= def.regen_cycles && m.pos != player {
        m.dead = false;
        m.hp = def.max_hp;
        m.fleeing = false;
        m.carry = copy_texts(&def.carry_items);
        m.anim = AnimKind::Idle;
        return Regen::Revived(cat(def.name.as_str(), "が よみがえった!"));
    }
    Regen::Stay
}

/// The party is wiped out: it has members and every one is down.
pub fn party_wiped(party: &Party) -> (r: bool)
    ensures
        r == (party.members@.len() > 0 && forall|i: int|
            0 <= i < party.members@.len() ==> (#[trigger] party.members@[i]).state.down),
{
    if party.members.len() == 0 {
        return false;
    }
    let mut i: usize = 0;
    while i < party.members.len()
        invariant
            i <= party.members@.len(),
            forall|k: int| 0 <= k < i ==> (#[trigger] party.members@[k]).state.down,
        decreases party.members@.len() - i,
    {
        if !party.members[i].state.down {
            return false;
        }
        i = i + 1;
    }
    true
}

/// Member `m` brought back: standing, with HP and MP refilled to the base
/// maxima.
pub open spec fn revived(m: PartyMember) -> PartyMember {
    PartyMember {
        state: CharacterState {
            hp: m.character.stats.max_hp,
            mp: m.character.stats.max_mp,
            down: false,
            ..m.state
        },
        ..m
    }
}

/// Revive every member (see [`revived`]).
pub fn revive_all(party: &mut Party)
    ensures
        final(party).members@ == old(party).members@.map_values(|m: PartyMember| revived(m)),
{
    let ghost ms0 = party.members@;
    let mut i: usize = 0;
    while i < party.members.len()
        invariant
            i <= party.members@.len() == ms0.len(),
            forall|k: int| 0 <= k < i ==> #[trigger] party.members@[k] == revived(ms0[k]),
            forall|k: int| i <= k < ms0.len() ==> #[trigger] party.members@[k] == ms0[k],
        decreases ms0.len() - i,
    {
        let mut m = party.members.remove(i);
        assert(m == ms0[i as int]);
        m.state.hp = m.character.stats.max_hp;
        m.state.mp = m.character.stats.max_mp;
        m.state.down = false;
        party.members.insert(i, m);
        i = i + 1;
    }
    assert(party.members@ =~= ms0.map_values(|m: PartyMember| revived(m)));
}

/// The weapon a member wields in hand `h`: a held item whose definition is
/// known and has a positive sharpness.
pub open spec fn weapon_in(m: PartyMember, defs: Seq<ItemDef>, h: usize) -> Option<ItemDef> {
    match m.inventory@.item_at(SlotRef::Hand(h)) {
        Some(it) => match lookup_item(defs, it.def_id@) {
            Some(d) => if d.sharpness > 0 {
                Some(d)
            } else {
                None
            },
            None => None,
        },
        None => None,
    }
}

/// Sharpness and grip (at least 1) of the member's weapon, the first hand
/// preferred; bare hands otherwise.
pub open spec fn spec_weapon_stats(m: PartyMember, defs: Seq<ItemDef>) -> (i32, i32) {
    let pick = |d: ItemDef|
        (d.sharpness, if d.grip < 1 {
            1i32
        } else {
            d.grip
        });
    match weapon_in(m, defs, 0) {
        Some(d) => pick(d),
        None => match weapon_in(m, defs, 1) {
            Some(d) => pick(d),
            None => (UNARMED_SHARPNESS, UNARMED_GRIP),
        },
    }
}

fn weapon_of(m: &PartyMember, items: &ItemCatalog, h: usize) -> (r: Option<(i32, i32)>)
    requires
        m.inventory.wf(),
    ensures
        r == match weapon_in(*m, items@, h) {
            Some(d) => Some((d.sharpness, if d.grip < 1 {
                1i32
            } else {
                d.grip
            })),
            None => None,
        },
{
    match m.inventory.get(SlotRef::Hand(h)) {
        Some(it) => match items.get(it.def_id.as_str()) {
            Some(d) => if d.sharpness > 0 {
                Some((d.sharpness, if d.grip < 1 {
                    1
                } else {
                    d.grip
                }))
            } else {
                None
            },
            None => None,
        },
        None => None,
    }
}

pub fn weapon_stats(m: &PartyMember, items: &ItemCatalog) -> (r: (i32, i32))
    requires
        m.inventory.wf(),
    ensures
        r == spec_weapon_stats(*m, items@),
{
    match weapon_of(m, items, 0) {
        Some(w) => w,
        None => match weapon_of(m, items, 1) {
            Some(w) => w,
            None => (UNARMED_SHARPNESS, UNARMED_GRIP),
        },
    }
}

/// A tile whose four neighbours have representable coordinates.
pub open spec fn pos_interior(p: GridPos) -> bool {
    i32::MIN < p.x < i32::MAX && i32::MIN < p.y < i32::MAX
}

} // verus!
