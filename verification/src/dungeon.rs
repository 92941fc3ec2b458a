//! The dungeon model: blocks, facings, grid positions, floors, levels and the
//! per-kind door state.
use vstd::prelude::*;

verus! {

/// The four cardinal facings. `North` decreases `y`, `East` increases `x`.
#[derive(Clone, Copy, PartialEq, Eq, Debug, Structural)]
pub enum Facing {
    North,
    East,
    South,
    West,
}

impl Facing {
    pub open spec fn spec_delta(self) -> (int, int) {
        match self {
            Facing::North => (0, -1),
            Facing::East => (1, 0),
            Facing::South => (0, 1),
            Facing::West => (-1, 0),
        }
    }

    pub open spec fn spec_turn_right(self) -> Facing {
        match self {
            Facing::North => Facing::East,
            Facing::East => Facing::South,
            Facing::South => Facing::West,
            Facing::West => Facing::North,
        }
    }

    pub open spec fn spec_turn_left(self) -> Facing {
        match self {
            Facing::North => Facing::West,
            Facing::West => Facing::South,
            Facing::South => Facing::East,
            Facing::East => Facing::North,
        }
    }

    pub open spec fn spec_opposite(self) -> Facing {
        self.spec_turn_right().spec_turn_right()
    }

    /// The `(dx, dy)` grid step for moving one tile forward in this facing.
    pub fn delta(self) -> (r: (i32, i32))
        ensures
            r.0 == self.spec_delta().0,
            r.1 == self.spec_delta().1,
    {
        match self {
            Facing::North => (0, -1),
            Facing::East => (1, 0),
            Facing::South => (0, 1),
            Facing::West => (-1, 0),
        }
    }

    /// Rotate 90° clockwise (turn right).
    pub fn turn_right(self) -> (r: Facing)
        ensures
            r == self.spec_turn_right(),
    {
        match self {
            Facing::North => Facing::East,
            Facing::East => Facing::South,
            Facing::South => Facing::West,
            Facing::West => Facing::North,
        }
    }

    /// Rotate 90° counter-clockwise (turn left).
    pub fn turn_left(self) -> (r: Facing)
        ensures
            r == self.spec_turn_left(),
    {
        match self {
            Facing::North => Facing::West,
            Facing::West => Facing::South,
            Facing::South => Facing::East,
            Facing::East => Facing::North,
        }
    }

    /// The reverse heading (180°).
    pub fn opposite(self) -> (r: Facing)
        ensures
            r == self.spec_opposite(),
    {
        self.turn_right().turn_right()
    }
}

/// Turning right undoes turning left and vice versa; four right turns and two
/// reversals are the identity; the opposite heading steps the opposite way.
pub proof fn lemma_facing_rotations(f: Facing)
    ensures
        f.spec_turn_left().spec_turn_right() == f,
        f.spec_turn_right().spec_turn_left() == f,
        f.spec_turn_right().spec_turn_right().spec_turn_right().spec_turn_right() == f,
        f.spec_opposite().spec_opposite() == f,
        f.spec_opposite() != f,
        f.spec_opposite().spec_delta().0 == -f.spec_delta().0,
        f.spec_opposite().spec_delta().1 == -f.spec_delta().1,
        f.spec_turn_right() != f,
        f.spec_turn_left() != f,
{
}

/// A single dungeon block.
#[derive(Clone, Copy, PartialEq, Eq, Debug, Structural)]
pub enum Block {
    /// Solid wall. Blocks movement; its top face is the floor above it.
    Wall,
    /// Open passage / empty space.
    Empty,
    /// Water.
    Water,
    /// Fire / lava.
    Fire,
    /// Poison.
    Poison,
    /// A ladder: climbable, and always gives footing.
    Ladder,
    /// A door of kind `kind` (0 = "door 1", 1 = "door 2"), open or closed by kind.
    Door { kind: u8 },
    /// A one-way horoscope: the party may only travel through it heading `pass_from`.
    Horoscope { pass_from: Facing },
    /// A hole in the floor.
    Hole,
    /// Stairs to a linked level.
    Stairs { up: bool },
    /// A wall that can carry a written message.
    WritableWall,
    /// A vertical horoscope: climbable upward only (`from_below`) or downward only.
    HoroscopeVert { from_below: bool },
    /// A keyhole in a wall (pressed from the front).
    Keyhole,
    /// A switch in a wall (pressed from the front).
    Switch,
    /// A pressure plate.
    FloorPlate,
    /// A warp point.
    WarpPoint,
}

impl Default for Block {
    fn default() -> (r: Self)
        ensures
            r == Block::Empty,
    {
        Block::Empty
    }
}

/// The door state of one level: `open[kind]` per door kind.
pub open spec fn door_open(doors: Seq<bool>, kind: u8) -> bool {
    (kind as int) < doors.len() && doors[kind as int]
}

impl Block {
    pub open spec fn spec_is_wall(self) -> bool {
        self is Wall
    }

    /// Blocks that occupy their whole cell (nobody can stand inside them).
    pub open spec fn spec_is_solid(self) -> bool {
        match self {
            Block::Wall | Block::WritableWall | Block::Keyhole | Block::Switch => true,
            _ => false,
        }
    }

    pub open spec fn spec_allows_exit(self, dir: Facing) -> bool {
        match self {
            Block::Horoscope { pass_from } => dir == pass_from,
            _ => true,
        }
    }

    pub open spec fn spec_allows_enter(self, dir: Facing, doors: Seq<bool>) -> bool {
        match self {
            Block::Door { kind } => door_open(doors, kind),
            Block::Horoscope { pass_from } => dir == pass_from,
            _ => !self.spec_is_solid(),
        }
    }

    pub open spec fn spec_allows_climb(self, up: bool) -> bool {
        match self {
            Block::Ladder => true,
            Block::HoroscopeVert { from_below } => from_below == up,
            _ => false,
        }
    }

    pub open spec fn spec_allows_vertical(self, doors: Seq<bool>) -> bool {
        match self {
            Block::Door { kind } => door_open(doors, kind),
            _ => !self.spec_is_solid(),
        }
    }

    /// Whether the player can walk into a tile of this block in the simple
    /// plan-1 model: only a `Wall` blocks movement.
    pub fn is_walkable(self) -> (r: bool)
        ensures
            r == !(self is Wall),
    {
        !matches!(self, Block::Wall)
    }

    /// Whether this block is a plain wall.
    pub fn is_wall(self) -> (r: bool)
        ensures
            r == self.spec_is_wall(),
    {
        matches!(self, Block::Wall)
    }

    /// Whether this block fills its whole cell (wall-like blocks).
    pub fn is_solid(self) -> (r: bool)
        ensures
            r == self.spec_is_solid(),
    {
        matches!(self, Block::Wall | Block::WritableWall | Block::Keyhole | Block::Switch)
    }

    /// Whether this block is a ladder.
    pub fn is_ladder(self) -> (r: bool)
        ensures
            r == (self is Ladder),
    {
        matches!(self, Block::Ladder)
    }

    /// Whether a step heading `dir` may leave a cell of this block: only a
    /// one-way horoscope restricts leaving, to its own heading.
    pub fn allows_exit(self, dir: Facing) -> (r: bool)
        ensures
            r == self.spec_allows_exit(dir),
    {
        match self {
            Block::Horoscope { pass_from } => dir == pass_from,
            _ => true,
        }
    }

    /// Whether a step heading `dir` may enter a cell of this block: solid blocks
    /// refuse, a door admits only while its kind is open, and a one-way
    /// horoscope only in its own heading.
    pub fn allows_enter(self, dir: Facing, doors: &DoorStates) -> (r: bool)
        ensures
            r == self.spec_allows_enter(dir, doors@),
    {
        match self {
            Block::Door { kind } => doors.is_open(kind),
            Block::Horoscope { pass_from } => dir == pass_from,
            _ => !self.is_solid(),
        }
    }

    /// Whether a ladder climb (`up` or down) may pass through a cell of this
    /// block: ladders both ways, vertical horoscopes only in their direction.
    pub fn allows_climb(self, up: bool) -> (r: bool)
        ensures
            r == self.spec_allows_climb(up),
    {
        match self {
            Block::Ladder => true,
            Block::HoroscopeVert { from_below } => from_below == up,
            _ => false,
        }
    }

    /// Whether the cell can be entered vertically (from a ladder above): it is
    /// not solid, and a door must be open.
    pub fn allows_vertical(self, doors: &DoorStates) -> (r: bool)
        ensures
            r == self.spec_allows_vertical(doors@),
    {
        match self {
            Block::Door { kind } => doors.is_open(kind),
            _ => !self.is_solid(),
        }
    }
}

/// A logical grid position: tile `(x, y)` on `floor`.
#[derive(Clone, Copy, PartialEq, Eq, Debug, Structural)]
pub struct GridPos {
    pub x: i32,
    pub y: i32,
    pub floor: usize,
}

impl GridPos {
    pub fn new(x: i32, y: i32, floor: usize) -> (r: GridPos)
        ensures
            r == (GridPos { x, y, floor }),
    {
        GridPos { x, y, floor }
    }
}

/// One floor of a level: a `width` × `height` grid of blocks stored row-major.
#[derive(Clone, Debug, PartialEq, Eq)]
pub struct Floor {
    pub width: usize,
    pub height: usize,
    /// `width * height` blocks, row-major: index = `y * width + x`.
    pub blocks: Vec<Block>,
}

impl Floor {
    /// The block stored for cell `(x, y)`, if the cell is in bounds and stored.
    pub open spec fn spec_get(self, x: int, y: int) -> Option<Block> {
        if 0 <= x < self.width && 0 <= y < self.height && y * self.width + x
            < self.blocks@.len() {
            Some(self.blocks@[y * self.width + x])
        } else {
            None
        }
    }

    /// The grid holds exactly `width * height` blocks.
    pub open spec fn wf(self) -> bool {
        self.blocks@.len() == self.width * self.height
    }

    /// Block at `(x, y)`, or `None` if out of bounds.
    pub fn get(&self, x: i32, y: i32) -> (r: Option<Block>)
        ensures
            r == self.spec_get(x as int, y as int),
    {
        if x < 0 || y < 0 || x as usize >= self.width || y as usize >= self.height {
            return None;
        }
        let yy = y as usize;
        let xx = x as usize;
        let n = self.blocks.len();
        match yy.checked_mul(self.width) {
            None => {
                assert(yy * self.width >= n);
                None
            },
            Some(row) => match row.checked_add(xx) {
                None => None,
                Some(idx) => {
                    if idx < self.blocks.len() {
                        Some(self.blocks[idx])
                    } else {
                        None
                    }
                },
            },
        }
    }
}

/// Cell `(x, y)` of a well-formed floor is in bounds exactly when its index is
/// below the block count.
pub proof fn lemma_cell_index(width: int, height: int, x: int, y: int)
    requires
        0 <= x < width,
        0 <= y < height,
    ensures
        0 <= y * width + x < width * height,
{
    assert(y * width + x < width * height) by (nonlinear_arith)
        requires
            0 <= x < width,
            0 <= y < height,
    ;
    assert(0 <= y * width) by (nonlinear_arith)
        requires
            0 <= y,
            0 <= width,
    ;
}

/// A level: floors stacked bottom (index 0) to top.
#[derive(Clone, Debug, PartialEq, Eq)]
pub struct Level {
    pub floors: Vec<Floor>,
}

impl Level {
    pub open spec fn spec_block_at(self, pos: GridPos) -> Option<Block> {
        if pos.floor < self.floors@.len() {
            self.floors@[pos.floor as int].spec_get(pos.x as int, pos.y as int)
        } else {
            None
        }
    }

    pub open spec fn spec_cell(self, x: int, y: int, floor: int) -> Option<Block> {
        if 0 <= floor < self.floors@.len() {
            self.floors@[floor].spec_get(x, y)
        } else {
            None
        }
    }

    /// Footing rule: a ladder always supports; floor 0 rests on bedrock; higher
    /// floors need a `Wall` directly below.
    pub open spec fn spec_is_supported(self, x: int, y: int, floor: int) -> bool {
        self.spec_cell(x, y, floor) == Some(Block::Ladder) || floor == 0 || self.spec_cell(
            x,
            y,
            floor - 1,
        ) == Some(Block::Wall)
    }

    /// Every floor holds exactly `width * height` blocks.
    pub open spec fn wf(self) -> bool {
        forall|i: int| 0 <= i < self.floors@.len() ==> #[trigger] self.floors@[i].wf()
    }

    pub fn floor(&self, index: usize) -> (r: Option<&Floor>)
        ensures
            r == (if index < self.floors@.len() {
                Some(&self.floors@[index as int])
            } else {
                None
            }),
    {
        if index < self.floors.len() {
            Some(&self.floors[index])
        } else {
            None
        }
    }

    /// Number of stacked floors.
    pub fn floor_count(&self) -> (r: usize)
        ensures
            r == self.floors@.len(),
    {
        self.floors.len()
    }

    /// Block at a grid position, or `None` if the floor / cell is out of bounds.
    pub fn block_at(&self, pos: GridPos) -> (r: Option<Block>)
        ensures
            r == self.spec_block_at(pos),
            r == self.spec_cell(pos.x as int, pos.y as int, pos.floor as int),
    {
        if pos.floor < self.floors.len() {
            self.floors[pos.floor].get(pos.x, pos.y)
        } else {
            None
        }
    }

    /// Whether the player can stand on cell `(x, y)` of `floor` without falling.
    pub fn is_supported(&self, x: i32, y: i32, floor: usize) -> (r: bool)
        ensures
            r == self.spec_is_supported(x as int, y as int, floor as int),
    {
        if floor < self.floors.len() && self.floors[floor].get(x, y) == Some(Block::Ladder) {
            return true;
        }
        if floor == 0 {
            return true;
        }
        floor - 1 < self.floors.len() && self.floors[floor - 1].get(x, y) == Some(Block::Wall)
    }

    /// The floor the player comes to rest on after entering `(x, y, floor)`:
    /// the highest floor at or below `floor` that is supported, every floor in
    /// between being unsupported. Floor 0 always supports, so this terminates.
    pub fn landing_floor(&self, x: i32, y: i32, floor: usize) -> (r: usize)
        ensures
            r <= floor,
            self.spec_is_supported(x as int, y as int, r as int),
            forall|f: int| r < f <= floor ==> !self.spec_is_supported(x as int, y as int, f),
    {
        let mut f = floor;
        while f > 0 && !self.is_supported(x, y, f)
            invariant
                f <= floor,
                forall|g: int| f < g <= floor ==> !self.spec_is_supported(x as int, y as int, g),
            decreases f,
        {
            f = f - 1;
        }
        f
    }

    /// Overwrite the block at `pos` (no-op when `pos` is out of bounds).
    pub fn set_block(&mut self, pos: GridPos, block: Block)
        ensures
            final(self).floors@.len() == old(self).floors@.len(),
            forall|i: int|
                0 <= i < final(self).floors@.len() ==> (#[trigger] final(self).floors@[i]).width
                    == old(self).floors@[i].width && final(self).floors@[i].height == old(self).floors@[i].height && final(self).floors@[i].blocks@.len() == old(self).floors@[i].blocks@.len(),
            forall|x: int, y: int, f: int|
                #![trigger final(self).spec_cell(x, y, f)]
                final(self).spec_cell(x, y, f) == if x == pos.x && y == pos.y && f == pos.floor
                    && old(self).spec_cell(x, y, f) is Some {
                    Some(block)
                } else {
                    old(self).spec_cell(x, y, f)
                },
    {
        if pos.floor < self.floors.len() {
            let fl = pos.floor;
            if pos.x >= 0 && pos.y >= 0 && (pos.x as usize) < self.floors[fl].width
                && (pos.y as usize) < self.floors[fl].height {
                let w = self.floors[fl].width;
                let n = self.floors[fl].blocks.len();
                let yy = pos.y as usize;
                let xx = pos.x as usize;
                if let Some(row) = yy.checked_mul(w) {
                    if let Some(idx) = row.checked_add(xx) {
                        if idx < self.floors[fl].blocks.len() {
                            let mut floor_v = self.floors.remove(fl);
                            floor_v.blocks.set(idx, block);
                            self.floors.insert(fl, floor_v);
                            assert forall|x: int, y: int, f: int|
                                #![trigger self.spec_cell(x, y, f)]
                                self.spec_cell(x, y, f) == if x == pos.x && y == pos.y && f
                                    == pos.floor && old(self).spec_cell(x, y, f) is Some {
                                    Some(block)
                                } else {
                                    old(self).spec_cell(x, y, f)
                                } by {
                                if f == fl && 0 <= x < w && 0 <= y < self.floors@[f].height {
                                    if y * w + x == idx as int {
                                        assert(y == pos.y && x == pos.x) by (nonlinear_arith)
                                            requires
                                                y * w + x == yy * w + xx,
                                                0 <= x < w,
                                                0 <= xx < w,
                                                0 <= y,
                                                0 <= yy,
                                                yy == pos.y,
                                                xx == pos.x,
                                        ;
                                    } else {
                                        assert(!(x == pos.x && y == pos.y));
                                    }
                                }
                            }
                            return ;
                        }
                    }
                }
                assert forall|x: int, y: int, f: int|
                    #![trigger self.spec_cell(x, y, f)]
                    !(x == pos.x && y == pos.y && f == pos.floor && old(self).spec_cell(
                        x,
                        y,
                        f,
                    ) is Some) by {
                    if x == pos.x && y == pos.y && f == pos.floor {
                        assert(yy * w + xx >= n);
                    }
                }
            }
        }
    }
}

/// Floor 0 always gives footing.
pub proof fn lemma_floor_zero_supports(level: Level, x: int, y: int)
    ensures
        level.spec_is_supported(x, y, 0),
{
}

/// Open/closed state of each door *kind* in the current level, keyed by kind
/// index. Unknown kinds read as closed.
#[derive(Clone, Debug, Default)]
pub struct DoorStates {
    open: Vec<bool>,
}

impl View for DoorStates {
    type V = Seq<bool>;

    closed spec fn view(&self) -> Seq<bool> {
        self.open@
    }
}

impl DoorStates {
    /// All-closed state for `kinds` door kinds.
    pub fn new(kinds: usize) -> (r: DoorStates)
        ensures
            r@ == Seq::new(kinds as nat, |i: int| false),
    {
        let mut open: Vec<bool> = Vec::new();
        let mut i: usize = 0;
        while i < kinds
            invariant
                i <= kinds,
                open@ == Seq::new(i as nat, |j: int| false),
            decreases kinds - i,
        {
            open.push(false);
            i = i + 1;
        }
        DoorStates { open }
    }

    /// Is the given door kind currently open? Unknown kinds read as closed.
    pub fn is_open(&self, kind: u8) -> (r: bool)
        ensures
            r == door_open(self@, kind),
    {
        let k = kind as usize;
        if k < self.open.len() {
            self.open[k]
        } else {
            false
        }
    }

    /// Flip the open/closed state of a door kind (no-op for unknown kinds).
    pub fn toggle(&mut self, kind: u8)
        ensures
            final(self)@ == if (kind as int) < old(self)@.len() {
                old(self)@.update(kind as int, !old(self)@[kind as int])
            } else {
                old(self)@
            },
    {
        let k = kind as usize;
        if k < self.open.len() {
            let v = self.open[k];
            self.open.set(k, !v);
        }
    }

    /// Force a door kind open or closed (no-op for unknown kinds).
    pub fn set(&mut self, kind: u8, open: bool)
        ensures
            final(self)@ == if (kind as int) < old(self)@.len() {
                old(self)@.update(kind as int, open)
            } else {
                old(self)@
            },
    {
        let k = kind as usize;
        if k < self.open.len() {
            self.open.set(k, open);
        }
    }
}

/// Toggling a door kind twice gives back the door states it started from; a toggled kind
/// reads the opposite of what it read before.
pub proof fn lemma_toggle_involution(doors: Seq<bool>, kind: u8)
    ensures
        ({
            let once = if (kind as int) < doors.len() {
                doors.update(kind as int, !doors[kind as int])
            } else {
                doors
            };
            let twice = if (kind as int) < once.len() {
                once.update(kind as int, !once[kind as int])
            } else {
                once
            };
            &&& twice == doors
            &&& (kind as int) < doors.len() ==> door_open(once, kind) == !door_open(doors, kind)
        }),
{
    let once = if (kind as int) < doors.len() {
        doors.update(kind as int, !doors[kind as int])
    } else {
        doors
    };
    let twice = if (kind as int) < once.len() {
        once.update(kind as int, !once[kind as int])
    } else {
        once
    };
    assert(twice =~= doors);
}

/// The loaded dungeon plus the player's starting placement.
#[derive(Clone, Debug)]
pub struct Dungeon {
    pub level: Level,
    pub start_pos: GridPos,
    pub start_facing: Facing,
}

} // verus!
