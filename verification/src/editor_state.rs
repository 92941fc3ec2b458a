//! The map editor's state: the edited project levels, the current level and
//! floor, the selected block, and an undo/redo history in which each drag
//! stroke or start move is one step. Every edit goes through these methods so
//! it can be undone.
use vstd::prelude::*;
use crate::dungeon::{Block, Facing, GridPos, Level};
use crate::project::{LevelData, Project};

verus! {

/// Cap on the undo history; older steps are dropped past this.
pub const UNDO_LIMIT: usize = 256;

/// The player's start placement (position and facing), the unit of a start
/// edit.
#[derive(Clone, Copy, PartialEq, Eq, Debug, Structural)]
pub struct StartPlacement {
    pub pos: GridPos,
    pub facing: Facing,
}

/// One undoable edit: cell changes `(cell, before, after)` and/or a start
/// placement change `(before, after)`. A drag stroke is one edit, with one
/// entry per distinct cell.
#[derive(Debug)]
pub struct EditOp {
    cells: Vec<(GridPos, Block, Block)>,
    start_change: Option<(StartPlacement, StartPlacement)>,
}

/// The abstract content of an edit.
pub struct OpView {
    pub cells: Seq<(GridPos, Block, Block)>,
    pub start_change: Option<(StartPlacement, StartPlacement)>,
}

impl View for EditOp {
    type V = OpView;

    closed spec fn view(&self) -> OpView {
        OpView { cells: self.cells@, start_change: self.start_change }
    }
}

impl EditOp {
    /// The cell changes `(cell, before, after)`.
    pub fn cells(&self) -> (r: &Vec<(GridPos, Block, Block)>)
        ensures
            r@ == self@.cells,
    {
        &self.cells
    }

    /// The start placement change `(before, after)`, if any.
    pub fn start_change(&self) -> (r: Option<(StartPlacement, StartPlacement)>)
        ensures
            r == self@.start_change,
    {
        self.start_change
    }
}

/// A drag stroke in progress: the floor it paints and, for each touched cell
/// `(x, y)`, the block it held before the stroke.
#[derive(Debug)]
pub struct Stroke {
    pub floor: usize,
    pub before: Vec<((i32, i32), Block)>,
}

/// The editor's state. The UI changes the levels only through its methods.
#[derive(Debug)]
pub struct EditorState {
    pub project_dir: String,
    pub project_name: String,
    pub level_paths: Vec<String>,
    pub levels: Vec<LevelData>,
    pub level_index: usize,
    pub floor_index: usize,
    pub selected: Block,
    pub status: String,
    /// Cell under the cursor last frame (drives the status bar).
    pub cursor: Option<(i32, i32)>,
    /// Per-level unsaved flag.
    pub dirty: Vec<bool>,
    /// Undoable edits, oldest first.
    pub undo: Vec<EditOp>,
    /// Undone edits that can be redone, oldest first.
    pub redo: Vec<EditOp>,
    /// The drag stroke in progress, if any.
    pub stroke: Option<Stroke>,
}

/// A level the editor can work on: at least one floor, every floor a
/// well-formed grid of the same size as floor 0, whose sides are `i32`s.
pub open spec fn editable(ld: LevelData) -> bool {
    let fs = ld.level.floors@;
    &&& fs.len() > 0
    &&& fs[0].width <= i32::MAX && fs[0].height <= i32::MAX
    &&& forall|f: int|
        0 <= f < fs.len() ==> (#[trigger] fs[f]).wf() && fs[f].width == fs[0].width && fs[f].height
            == fs[0].height
}

/// The width of a level's grid (that of floor 0).
pub open spec fn grid_w(ld: LevelData) -> int {
    ld.level.floors@[0].width as int
}

/// The height of a level's grid (that of floor 0).
pub open spec fn grid_h(ld: LevelData) -> int {
    ld.level.floors@[0].height as int
}

/// Whether `(x, y)` lies on the grid of `ld`.
pub open spec fn on_grid(ld: LevelData, x: int, y: int) -> bool {
    0 <= x < grid_w(ld) && 0 <= y < grid_h(ld)
}

/// Whether a stroke's cells are distinct and on the grid of `ld`.
pub open spec fn stroke_ok(ld: LevelData, floor: usize, before: Seq<((i32, i32), Block)>) -> bool {
    &&& floor < ld.level.floors@.len()
    &&& forall|i: int| 0 <= i < before.len() ==> on_grid(ld, (#[trigger] before[i]).0.0 as int, before[i].0.1 as int)
    &&& forall|i: int, j: int| 0 <= i < j < before.len() ==> (#[trigger] before[i]).0 != (#[trigger] before[j]).0
}

impl EditorState {
    /// The current level.
    pub open spec fn cur_level(self) -> LevelData {
        self.levels@[self.level_index as int]
    }

    /// The undo history, oldest first.
    pub open spec fn undo_ops(self) -> Seq<OpView> {
        self.undo@.map_values(|op: EditOp| op@)
    }

    /// The redo history, oldest first.
    pub open spec fn redo_ops(self) -> Seq<OpView> {
        self.redo@.map_values(|op: EditOp| op@)
    }

    /// The stroke in progress: its floor and each touched cell with the block
    /// it held before.
    pub open spec fn stroke_view(self) -> Option<(usize, Seq<((i32, i32), Block)>)> {
        match self.stroke {
            Some(s) => Some((s.floor, s.before@)),
            None => None,
        }
    }

    /// The per-level unsaved flags.
    pub open spec fn dirty_flags(self) -> Seq<bool> {
        self.dirty@
    }

    /// The state is usable: a current level and floor exist, every level is
    /// editable, each level has its unsaved flag, and a stroke in progress
    /// stays on the current level's grid.
    pub open spec fn wf(self) -> bool {
        &&& self.level_index < self.levels@.len()
        &&& forall|i: int| 0 <= i < self.levels@.len() ==> editable(#[trigger] self.levels@[i])
        &&& self.dirty_flags().len() == self.levels@.len()
        &&& self.undo_ops().len() + self.redo_ops().len() <= UNDO_LIMIT
        &&& self.floor_index < self.cur_level().level.floors@.len()
        &&& match self.stroke_view() {
            Some((f, b)) => stroke_ok(self.cur_level(), f, b),
            None => true,
        }
    }

    /// An editor on `project`: its first level and floor, `Wall` selected,
    /// nothing unsaved and no history.
    pub fn new(project: Project) -> (r: EditorState)
        ensures
            r.project_dir == project.dir,
            r.project_name == project.name,
            r.level_paths == project.level_paths,
            r.levels == project.levels,
            r.level_index == 0 && r.floor_index == 0,
            r.selected == Block::Wall,
            r.status@ == "Ready"@,
            r.cursor is None,
            r.dirty_flags() == Seq::new(project.levels@.len(), |i: int| false),
            r.undo_ops().len() == 0 && r.redo_ops().len() == 0,
            r.stroke_view() is None,
            project.levels@.len() > 0 && (forall|i: int|
                0 <= i < project.levels@.len() ==> editable(#[trigger] project.levels@[i])) ==> r.wf(),
    {
        let n = project.levels.len();
        let mut dirty: Vec<bool> = Vec::new();
        let mut i: usize = 0;
        while i < n
            invariant
                i <= n,
                dirty@ == Seq::new(i as nat, |k: int| false),
            decreases n - i,
        {
            dirty.push(false);
            i = i + 1;
        }
        let r = EditorState {
            project_dir: project.dir,
            project_name: project.name,
            level_paths: project.level_paths,
            levels: project.levels,
            level_index: 0,
            floor_index: 0,
            selected: Block::Wall,
            status: String::from_str("Ready"),
            cursor: None,
            dirty,
            undo: Vec::new(),
            redo: Vec::new(),
            stroke: None,
        };
        proof {
            assert(r.undo_ops() =~= Seq::<OpView>::empty());
            assert(r.redo_ops() =~= Seq::<OpView>::empty());
        }
        r
    }

    /// The current level.
    pub fn cur(&self) -> (r: &LevelData)
        requires
            self.level_index < self.levels@.len(),
        ensures
            *r == self.cur_level(),
    {
        &self.levels[self.level_index]
    }

    /// Whether the current level has unsaved edits.
    pub fn is_dirty(&self) -> (r: bool)
        requires
            self.wf(),
        ensures
            r == self.dirty_flags()[self.level_index as int],
    {
        self.dirty[self.level_index]
    }

    /// Whether there is an edit to undo.
    pub fn can_undo(&self) -> (r: bool)
        ensures
            r == (self.undo_ops().len() > 0),
    {
        self.undo.len() > 0
    }

    /// Whether there is an undone edit to redo.
    pub fn can_redo(&self) -> (r: bool)
        ensures
            r == (self.redo_ops().len() > 0),
    {
        self.redo.len() > 0
    }

    /// The number of edits that can be undone.
    pub fn undo_depth(&self) -> (r: usize)
        ensures
            r == self.undo_ops().len(),
    {
        self.undo.len()
    }

    /// The `i`-th undoable edit, oldest first.
    pub fn undo_op(&self, i: usize) -> (r: &EditOp)
        requires
            i < self.undo_ops().len(),
        ensures
            r@ == self.undo_ops()[i as int],
    {
        &self.undo[i]
    }

    /// Block at `(x, y)` on the current floor, or `None` if off the grid.
    pub fn block_at(&self, x: i32, y: i32) -> (r: Option<Block>)
        requires
            self.wf(),
        ensures
            r == self.cur_level().level.spec_cell(x as int, y as int, self.floor_index as int),
    {
        self.cur().level.block_at(GridPos { x, y, floor: self.floor_index })
    }

    /// Whether cell `(x, y)` of the current floor has footing from below:
    /// bedrock on floor 0, else a wall directly beneath.
    pub fn has_footing(&self, x: i32, y: i32) -> (r: bool)
        requires
            self.wf(),
        ensures
            r == (self.floor_index == 0 || self.cur_level().level.spec_cell(
                x as int,
                y as int,
                self.floor_index - 1,
            ) == Some(Block::Wall)),
    {
        if self.floor_index == 0 {
            return true;
        }
        match self.cur().level.floor(self.floor_index - 1) {
            Some(f) => f.get(x, y) == Some(Block::Wall),
            None => false,
        }
    }

    /// Whether the cell directly below `(x, y)` is a wall (floor 0 has none).
    pub fn wall_below(&self, x: i32, y: i32) -> (r: bool)
        requires
            self.wf(),
        ensures
            r == (self.floor_index > 0 && self.cur_level().level.spec_cell(
                x as int,
                y as int,
                self.floor_index - 1,
            ) == Some(Block::Wall)),
    {
        self.floor_index > 0 && self.has_footing(x, y)
    }

    /// Switch to level `index` (ignored when it does not exist or is already
    /// current). History is per level, so it is cleared; unsaved edits stay.
    /// The floor is kept when the new level has it, else its top floor is used.
    pub fn select_level(&mut self, index: usize)
        requires
            old(self).wf(),
        ensures
            final(self).wf(),
            if index >= old(self).levels@.len() || index == old(self).level_index {
                *final(self) == *old(self)
            } else {
                &&& final(self).level_index == index
                &&& final(self).floor_index == if old(self).floor_index < final(self).cur_level().level.floors@.len() {
                    old(self).floor_index as int
                } else {
                    final(self).cur_level().level.floors@.len() - 1
                }
                &&& final(self).undo_ops().len() == 0 && final(self).redo_ops().len() == 0
                &&& final(self).stroke_view() is None
                &&& final(self).levels == old(self).levels
                &&& final(self).dirty_flags() == old(self).dirty_flags()
                &&& final(self).status == old(self).status
                &&& final(self).selected == old(self).selected
            },
    {
        if index >= self.levels.len() || index == self.level_index {
            return ;
        }
        self.level_index = index;
        assert(editable(self.levels@[index as int]));
        let top = self.levels[index].level.floor_count() - 1;
        if self.floor_index > top {
            self.floor_index = top;
        }
        self.undo = Vec::new();
        self.redo = Vec::new();
        self.stroke = None;
        proof {
            assert(self.undo_ops() =~= Seq::<OpView>::empty());
            assert(self.redo_ops() =~= Seq::<OpView>::empty());
        }
    }

    /// Switch to floor `floor` of the current level (ignored when it does not
    /// exist).
    pub fn select_floor(&mut self, floor: usize)
        requires
            old(self).wf(),
        ensures
            final(self).wf(),
            *final(self) == if floor < old(self).cur_level().level.floors@.len() {
                EditorState { floor_index: floor, ..*old(self) }
            } else {
                *old(self)
            },
    {
        if floor < self.cur().level.floor_count() {
            self.floor_index = floor;
        }
    }
}

/// The last entry of `cells` for the cell `(x, y, f)`, as `(before, after)`.
pub open spec fn op_cell(cells: Seq<(GridPos, Block, Block)>, x: int, y: int, f: int) -> Option<(Block, Block)>
    decreases cells.len(),
{
    if cells.len() == 0 {
        None
    } else if cells.last().0.x == x && cells.last().0.y == y && cells.last().0.floor == f {
        Some((cells.last().1, cells.last().2))
    } else {
        op_cell(cells.drop_last(), x, y, f)
    }
}

/// `a` has the floors of `b`, each of the same size.
pub open spec fn same_shape(a: Level, b: Level) -> bool {
    &&& a.floors@.len() == b.floors@.len()
    &&& forall|i: int|
        0 <= i < a.floors@.len() ==> (#[trigger] a.floors@[i]).width == b.floors@[i].width
            && a.floors@[i].height == b.floors@[i].height && a.floors@[i].blocks@.len() == b.floors@[i].blocks@.len()
}

/// `after` is `before` with the cells of `cells` set to their `after` block
/// (`forward`) or their `before` block; cells off the grid are ignored.
pub open spec fn cells_applied(before: Level, after: Level, cells: Seq<(GridPos, Block, Block)>, forward: bool) -> bool {
    &&& same_shape(after, before)
    &&& forall|x: int, y: int, f: int|
        #![trigger after.spec_cell(x, y, f)]
        after.spec_cell(x, y, f) == match op_cell(cells, x, y, f) {
            Some(c) if before.spec_cell(x, y, f) is Some => Some(if forward { c.1 } else { c.0 }),
            _ => before.spec_cell(x, y, f),
        }
}

/// `a` is level `b` with edit `op` replayed (`forward`) or reverted: its cells
/// changed as [`cells_applied`] says, and its start placement set to the
/// edit's new (or old) one; nothing else differs.
pub open spec fn op_applied(b: LevelData, a: LevelData, op: OpView, forward: bool) -> bool {
    &&& a == (LevelData { level: a.level, start: a.start, start_facing: a.start_facing, ..b })
    &&& cells_applied(b.level, a.level, op.cells, forward)
    &&& match op.start_change {
        Some((sb, sa)) => {
            let sp = if forward { sa } else { sb };
            a.start == sp.pos && a.start_facing == sp.facing
        },
        None => a.start == b.start && a.start_facing == b.start_facing,
    }
}

/// Edit `op` was recorded against level `l`: each cell it names (on the grid)
/// holds its `before` block there, and a start change starts from `l`'s start.
pub open spec fn recorded_before(l: LevelData, op: OpView) -> bool {
    &&& forall|x: int, y: int, f: int|
        #![trigger l.level.spec_cell(x, y, f)]
        l.level.spec_cell(x, y, f) is Some ==> match op_cell(op.cells, x, y, f) {
            Some(c) => l.level.spec_cell(x, y, f) == Some(c.0),
            None => true,
        }
    &&& op.start_change matches Some((sb, sa)) ==> sb == (StartPlacement { pos: l.start, facing: l.start_facing })
}

/// Level `l` is what edit `op` leaves: each cell it names (on the grid) holds
/// its `after` block, and a start change ends at `l`'s start.
pub open spec fn recorded_after(l: LevelData, op: OpView) -> bool {
    &&& forall|x: int, y: int, f: int|
        #![trigger l.level.spec_cell(x, y, f)]
        l.level.spec_cell(x, y, f) is Some ==> match op_cell(op.cells, x, y, f) {
            Some(c) => l.level.spec_cell(x, y, f) == Some(c.1),
            None => true,
        }
    &&& op.start_change matches Some((sb, sa)) ==> sa == (StartPlacement { pos: l.start, facing: l.start_facing })
}

/// `a` and `b` are the same level: same grid cell by cell, same start, and
/// everything else equal.
pub open spec fn same_level_data(a: LevelData, b: LevelData) -> bool {
    &&& a == (LevelData { level: a.level, ..b })
    &&& same_shape(a.level, b.level)
    &&& forall|x: int, y: int, f: int| #[trigger] a.level.spec_cell(x, y, f) == b.level.spec_cell(x, y, f)
}

/// Undoing an edit right after making it gives back the level it was made on:
/// replaying `op` on `l0` (against which it was recorded) and then reverting it
/// yields `l0` again.
pub proof fn lemma_undo_reverts(l0: LevelData, l1: LevelData, l2: LevelData, op: OpView)
    requires
        recorded_before(l0, op),
        op_applied(l0, l1, op, true),
        op_applied(l1, l2, op, false),
    ensures
        same_level_data(l2, l0),
{
    assert forall|x: int, y: int, f: int| #[trigger] l2.level.spec_cell(x, y, f) == l0.level.spec_cell(x, y, f) by {
        assert(l1.level.spec_cell(x, y, f) is Some == l0.level.spec_cell(x, y, f) is Some);
    }
}

/// Redoing an edit right after undoing it gives back the level it was undone
/// on: reverting `op` on `l0` (which it left) and then replaying it yields `l0`
/// again.
pub proof fn lemma_redo_replays(l0: LevelData, l1: LevelData, l2: LevelData, op: OpView)
    requires
        recorded_after(l0, op),
        op_applied(l0, l1, op, false),
        op_applied(l1, l2, op, true),
    ensures
        same_level_data(l2, l0),
{
    assert forall|x: int, y: int, f: int| #[trigger] l2.level.spec_cell(x, y, f) == l0.level.spec_cell(x, y, f) by {
        assert(l1.level.spec_cell(x, y, f) is Some == l0.level.spec_cell(x, y, f) is Some);
    }
}

/// `s1` is `s0` after an undo (see [`EditorState::undo`]).
pub open spec fn undo_step(s0: EditorState, s1: EditorState) -> bool {
    if s0.undo_ops().len() == 0 {
        &&& s1 == (EditorState { status: s1.status, ..s0 })
        &&& s1.status@ == "nothing to undo"@
    } else {
        let op = s0.undo_ops().last();
        &&& op_applied(s0.cur_level(), s1.cur_level(), op, false)
        &&& s1.levels@ == s0.levels@.update(s0.level_index as int, s1.cur_level())
        &&& s1.undo_ops() == s0.undo_ops().drop_last()
        &&& s1.redo_ops() == s0.redo_ops().push(op)
        &&& s1.dirty_flags() == s0.dirty_flags().update(s0.level_index as int, true)
        &&& s1.status@ == "undo"@
        &&& s1 == (EditorState {
            levels: s1.levels,
            undo: s1.undo,
            redo: s1.redo,
            dirty: s1.dirty,
            status: s1.status,
            ..s0
        })
    }
}

/// `s1` is `s0` after a redo (see [`EditorState::redo`]).
pub open spec fn redo_step(s0: EditorState, s1: EditorState) -> bool {
    if s0.redo_ops().len() == 0 {
        &&& s1 == (EditorState { status: s1.status, ..s0 })
        &&& s1.status@ == "nothing to redo"@
    } else {
        let op = s0.redo_ops().last();
        &&& op_applied(s0.cur_level(), s1.cur_level(), op, true)
        &&& s1.levels@ == s0.levels@.update(s0.level_index as int, s1.cur_level())
        &&& s1.redo_ops() == s0.redo_ops().drop_last()
        &&& s1.undo_ops() == s0.undo_ops().push(op)
        &&& s1.dirty_flags() == s0.dirty_flags().update(s0.level_index as int, true)
        &&& s1.status@ == "redo"@
        &&& s1 == (EditorState {
            levels: s1.levels,
            undo: s1.undo,
            redo: s1.redo,
            dirty: s1.dirty,
            status: s1.status,
            ..s0
        })
    }
}

/// Undo followed by redo gives back the level: when the newest edit is what
/// the current level shows, undoing it and redoing it leaves the same level
/// and the same undo history.
pub proof fn lemma_undo_then_redo(s0: EditorState, s1: EditorState, s2: EditorState)
    requires
        s0.undo_ops().len() > 0,
        recorded_after(s0.cur_level(), s0.undo_ops().last()),
        undo_step(s0, s1),
        redo_step(s1, s2),
    ensures
        same_level_data(s2.cur_level(), s0.cur_level()),
        s2.undo_ops() == s0.undo_ops(),
        s2.redo_ops() == s0.redo_ops(),
{
    let op = s0.undo_ops().last();
    assert(s1.redo_ops().last() == op);
    assert(s1.redo_ops().drop_last() =~= s0.redo_ops());
    assert(s0.undo_ops().drop_last().push(op) =~= s0.undo_ops());
    lemma_redo_replays(s0.cur_level(), s1.cur_level(), s2.cur_level(), op);
}

/// Redo followed by undo gives back the level: when the newest undone edit
/// was recorded against the current level, redoing it and undoing it leaves
/// the same level and the same redo history.
pub proof fn lemma_redo_then_undo(s0: EditorState, s1: EditorState, s2: EditorState)
    requires
        s0.redo_ops().len() > 0,
        recorded_before(s0.cur_level(), s0.redo_ops().last()),
        redo_step(s0, s1),
        undo_step(s1, s2),
    ensures
        same_level_data(s2.cur_level(), s0.cur_level()),
        s2.undo_ops() == s0.undo_ops(),
        s2.redo_ops() == s0.redo_ops(),
{
    let op = s0.redo_ops().last();
    assert(s1.undo_ops().last() == op);
    assert(s1.undo_ops().drop_last() =~= s0.undo_ops());
    assert(s0.redo_ops().drop_last().push(op) =~= s0.redo_ops());
    lemma_undo_reverts(s0.cur_level(), s1.cur_level(), s2.cur_level(), op);
}

/// Setting the cell of entry `e` after `cells` were applied extends the
/// application to `cells.push(e)`.
proof fn lemma_cells_step(
    l0: Level,
    l1: Level,
    l2: Level,
    cells: Seq<(GridPos, Block, Block)>,
    e: (GridPos, Block, Block),
    forward: bool,
)
    requires
        cells_applied(l0, l1, cells, forward),
        crate::actions::block_set(l1, l2, e.0, if forward { e.2 } else { e.1 }),
    ensures
        cells_applied(l0, l2, cells.push(e), forward),
{
    let c2 = cells.push(e);
    assert(c2.drop_last() =~= cells);
    assert forall|x: int, y: int, f: int| #![trigger l2.spec_cell(x, y, f)]
        l2.spec_cell(x, y, f) == match op_cell(c2, x, y, f) {
            Some(c) if l0.spec_cell(x, y, f) is Some => Some(if forward { c.1 } else { c.0 }),
            _ => l0.spec_cell(x, y, f),
        } by {
        assert(l1.spec_cell(x, y, f) is Some == l0.spec_cell(x, y, f) is Some);
    }
}

/// Replay (`forward`) or revert `op` on level `ld`.
fn apply_op_to(ld: &mut LevelData, op: &EditOp, forward: bool)
    ensures
        op_applied(*old(ld), *final(ld), op@, forward),
{
    let ghost l0 = ld.level;
    let mut i: usize = 0;
    assert(op.cells@.take(0) =~= Seq::<(GridPos, Block, Block)>::empty());
    while i < op.cells.len()
        invariant
            i <= op.cells@.len(),
            *ld == (LevelData { level: ld.level, ..*old(ld) }),
            l0 == old(ld).level,
            cells_applied(l0, ld.level, op.cells@.take(i as int), forward),
        decreases op.cells@.len() - i,
    {
        let (pos, before, after) = op.cells[i];
        let block = if forward {
            after
        } else {
            before
        };
        let ghost l1 = ld.level;
        ld.level.set_block(pos, block);
        proof {
            assert(op.cells@.take(i as int + 1) =~= op.cells@.take(i as int).push(op.cells@[i as int]));
            lemma_cells_step(l0, l1, ld.level, op.cells@.take(i as int), op.cells@[i as int], forward);
        }
        i = i + 1;
    }
    assert(op.cells@.take(op.cells@.len() as int) =~= op.cells@);
    match op.start_change {
        Some((sb, sa)) => {
            let sp = if forward {
                sa
            } else {
                sb
            };
            ld.start = sp.pos;
            ld.start_facing = sp.facing;
        },
        None => {},
    }
}

impl EditorState {
    /// Replay (`forward`) or revert `op` on the current level.
    fn apply_op(&mut self, op: &EditOp, forward: bool)
        requires
            old(self).wf(),
        ensures
            final(self).wf(),
            op_applied(old(self).cur_level(), final(self).cur_level(), op@, forward),
            final(self).levels@ == old(self).levels@.update(old(self).level_index as int, final(self).cur_level()),
            *final(self) == (EditorState { levels: final(self).levels, ..*old(self) }),
    {
        let li = self.level_index;
        let mut ld = self.levels.remove(li);
        apply_op_to(&mut ld, op, forward);
        self.levels.insert(li, ld);
        proof {
            assert(self.levels@ =~= old(self).levels@.update(li as int, ld));
            let c = self.cur_level();
            let o = old(self).cur_level();
            assert forall|f: int| 0 <= f < c.level.floors@.len() implies (#[trigger] c.level.floors@[f]).wf()
                && c.level.floors@[f].width == c.level.floors@[0].width && c.level.floors@[f].height
                == c.level.floors@[0].height by {
                assert(o.level.floors@[f].wf());
            }
            assert(editable(self.levels@[li as int]));
        }
    }

    /// Revert the last edit (it moves to the redo history) and mark the level
    /// unsaved; with nothing to undo only the status changes.
    pub fn undo(&mut self)
        requires
            old(self).wf(),
        ensures
            final(self).wf(),
            undo_step(*old(self), *final(self)),
    {
        if self.undo.len() == 0 {
            self.status = String::from_str("nothing to undo");
            return ;
        }
        match self.undo.pop() {
            None => {},
            Some(op) => {
                proof {
                    assert(old(self).undo@.drop_last().map_values(|op: EditOp| op@) =~= old(self).undo_ops().drop_last());
                }
                self.apply_op(&op, false);
                let ghost r0 = self.redo@;
                self.redo.push(op);
                let li = self.level_index;
                self.dirty.set(li, true);
                self.status = String::from_str("undo");
                proof {
                    assert(self.redo@.map_values(|op: EditOp| op@) =~= r0.map_values(|op: EditOp| op@).push(op@));
                }
            },
        }
    }

    /// Replay the last undone edit (it moves back to the undo history) and
    /// mark the level unsaved; with nothing to redo only the status changes.
    pub fn redo(&mut self)
        requires
            old(self).wf(),
        ensures
            final(self).wf(),
            redo_step(*old(self), *final(self)),
    {
        if self.redo.len() == 0 {
            self.status = String::from_str("nothing to redo");
            return ;
        }
        match self.redo.pop() {
            None => {},
            Some(op) => {
                proof {
                    assert(old(self).redo@.drop_last().map_values(|op: EditOp| op@) =~= old(self).redo_ops().drop_last());
                }
                self.apply_op(&op, true);
                let ghost u0 = self.undo@;
                self.undo.push(op);
                let li = self.level_index;
                self.dirty.set(li, true);
                self.status = String::from_str("redo");
                proof {
                    assert(self.undo@.map_values(|op: EditOp| op@) =~= u0.map_values(|op: EditOp| op@).push(op@));
                }
            },
        }
    }
}

/// Whether a stroke already remembers the cell `key`.
pub open spec fn stroke_has(before: Seq<((i32, i32), Block)>, key: (i32, i32)) -> bool {
    exists|i: int| 0 <= i < before.len() && (#[trigger] before[i]).0 == key
}

/// The cell changes a finished stroke on `floor` leaves, in stroke order: each
/// remembered cell whose block now differs from the one it held before.
pub open spec fn stroke_cells(before: Seq<((i32, i32), Block)>, level: Level, floor: usize) -> Seq<
    (GridPos, Block, Block),
>
    decreases before.len(),
{
    if before.len() == 0 {
        Seq::empty()
    } else {
        let rest = stroke_cells(before.drop_last(), level, floor);
        let e = before.last();
        match level.spec_cell(e.0.0 as int, e.0.1 as int, floor as int) {
            Some(a) if a != e.1 => rest.push((GridPos { x: e.0.0, y: e.0.1, floor }, e.1, a)),
            _ => rest,
        }
    }
}

/// Every cell change of a finished stroke ends at the block its cell now holds.
proof fn lemma_stroke_cells_after(before: Seq<((i32, i32), Block)>, level: Level, floor: usize)
    ensures
        forall|i: int|
            0 <= i < stroke_cells(before, level, floor).len() ==> level.spec_cell(
                (#[trigger] stroke_cells(before, level, floor)[i]).0.x as int,
                stroke_cells(before, level, floor)[i].0.y as int,
                stroke_cells(before, level, floor)[i].0.floor as int,
            ) == Some(stroke_cells(before, level, floor)[i].2),
    decreases before.len(),
{
    if before.len() > 0 {
        lemma_stroke_cells_after(before.drop_last(), level, floor);
    }
}

/// A level holding, in every named cell, the `after` block of some entry for
/// that cell holds the `after` block of the last one.
proof fn lemma_op_cell_after(cells: Seq<(GridPos, Block, Block)>, level: Level, x: int, y: int, f: int)
    requires
        forall|i: int|
            0 <= i < cells.len() ==> level.spec_cell(
                (#[trigger] cells[i]).0.x as int,
                cells[i].0.y as int,
                cells[i].0.floor as int,
            ) == Some(cells[i].2),
    ensures
        op_cell(cells, x, y, f) matches Some(c) ==> level.spec_cell(x, y, f) == Some(c.1),
    decreases cells.len(),
{
    if cells.len() > 0 {
        let init = cells.drop_last();
        assert forall|i: int| 0 <= i < init.len() implies level.spec_cell(
            (#[trigger] init[i]).0.x as int,
            init[i].0.y as int,
            init[i].0.floor as int,
        ) == Some(init[i].2) by {
            assert(init[i] == cells[i]);
        }
        lemma_op_cell_after(init, level, x, y, f);
        assert(cells[cells.len() - 1] == cells.last());
    }
}

/// The undo history after recording `op`: appended, the oldest edit dropped
/// beyond [`UNDO_LIMIT`].
pub open spec fn pushed_history(undo: Seq<OpView>, op: OpView) -> Seq<OpView> {
    if undo.len() + 1 > UNDO_LIMIT {
        undo.push(op).drop_first()
    } else {
        undo.push(op)
    }
}

/// `s1` is `s0` after recording edit `op` on the current level: the undo
/// history gains it (see [`pushed_history`]), the redo history is emptied, the
/// level is marked unsaved; nothing else changes but the stroke.
pub open spec fn recorded(s0: EditorState, s1: EditorState, op: OpView) -> bool {
    &&& s1.undo_ops() == pushed_history(s0.undo_ops(), op)
    &&& s1.redo_ops().len() == 0
    &&& s1.dirty_flags() == s0.dirty_flags().update(s0.level_index as int, true)
    &&& s1 == (EditorState { undo: s1.undo, redo: s1.redo, dirty: s1.dirty, stroke: s1.stroke, ..s0 })
}

/// Finishing the stroke takes editor `s0` to `s1`: no stroke is left; the
/// stroke's changed cells (if any) are recorded as one edit.
pub open spec fn stroke_ended(s0: EditorState, s1: EditorState) -> bool {
    &&& s1.stroke_view() is None
    &&& match s0.stroke_view() {
        None => s1 == s0,
        Some((f, b)) => {
            let cells = stroke_cells(b, s0.cur_level().level, f);
            if cells.len() == 0 {
                s1 == (EditorState { stroke: s1.stroke, ..s0 })
            } else {
                &&& recorded(s0, s1, OpView { cells, start_change: None })
                &&& recorded_after(s1.cur_level(), s1.undo_ops().last())
            }
        },
    }
}

/// Setting the start at `(x, y)` takes editor `s0` to `s1`: off the grid
/// nothing happens; a wall or a cell without footing or ladder is refused with
/// a status message; otherwise the start moves there (or turns clockwise when
/// already there) as one recorded edit.
pub open spec fn start_set(s0: EditorState, s1: EditorState, x: i32, y: i32) -> bool {
    let ld = s0.cur_level();
    let f = s0.floor_index;
    let cell = ld.level.spec_cell(x as int, y as int, f as int);
    let footing = f == 0 || ld.level.spec_cell(x as int, y as int, f - 1) == Some(Block::Wall);
    match cell {
        None => s1 == s0,
        Some(b) => if b.spec_is_wall() {
            &&& s1 == (EditorState { status: s1.status, ..s0 })
            &&& s1.status@ == "start can't be on a wall"@
        } else if !footing && b != Block::Ladder {
            &&& s1 == (EditorState { status: s1.status, ..s0 })
            &&& s1.status@ == "start needs footing (wall below or floor 0)"@
        } else {
            let before = StartPlacement { pos: ld.start, facing: ld.start_facing };
            let here = GridPos { x, y, floor: f };
            let after = if ld.start == here {
                StartPlacement { pos: here, facing: ld.start_facing.spec_turn_right() }
            } else {
                StartPlacement { pos: here, facing: ld.start_facing }
            };
            let op = OpView { cells: Seq::empty(), start_change: Some((before, after)) };
            &&& op_applied(ld, s1.cur_level(), op, true)
            &&& s1.levels@ == s0.levels@.update(s0.level_index as int, s1.cur_level())
            &&& recorded(
                EditorState { levels: s1.levels, ..s0 },
                s1,
                op,
            )
            &&& recorded_after(s1.cur_level(), s1.undo_ops().last())
        },
    }
}

/// The start edit at `(x, y)` is accepted: the cell is on the current floor,
/// not a wall, and has footing (floor 0, or a wall below) or is a ladder.
pub open spec fn start_accepted(s0: EditorState, x: i32, y: i32) -> bool {
    let ld = s0.cur_level();
    let f = s0.floor_index;
    &&& ld.level.spec_cell(x as int, y as int, f as int) matches Some(b) && !b.spec_is_wall()
    &&& (f == 0 || ld.level.spec_cell(x as int, y as int, f - 1) == Some(Block::Wall)
        || ld.level.spec_cell(x as int, y as int, f as int) == Some(Block::Ladder))
}

/// An accepted `set_start` is one undo step: a single `undo` right after it
/// brings the level back as it was (its grid, its start and its facing), and
/// leaves the edit to redo.
pub proof fn lemma_set_start_is_one_undo(s0: EditorState, s1: EditorState, s2: EditorState, x: i32, y: i32)
    requires
        s0.wf(),
        start_accepted(s0, x, y),
        start_set(s0, s1, x, y),
        undo_step(s1, s2),
    ensures
        s2.level_index == s0.level_index,
        same_level_data(s2.cur_level(), s0.cur_level()),
        s2.cur_level().start == s0.cur_level().start,
        s2.cur_level().start_facing == s0.cur_level().start_facing,
        s2.redo_ops().len() > 0,
{
    let ld = s0.cur_level();
    let f = s0.floor_index;
    let here = GridPos { x, y, floor: f };
    let before = StartPlacement { pos: ld.start, facing: ld.start_facing };
    let after = if ld.start == here {
        StartPlacement { pos: here, facing: ld.start_facing.spec_turn_right() }
    } else {
        StartPlacement { pos: here, facing: ld.start_facing }
    };
    let op = OpView { cells: Seq::empty(), start_change: Some((before, after)) };
    assert(s1.undo_ops().last() == op) by {
        let u = s0.undo_ops();
        if u.len() + 1 > UNDO_LIMIT {
            assert(u.push(op).drop_first().last() == op);
        }
    }
    lemma_undo_reverts(ld, s1.cur_level(), s2.cur_level(), op);
}

/// Whether the stroke `b` remembers the cell `(x, y)`.
pub open spec fn stroke_names(b: Seq<((i32, i32), Block)>, x: int, y: int) -> bool {
    exists|i: int| 0 <= i < b.len() && (#[trigger] b[i]).0.0 == x && b[i].0.1 == y
}

/// Editor `s` shows level `lv0` as changed only by the stroke in progress:
/// the current level is `lv0` but for its grid, of the same shape; without a
/// stroke every cell is as in `lv0`; with a stroke on floor `f`, each cell the
/// stroke remembers (once) held the remembered block in `lv0`, and every
/// other cell is as in `lv0`.
pub open spec fn stroke_tracks(lv0: LevelData, s: EditorState) -> bool {
    let cur = s.cur_level();
    &&& cur == (LevelData { level: cur.level, ..lv0 })
    &&& same_shape(cur.level, lv0.level)
    &&& match s.stroke_view() {
        None => forall|x: int, y: int, g: int|
            #[trigger] cur.level.spec_cell(x, y, g) == lv0.level.spec_cell(x, y, g),
        Some((f, b)) => {
            &&& f == s.floor_index
            &&& forall|i: int, j: int| 0 <= i < j < b.len() ==> (#[trigger] b[i]).0 != (#[trigger] b[j]).0
            &&& forall|i: int|
                0 <= i < b.len() ==> lv0.level.spec_cell((#[trigger] b[i]).0.0 as int, b[i].0.1 as int, f as int)
                    == Some(b[i].1)
            &&& forall|x: int, y: int, g: int|
                #![trigger cur.level.spec_cell(x, y, g)]
                !(g == f && stroke_names(b, x, y)) ==> cur.level.spec_cell(x, y, g) == lv0.level.spec_cell(x, y, g)
        },
    }
}

/// Where the changes of a finished stroke name a cell, the cell's old block is
/// the one the stroke remembered for it; where they name none, the cell (if
/// remembered) is unchanged or off the grid.
proof fn lemma_stroke_op_cell(b: Seq<((i32, i32), Block)>, level: Level, f: usize, x: int, y: int, g: int)
    ensures
        op_cell(stroke_cells(b, level, f), x, y, g) matches Some(c) ==> g == f && exists|i: int|
            0 <= i < b.len() && (#[trigger] b[i]).0.0 == x && b[i].0.1 == y && c.0 == b[i].1,
        op_cell(stroke_cells(b, level, f), x, y, g) is None ==> forall|i: int|
            0 <= i < b.len() && (#[trigger] b[i]).0.0 == x && b[i].0.1 == y && g == f ==> (level.spec_cell(x, y, g)
                is None || level.spec_cell(x, y, g) == Some(b[i].1)),
    decreases b.len(),
{
    if b.len() > 0 {
        let rest = b.drop_last();
        lemma_stroke_op_cell(rest, level, f, x, y, g);
        let e = b.last();
        let sc = stroke_cells(b, level, f);
        let rc = stroke_cells(rest, level, f);
        assert forall|i: int| 0 <= i < rest.len() implies #[trigger] rest[i] == b[i] by {}
        if op_cell(sc, x, y, g) is None {
            assert forall|i: int|
                0 <= i < b.len() && (#[trigger] b[i]).0.0 == x && b[i].0.1 == y && g == f implies (level.spec_cell(
                x,
                y,
                g,
            ) is None || level.spec_cell(x, y, g) == Some(b[i].1)) by {
                match level.spec_cell(e.0.0 as int, e.0.1 as int, f as int) {
                    Some(a) if a != e.1 => {
                        assert(sc.drop_last() =~= rc);
                        assert(sc.last() == (GridPos { x: e.0.0, y: e.0.1, floor: f }, e.1, a));
                        if i == b.len() - 1 {
                            assert(b[i] == e);
                        } else {
                            assert(b[i] == rest[i]);
                        }
                    },
                    _ => {
                        assert(sc == rc);
                        if i == b.len() - 1 {
                            assert(b[i] == e);
                        } else {
                            assert(b[i] == rest[i]);
                        }
                    },
                }
            }
        }
        match level.spec_cell(e.0.0 as int, e.0.1 as int, f as int) {
            Some(a) if a != e.1 => {
                assert(sc.drop_last() =~= rc);
                assert(sc.last() == (GridPos { x: e.0.0, y: e.0.1, floor: f }, e.1, a));
                if e.0.0 == x && e.0.1 == y && f == g {
                    assert(b[b.len() - 1] == e);
                } else {
                    assert(op_cell(sc, x, y, g) == op_cell(rc, x, y, g));
                    if op_cell(rc, x, y, g) is Some {
                        let c = op_cell(rc, x, y, g)->0;
                        let i = choose|i: int| 0 <= i < rest.len() && (#[trigger] rest[i]).0.0 == x && rest[i].0.1 == y && c.0 == rest[i].1;
                        assert(b[i] == rest[i]);
                    }
                }
            },
            _ => {
                assert(sc == rc);
                if op_cell(rc, x, y, g) is Some {
                    let c = op_cell(rc, x, y, g)->0;
                    let i = choose|i: int| 0 <= i < rest.len() && (#[trigger] rest[i]).0.0 == x && rest[i].0.1 == y && c.0 == rest[i].1;
                    assert(b[i] == rest[i]);
                }
            },
        }
    }
}

/// Before a stroke begins, the editor shows its current level unchanged.
pub proof fn lemma_stroke_starts(s: EditorState)
    requires
        s.stroke_view() is None,
    ensures
        stroke_tracks(s.cur_level(), s),
{
}

/// Painting keeps track of the stroke: when the editor showed `lv0` changed
/// only by the stroke in progress, it still does after a paint.
pub proof fn lemma_paint_tracks(lv0: LevelData, s0: EditorState, s1: EditorState, x: i32, y: i32)
    requires
        s0.wf(),
        stroke_tracks(lv0, s0),
        painted(s0, s1, x, y),
    ensures
        stroke_tracks(lv0, s1),
{
    let ld = s0.cur_level();
    let f = s0.floor_index;
    let sel = s0.selected;
    if !on_grid(ld, x as int, y as int) {
    } else if sel.spec_is_wall() && ld.start == (GridPos { x, y, floor: f }) {
        assert(s1.cur_level() == ld);
        assert(s1.stroke_view() == s0.stroke_view());
    } else {
        let before = ld.level.spec_cell(x as int, y as int, f as int).unwrap();
        assert(editable(s0.levels@[s0.level_index as int]));
        assert(ld.level.floors@[f as int].wf());
        assert(ld.level.spec_cell(x as int, y as int, f as int) is Some) by {
            crate::dungeon::lemma_cell_index(
                ld.level.floors@[f as int].width as int,
                ld.level.floors@[f as int].height as int,
                x as int,
                y as int,
            );
        }
        let base = match s0.stroke_view() {
            Some((sf, b)) if sf == f => b,
            _ => Seq::empty(),
        };
        let pushed = before != sel && !stroke_has(base, (x, y));
        let nb = if pushed {
            base.push(((x, y), before))
        } else {
            base
        };
        let c1 = s1.cur_level();
        assert(s1.stroke_view() == Some((f, nb)));
        assert(s1.floor_index == f);
        // The painted cell is remembered whenever it changed.
        assert(stroke_has(base, (x, y)) == stroke_names(base, x as int, y as int));
        if pushed {
            assert(nb[nb.len() - 1] == ((x, y), before));
            assert(stroke_names(nb, x as int, y as int));
        }
        assert forall|i: int| 0 <= i < base.len() implies #[trigger] nb[i] == base[i] by {}
        assert(!stroke_names(base, x as int, y as int) ==> ld.level.spec_cell(x as int, y as int, f as int)
            == lv0.level.spec_cell(x as int, y as int, f as int));
        assert forall|i: int, j: int| 0 <= i < j < nb.len() implies (#[trigger] nb[i]).0 != (#[trigger] nb[j]).0 by {
            if pushed && j == nb.len() - 1 {
                assert(nb[i] == base[i]);
                if nb[i].0 == (x, y) {
                    assert(stroke_has(base, (x, y)));
                }
            }
        }
        assert forall|i: int| 0 <= i < nb.len() implies lv0.level.spec_cell(
            (#[trigger] nb[i]).0.0 as int,
            nb[i].0.1 as int,
            f as int,
        ) == Some(nb[i].1) by {
            if i < base.len() {
                assert(nb[i] == base[i]);
            } else {
                assert(nb[i] == ((x, y), before));
                assert(!stroke_names(base, x as int, y as int));
                assert(ld.level.spec_cell(x as int, y as int, f as int) is Some);
            }
        }
        assert forall|xx: int, yy: int, g: int|
            #![trigger c1.level.spec_cell(xx, yy, g)]
            !(g == f && stroke_names(nb, xx, yy)) implies c1.level.spec_cell(xx, yy, g) == lv0.level.spec_cell(xx, yy, g) by {
            if g == f && stroke_names(base, xx, yy) {
                let i = choose|i: int| 0 <= i < base.len() && (#[trigger] base[i]).0.0 == xx && base[i].0.1 == yy;
                assert(nb[i] == base[i]);
            }
            assert(c1.level.spec_cell(xx, yy, g) == ld.level.spec_cell(xx, yy, g));
        }
    }
}

/// A whole stroke is undone by one undo: when the editor shows `lv0` changed
/// only by the stroke in progress and the finished stroke changed a cell, the
/// next undo gives back `lv0` (grid, start and facing) and the stroke can be
/// redone.
pub proof fn lemma_stroke_undone(lv0: LevelData, s0: EditorState, s1: EditorState, s2: EditorState)
    requires
        s0.wf(),
        stroke_tracks(lv0, s0),
        stroke_ended(s0, s1),
        s1.undo_ops() != s0.undo_ops(),
        undo_step(s1, s2),
    ensures
        s2.level_index == s0.level_index,
        same_level_data(s2.cur_level(), lv0),
        s2.redo_ops().len() > 0,
{
    let (f, b) = s0.stroke_view()->0;
    let cur = s0.cur_level();
    let cells = stroke_cells(b, cur.level, f);
    let op = OpView { cells, start_change: None };
    assert(s1.undo_ops().last() == op) by {
        let u = s0.undo_ops();
        if u.len() + 1 > UNDO_LIMIT {
            assert(u.push(op).drop_first().last() == op);
        }
    }
    let l2 = s2.cur_level();
    assert(s1.cur_level() == cur);
    assert forall|x: int, y: int, g: int| #[trigger] l2.level.spec_cell(x, y, g) == lv0.level.spec_cell(x, y, g) by {
        lemma_stroke_op_cell(b, cur.level, f, x, y, g);
        assert(cur.level.spec_cell(x, y, g) is Some == lv0.level.spec_cell(x, y, g) is Some);
        if op_cell(cells, x, y, g) is Some {
            let c = op_cell(cells, x, y, g)->0;
            let i = choose|i: int| 0 <= i < b.len() && (#[trigger] b[i]).0.0 == x && b[i].0.1 == y && c.0 == b[i].1;
            assert(lv0.level.spec_cell(b[i].0.0 as int, b[i].0.1 as int, f as int) == Some(b[i].1));
        } else if g == f && stroke_names(b, x, y) {
            let i = choose|i: int| 0 <= i < b.len() && (#[trigger] b[i]).0.0 == x && b[i].0.1 == y;
            assert(lv0.level.spec_cell(b[i].0.0 as int, b[i].0.1 as int, f as int) == Some(b[i].1));
        }
    }
}

/// Along the paints `xs` (states `ss`), every state shows the first state's
/// level changed only by the stroke in progress.
proof fn lemma_tracks_through(ss: Seq<EditorState>, xs: Seq<(i32, i32)>, k: int)
    requires
        0 <= k <= xs.len(),
        ss.len() == xs.len() + 1,
        ss[0].stroke_view() is None,
        forall|i: int| 0 <= i < ss.len() ==> (#[trigger] ss[i]).wf(),
        forall|i: int| 0 <= i < xs.len() ==> painted(#[trigger] ss[i], ss[i + 1], xs[i].0, xs[i].1),
    ensures
        stroke_tracks(ss[0].cur_level(), ss[k]),
        ss[k].level_index == ss[0].level_index,
    decreases k,
{
    if k == 0 {
        lemma_stroke_starts(ss[0]);
    } else {
        lemma_tracks_through(ss, xs, k - 1);
        assert(painted(ss[k - 1], ss[k], xs[k - 1].0, xs[k - 1].1));
        lemma_paint_tracks(ss[0].cur_level(), ss[k - 1], ss[k], xs[k - 1].0, xs[k - 1].1);
    }
}

/// A paint stroke is one undo step: painting cells `xs` one after another on
/// an editor with no stroke in progress (states `ss`), finishing the stroke
/// with at least one cell changed, and undoing once gives back the level the
/// stroke began on (grid, start and facing), and the stroke can be redone.
pub proof fn lemma_stroke_is_one_undo(
    ss: Seq<EditorState>,
    xs: Seq<(i32, i32)>,
    s_end: EditorState,
    s_undo: EditorState,
)
    requires
        ss.len() == xs.len() + 1,
        ss[0].stroke_view() is None,
        forall|i: int| 0 <= i < ss.len() ==> (#[trigger] ss[i]).wf(),
        forall|i: int| 0 <= i < xs.len() ==> painted(#[trigger] ss[i], ss[i + 1], xs[i].0, xs[i].1),
        stroke_ended(ss.last(), s_end),
        s_end.undo_ops() != ss.last().undo_ops(),
        undo_step(s_end, s_undo),
    ensures
        s_undo.level_index == ss[0].level_index,
        same_level_data(s_undo.cur_level(), ss[0].cur_level()),
        s_undo.redo_ops().len() > 0,
{
    let lv0 = ss[0].cur_level();
    lemma_tracks_through(ss, xs, xs.len() as int);
    assert(ss.last() == ss[xs.len() as int]);
    lemma_stroke_undone(lv0, ss.last(), s_end, s_undo);
}

/// Painting at `(x, y)` takes editor `s0` to `s1`: off the grid nothing
/// happens; a wall on the start cell is refused with a status message;
/// otherwise the cell takes the selected block (when it differs) and the
/// stroke remembers the cell's block before its first change.
pub open spec fn painted(s0: EditorState, s1: EditorState, x: i32, y: i32) -> bool {
    let ld = s0.cur_level();
    let f = s0.floor_index;
    let sel = s0.selected;
    if !on_grid(ld, x as int, y as int) {
        s1 == s0
    } else if sel.spec_is_wall() && ld.start == (GridPos { x, y, floor: f }) {
        &&& s1 == (EditorState { status: s1.status, ..s0 })
        &&& s1.status@ == "can't wall over the start cell"@
    } else {
        let before = ld.level.spec_cell(x as int, y as int, f as int).unwrap();
        let base = match s0.stroke_view() {
            Some((sf, b)) if sf == f => b,
            _ => Seq::empty(),
        };
        &&& s1 == (EditorState { levels: s1.levels, stroke: s1.stroke, ..s0 })
        &&& s1.stroke_view() == Some((
            f,
            if before != sel && !stroke_has(base, (x, y)) {
                base.push(((x, y), before))
            } else {
                base
            },
        ))
        &&& if before != sel {
            &&& crate::actions::block_set(ld.level, s1.cur_level().level, GridPos { x, y, floor: f }, sel)
            &&& s1.cur_level() == (LevelData { level: s1.cur_level().level, ..ld })
            &&& s1.levels@ == s0.levels@.update(s0.level_index as int, s1.cur_level())
        } else {
            s1.levels == s0.levels
        }
    }
}

/// The undo history never holds more than [`UNDO_LIMIT`] edits: every editor
/// operation keeps the editor well formed, and a well-formed editor's edits to
/// undo and to redo together stay within the limit.
pub proof fn lemma_history_capped(s: EditorState)
    requires
        s.wf(),
    ensures
        s.undo_ops().len() <= UNDO_LIMIT,
        s.undo_ops().len() + s.redo_ops().len() <= UNDO_LIMIT,
{
}

/// Painting never walls in the start: when the level's start cell was not a
/// wall before a paint, it is not one after, and the start stays where it was.
pub proof fn lemma_paint_keeps_start_open(s0: EditorState, s1: EditorState, x: i32, y: i32)
    requires
        s0.wf(),
        painted(s0, s1, x, y),
        !(s0.cur_level().level.spec_block_at(s0.cur_level().start) matches Some(b) && b.spec_is_wall()),
    ensures
        s1.level_index == s0.level_index,
        s1.cur_level().start == s0.cur_level().start,
        !(s1.cur_level().level.spec_block_at(s1.cur_level().start) matches Some(b) && b.spec_is_wall()),
{
    let st = s0.cur_level().start;
    assert(s1.cur_level().level.spec_block_at(st) == s1.cur_level().level.spec_cell(
        st.x as int,
        st.y as int,
        st.floor as int,
    ));
    assert(s0.cur_level().level.spec_block_at(st) == s0.cur_level().level.spec_cell(
        st.x as int,
        st.y as int,
        st.floor as int,
    ));
}

impl EditorState {
    /// Record `op` as the newest undoable edit (see [`recorded`]).
    fn push_op(&mut self, op: EditOp)
        requires
            old(self).wf(),
        ensures
            final(self).wf(),
            recorded(*old(self), *final(self), op@),
            final(self).stroke == old(self).stroke,
    {
        let ghost u0 = self.undo@;
        let ghost opv = op@;
        self.undo.push(op);
        proof {
            assert(self.undo@.map_values(|o: EditOp| o@) =~= u0.map_values(|o: EditOp| o@).push(opv));
        }
        if self.undo.len() > UNDO_LIMIT {
            let ghost u1 = self.undo@;
            self.undo.remove(0);
            proof {
                assert(self.undo@ =~= u1.drop_first());
                assert(self.undo@.map_values(|o: EditOp| o@) =~= u1.map_values(|o: EditOp| o@).drop_first());
            }
        }
        self.redo = Vec::new();
        let li = self.level_index;
        self.dirty.set(li, true);
        proof {
            assert(self.redo_ops() =~= Seq::<OpView>::empty());
        }
    }

    /// Paint the selected block at `(x, y)` on the current floor, as part of
    /// the current stroke (begun here when there is none on this floor).
    /// Cells off the grid are ignored; a wall over the start cell is refused.
    pub fn paint(&mut self, x: i32, y: i32)
        requires
            old(self).wf(),
        ensures
            final(self).wf(),
            painted(*old(self), *final(self), x, y),
    {
        let floor = self.floor_index;
        let li = self.level_index;
        proof {
            assert(editable(self.levels@[li as int]));
        }
        let w = self.cur().width();
        let h = self.cur().height();
        if x < 0 || y < 0 || x as usize >= w || y as usize >= h {
            return ;
        }
        let selected = self.selected;
        let start = self.cur().start;
        if selected.is_wall() && start.floor == floor && start.x == x && start.y == y {
            self.status = String::from_str("can't wall over the start cell");
            return ;
        }
        let anchored = match &self.stroke {
            Some(st) => st.floor == floor,
            None => false,
        };
        if !anchored {
            self.stroke = Some(Stroke { floor, before: Vec::new() });
        }
        let before = match self.cur().level.block_at(GridPos { x, y, floor }) {
            Some(b) => b,
            None => {
                proof {
                    let fl = self.cur_level().level.floors@[floor as int];
                    assert(fl.wf());
                    crate::dungeon::lemma_cell_index(fl.width as int, fl.height as int, x as int, y as int);
                }
                return ;
            },
        };
        if before == selected {
            return ;
        }
        let mut st = match self.stroke.take() {
            Some(st) => st,
            None => Stroke { floor, before: Vec::new() },
        };
        let ghost b0 = st.before@;
        let mut i: usize = 0;
        let mut found = false;
        while i < st.before.len()
            invariant
                i <= st.before@.len(),
                st.before@ == b0,
                !found ==> forall|k: int| 0 <= k < i ==> (#[trigger] b0[k]).0 != (x, y),
                found ==> stroke_has(b0, (x, y)),
            decreases st.before@.len() - i,
        {
            let k = st.before[i].0;
            if k.0 == x && k.1 == y {
                found = true;
            }
            i = i + 1;
        }
        if !found {
            st.before.push(((x, y), before));
        }
        self.stroke = Some(st);
        let mut ld = self.levels.remove(li);
        ld.level.set_block(GridPos { x, y, floor }, selected);
        self.levels.insert(li, ld);
        proof {
            assert(self.levels@ =~= old(self).levels@.update(li as int, ld));
            let c = self.cur_level();
            let o = old(self).cur_level();
            assert forall|g: int| 0 <= g < c.level.floors@.len() implies (#[trigger] c.level.floors@[g]).wf()
                && c.level.floors@[g].width == c.level.floors@[0].width && c.level.floors@[g].height
                == c.level.floors@[0].height by {
                assert(o.level.floors@[g].wf());
            }
            assert(editable(self.levels@[li as int]));
            let nb = self.stroke_view().unwrap().1;
            assert forall|a: int, b: int| 0 <= a < b < nb.len() implies (#[trigger] nb[a]).0 != (#[trigger] nb[b]).0 by {
                if b == nb.len() - 1 && !found {
                    assert(nb[a] == b0[a]);
                }
            }
        }
    }

    /// Finish the current stroke: its changed cells become one undoable edit
    /// (nothing is recorded when no cell changed).
    pub fn end_stroke(&mut self)
        requires
            old(self).wf(),
        ensures
            final(self).wf(),
            stroke_ended(*old(self), *final(self)),
    {
        let st = match self.stroke.take() {
            Some(st) => st,
            None => {
                return ;
            },
        };
        let floor = st.floor;
        let ghost lvl = self.cur_level().level;
        let mut cells: Vec<(GridPos, Block, Block)> = Vec::new();
        let mut i: usize = 0;
        while i < st.before.len()
            invariant
                i <= st.before@.len(),
                lvl == self.cur_level().level,
                self.wf(),
                cells@ == stroke_cells(st.before@.take(i as int), lvl, floor),
            decreases st.before@.len() - i,
        {
            let (k, before) = st.before[i];
            proof {
                assert(st.before@.take(i as int + 1).drop_last() =~= st.before@.take(i as int));
                assert(st.before@.take(i as int + 1).last() == st.before@[i as int]);
            }
            match self.cur().level.block_at(GridPos { x: k.0, y: k.1, floor }) {
                Some(after) => {
                    if after != before {
                        cells.push((GridPos { x: k.0, y: k.1, floor }, before, after));
                    }
                },
                None => {},
            }
            i = i + 1;
        }
        proof {
            assert(st.before@.take(st.before@.len() as int) =~= st.before@);
        }
        if cells.len() > 0 {
            let op = EditOp { cells, start_change: None };
            self.push_op(op);
            proof {
                let c = stroke_cells(st.before@, lvl, floor);
                lemma_stroke_cells_after(st.before@, lvl, floor);
                assert forall|x: int, y: int, f: int|
                    #![trigger self.cur_level().level.spec_cell(x, y, f)]
                    self.cur_level().level.spec_cell(x, y, f) is Some ==> match op_cell(c, x, y, f) {
                        Some(e) => self.cur_level().level.spec_cell(x, y, f) == Some(e.1),
                        None => true,
                    } by {
                    lemma_op_cell_after(c, lvl, x, y, f);
                }
                assert(self.undo_ops().last() == (OpView { cells: c, start_change: None }));
            }
        }
    }

    /// Move the start to `(x, y)` on the current floor as one undoable edit, or
    /// turn it clockwise when it already stands there. Refused on a wall, and
    /// where the cell has neither footing nor a ladder (so saved levels always
    /// load); a cell off the grid is ignored.
    pub fn set_start(&mut self, x: i32, y: i32)
        requires
            old(self).wf(),
        ensures
            final(self).wf(),
            start_set(*old(self), *final(self), x, y),
    {
        let floor = self.floor_index;
        let cell = self.block_at(x, y);
        match cell {
            Some(b) => {
                if b.is_wall() {
                    self.status = String::from_str("start can't be on a wall");
                    return ;
                }
            },
            None => {
                return ;
            },
        }
        if !self.has_footing(x, y) && cell != Some(Block::Ladder) {
            self.status = String::from_str("start needs footing (wall below or floor 0)");
            return ;
        }
        let before = StartPlacement { pos: self.cur().start, facing: self.cur().start_facing };
        let here = GridPos { x, y, floor };
        let after = if before.pos == here {
            StartPlacement { pos: here, facing: before.facing.turn_right() }
        } else {
            StartPlacement { pos: here, facing: before.facing }
        };
        let op = EditOp { cells: Vec::new(), start_change: Some((before, after)) };
        self.apply_op(&op, true);
        self.push_op(op);
        proof {
            assert(self.undo_ops().last() == (OpView { cells: Seq::empty(), start_change: Some((before, after)) }));
        }
    }

    /// The check before saving the current level: the start must be on the
    /// grid, outside walls, and supported. On failure the status says why and
    /// `None` comes back; otherwise `Some` of the first trigger block without
    /// an event (a warning, not a refusal) comes back for the writer.
    pub fn save(&mut self) -> (r: Option<Option<String>>)
        requires
            old(self).wf(),
        ensures
            final(self).wf(),
            ({
                let ld = old(self).cur_level();
                match ld.level.spec_block_at(ld.start) {
                    None => {
                        &&& r is None
                        &&& *final(self) == (EditorState { status: final(self).status, ..*old(self) })
                        &&& final(self).status@ == "cannot save: start is out of bounds"@
                    },
                    Some(b) => if b.spec_is_wall() {
                        &&& r is None
                        &&& *final(self) == (EditorState { status: final(self).status, ..*old(self) })
                        &&& final(self).status@ == "cannot save: start is inside a wall"@
                    } else if !ld.level.spec_is_supported(ld.start.x as int, ld.start.y as int, ld.start.floor as int) {
                        &&& r is None
                        &&& *final(self) == (EditorState { status: final(self).status, ..*old(self) })
                        &&& final(self).status@ == "cannot save: start has no footing"@
                    } else {
                        let ws = crate::editor::level_mismatches(ld, ld.level.floors@.len() as int);
                        &&& *final(self) == *old(self)
                        &&& r matches Some(w) && match w {
                            Some(t) => ws.len() > 0 && t@ == ws[0],
                            None => ws.len() == 0,
                        }
                    },
                }
            }),
    {
        let li = self.level_index;
        proof {
            assert(editable(self.levels@[li as int]));
            let fs = self.cur_level().level.floors@;
            assert forall|f: int| 0 <= f < fs.len() implies (#[trigger] fs[f]).width <= i32::MAX && fs[f].height
                <= i32::MAX by {
                assert(editable(self.levels@[li as int]));
            }
        }
        let start = self.cur().start;
        match self.cur().level.block_at(start) {
            Some(b) => {
                if b.is_wall() {
                    self.status = String::from_str("cannot save: start is inside a wall");
                    return None;
                }
            },
            None => {
                self.status = String::from_str("cannot save: start is out of bounds");
                return None;
            },
        }
        if !self.cur().level.is_supported(start.x, start.y, start.floor) {
            self.status = String::from_str("cannot save: start has no footing");
            return None;
        }
        let mut warns = crate::editor::trigger_event_mismatches(self.cur());
        if warns.len() > 0 {
            proof {
                assert(warns@.map_values(|s: String| s@)[0] == warns@[0]@);
            }
            let first = warns.remove(0);
            Some(Some(first))
        } else {
            Some(None)
        }
    }

    /// Record how writing the current level to `rel` went: on success the
    /// level is saved (no longer unsaved) and the status names the file, with
    /// the warning `warn` when there is one; on failure the status gives the
    /// error.
    pub fn finish_save(&mut self, rel: &str, written: Result<(), String>, warn: Option<String>)
        requires
            old(self).wf(),
        ensures
            final(self).wf(),
            match written {
                Ok(()) => {
                    &&& final(self).dirty_flags() == old(self).dirty_flags().update(old(self).level_index as int, false)
                    &&& *final(self) == (EditorState { dirty: final(self).dirty, status: final(self).status, ..*old(self) })
                    &&& final(self).status@ == match warn {
                        Some(w) => "saved "@ + rel@ + " — 注意: "@ + w@,
                        None => "saved "@ + rel@,
                    }
                },
                Err(e) => {
                    &&& *final(self) == (EditorState { status: final(self).status, ..*old(self) })
                    &&& final(self).status@ == "save failed: "@ + e@
                },
            },
    {
        match written {
            Ok(()) => {
                let li = self.level_index;
                self.dirty.set(li, false);
                self.status = match warn {
                    Some(w) => crate::text::cat4("saved ", rel, " — 注意: ", w.as_str()),
                    None => crate::text::cat("saved ", rel),
                };
            },
            Err(e) => {
                self.status = crate::text::cat("save failed: ", e.as_str());
            },
        }
    }
}

} // verus!
