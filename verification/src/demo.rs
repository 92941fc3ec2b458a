//! Demo playback: a message-scroll cutscene revealed line by line, then an
//! END marker that waits for one more input. The background music follows the
//! demo while it plays and goes back to what it was afterwards.
use vstd::prelude::*;
use crate::project::DemoDef;
use crate::text::{cat3, same_text};

verus! {

/// How many revealed lines stay on screen (the oldest scroll away).
pub const VISIBLE_LINES: usize = 14;

/// The id of the ending demo: closing it ends the run.
pub open spec fn ending_id() -> Seq<char> {
    seq!['e', 'd']
}

/// Which background music should play: the level's own track, unless an
/// override is in effect ("" = silence).
#[derive(Clone, Debug, PartialEq, Eq)]
pub struct BgmState {
    pub level_track: String,
    pub override_track: Option<String>,
}

impl BgmState {
    /// The track that ought to be audible right now.
    pub fn desired(&self) -> (r: &str)
        ensures
            r@ == match self.override_track {
                Some(t) => t@,
                None => self.level_track@,
            },
    {
        match &self.override_track {
            Some(t) => t.as_str(),
            None => self.level_track.as_str(),
        }
    }

    /// Follow a move to a level whose own track is `track`: it becomes the
    /// current track and any override ends.
    pub fn enter_level(&mut self, track: String)
        ensures
            final(self).level_track == track,
            final(self).override_track is None,
    {
        self.level_track = track;
        self.override_track = None;
    }
}

/// A demo being played.
#[derive(Clone, Debug, PartialEq, Eq)]
pub struct ActiveDemo {
    pub id: String,
    /// Lines revealed so far (1 = the first line is visible).
    pub shown: usize,
    /// All lines are out and the END marker waits for input.
    pub at_end: bool,
    /// The music override in effect before the demo (restored on close).
    pub prev_override: Option<String>,
}

/// Where closing a demo leads.
#[derive(Clone, Copy, Debug, PartialEq, Eq, Structural)]
pub enum DemoClose {
    /// Back to play.
    Play,
    /// The ending while test-playing: back to the editor.
    Editor,
    /// The ending: the run is reset and the title screen opens.
    Title,
}

/// What one frame of playback asks of the caller.
#[derive(Clone, Copy, Debug, PartialEq, Eq, Structural)]
pub enum DemoStep {
    /// Keep playing; `restart_timer` when the line timer starts over.
    Continue { restart_timer: bool },
    /// Close the demo and go on as [`DemoClose`] says.
    Close(DemoClose),
}

/// Find the first demo with id `id`.
pub fn find_demo(demos: &Vec<DemoDef>, id: &str) -> (r: Option<usize>)
    ensures
        match r {
            Some(k) => k < demos@.len() && demos@[k as int].id@ == id@ && forall|j: int|
                0 <= j < k ==> (#[trigger] demos@[j]).id@ != id@,
            None => forall|j: int| 0 <= j < demos@.len() ==> (#[trigger] demos@[j]).id@ != id@,
        },
{
    let mut i: usize = 0;
    while i < demos.len()
        invariant
            i <= demos@.len(),
            forall|j: int| 0 <= j < i ==> (#[trigger] demos@[j]).id@ != id@,
        decreases demos@.len() - i,
    {
        if same_text(&demos[i].id, id) {
            return Some(i);
        }
        i = i + 1;
    }
    None
}

/// Start the demo with id `id`: the first line shows at once (none for a demo
/// without lines, which goes straight to END), and the demo's music, when it
/// names one, overrides the current track. Refused with a message when no
/// demo has that id; nothing changes then.
pub fn start_demo(demos: &Vec<DemoDef>, id: &str, bgm: &mut BgmState) -> (r: Result<ActiveDemo, String>)
    ensures
        match r {
            Ok(a) => exists|k: int|
                {
                    &&& 0 <= k < demos@.len()
                    &&& #[trigger] demos@[k].id@ == id@
                    &&& forall|j: int| 0 <= j < k ==> (#[trigger] demos@[j]).id@ != id@
                    &&& a.id@ == demos@[k].id@
                    &&& a.shown == (if demos@[k].lines@.len() == 0 { 0usize } else { 1usize })
                    &&& a.at_end == (demos@[k].lines@.len() == 0)
                    &&& a.prev_override == old(bgm).override_track
                    &&& final(bgm).level_track == old(bgm).level_track
                    &&& final(bgm).override_track == (if demos@[k].bgm@.len() == 0 {
                        old(bgm).override_track
                    } else {
                        Some(demos@[k].bgm)
                    })
                },
            Err(e) => {
                &&& forall|j: int| 0 <= j < demos@.len() ==> (#[trigger] demos@[j]).id@ != id@
                &&& e@ == "デモ「"@ + id@ + "」が みつからない"@
                &&& *final(bgm) == *old(bgm)
            },
        },
{
    let k = match find_demo(demos, id) {
        None => {
            return Err(cat3("デモ「", id, "」が みつからない"));
        },
        Some(k) => k,
    };
    let def = &demos[k];
    let prev = match &bgm.override_track {
        Some(t) => Some(t.clone()),
        None => None,
    };
    if !def.bgm.as_str().is_empty() {
        bgm.override_track = Some(def.bgm.clone());
    }
    let n = def.lines.len();
    let a = ActiveDemo {
        id: def.id.clone(),
        shown: if n == 0 {
            0
        } else {
            1
        },
        at_end: n == 0,
        prev_override: prev,
    };
    assert(demos@[k as int].id@ == id@);
    Ok(a)
}

/// Where closing the demo with id `id` leads.
pub open spec fn close_target(id: Seq<char>, test_play: bool) -> DemoClose {
    if id == ending_id() {
        if test_play {
            DemoClose::Editor
        } else {
            DemoClose::Title
        }
    } else {
        DemoClose::Play
    }
}

/// One frame of playback of `active` (a demo of `n_lines` lines), with
/// `advance` (click or Space), `skip` (Escape) and `timer_up` (the line timer
/// ran out). At END any input closes the demo and restores the music; before
/// it, `skip` reveals everything and goes to END, while `advance` or the timer
/// reveal the next line (or reach END once all are out) and restart the timer.
pub fn drive_demo(
    active: &mut ActiveDemo,
    n_lines: usize,
    advance: bool,
    skip: bool,
    timer_up: bool,
    test_play: bool,
    bgm: &mut BgmState,
) -> (r: DemoStep)
    requires
        old(active).shown <= n_lines,
    ensures
        final(active).shown <= n_lines,
        final(active).id == old(active).id,
        final(active).prev_override == old(active).prev_override,
        final(bgm).level_track == old(bgm).level_track,
        if old(active).at_end {
            if advance || skip {
                &&& r == DemoStep::Close(close_target(old(active).id@, test_play))
                &&& final(bgm).override_track == old(active).prev_override
                &&& *final(active) == *old(active)
            } else {
                r == DemoStep::Continue { restart_timer: false } && *final(active) == *old(active) && *final(bgm)
                    == *old(bgm)
            }
        } else {
            &&& *final(bgm) == *old(bgm)
            &&& if skip {
                &&& r == DemoStep::Continue { restart_timer: false }
                &&& final(active).shown == n_lines && final(active).at_end
            } else if advance || timer_up {
                &&& r == DemoStep::Continue { restart_timer: true }
                &&& if old(active).shown < n_lines {
                    final(active).shown == old(active).shown + 1 && !final(active).at_end
                } else {
                    final(active).shown == old(active).shown && final(active).at_end
                }
            } else {
                r == DemoStep::Continue { restart_timer: false } && *final(active) == *old(active)
            }
        },
{
    if active.at_end {
        if advance || skip {
            bgm.override_track = match &active.prev_override {
                Some(t) => Some(t.clone()),
                None => None,
            };
            let ending = same_text(&active.id, "ed");
            proof {
                reveal_strlit("ed");
                assert("ed"@ =~= ending_id());
            }
            let target = if ending {
                if test_play {
                    DemoClose::Editor
                } else {
                    DemoClose::Title
                }
            } else {
                DemoClose::Play
            };
            return DemoStep::Close(target);
        }
        return DemoStep::Continue { restart_timer: false };
    }
    if skip {
        active.shown = n_lines;
        active.at_end = true;
        return DemoStep::Continue { restart_timer: false };
    }
    if advance || timer_up {
        if active.shown < n_lines {
            active.shown = active.shown + 1;
        } else {
            active.at_end = true;
        }
        return DemoStep::Continue { restart_timer: true };
    }
    DemoStep::Continue { restart_timer: false }
}

/// Lines joined with a line break between each two.
pub open spec fn joined(lines: Seq<Seq<char>>) -> Seq<char>
    decreases lines.len(),
{
    if lines.len() == 0 {
        Seq::empty()
    } else if lines.len() == 1 {
        lines[0]
    } else {
        joined(lines.drop_last()) + seq!['\n'] + lines.last()
    }
}

/// What the overlay shows: the last [`VISIBLE_LINES`] of the first `shown`
/// lines, one per row, and at END the marker, a blank row below any text.
pub open spec fn spec_demo_text(lines: Seq<Seq<char>>, shown: int, at_end: bool) -> Seq<char> {
    let k = if shown < lines.len() {
        shown
    } else {
        lines.len() as int
    };
    let start = if k > VISIBLE_LINES {
        k - VISIBLE_LINES
    } else {
        0
    };
    let s = joined(lines.subrange(start, k));
    if at_end {
        if s.len() == 0 {
            "— END —"@
        } else {
            s + "\n\n"@ + "— END —"@
        }
    } else {
        s
    }
}

/// The overlay text for `lines` with `shown` revealed (see [`spec_demo_text`]).
pub fn demo_text(lines: &Vec<String>, shown: usize, at_end: bool) -> (r: String)
    ensures
        r@ == spec_demo_text(crate::ids::texts(lines@), shown as int, at_end),
{
    let ghost ls = crate::ids::texts(lines@);
    let k = if shown < lines.len() {
        shown
    } else {
        lines.len()
    };
    let start = if k > VISIBLE_LINES {
        k - VISIBLE_LINES
    } else {
        0
    };
    let mut s = String::new();
    let mut i = start;
    while i < k
        invariant
            start <= i <= k <= lines@.len(),
            ls == crate::ids::texts(lines@),
            s@ == joined(ls.subrange(start as int, i as int)),
        decreases k - i,
    {
        assert(ls.subrange(start as int, i as int + 1).drop_last() =~= ls.subrange(start as int, i as int));
        if i > start {
            s.append("\n");
            proof {
                reveal_strlit("\n");
            }
        }
        s.append(lines[i].as_str());
        i = i + 1;
    }
    if at_end {
        if !s.as_str().is_empty() {
            s.append("\n\n");
        }
        s.append("— END —");
    }
    s
}

} // verus!
