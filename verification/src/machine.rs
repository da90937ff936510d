//! The shape-editing interaction state machine.
//!
//! Pointer and keyboard events, already translated to texture space, mutate
//! the point buffer and the grabbed-point index, and yield the list of GPU
//! operations the host must perform, in order. Every transition is a pure
//! function of the machine state and the event, as the contracts state.

use vstd::prelude::*;

use crate::helpers::{Action, Rgba};
use crate::points::{Point, PointBuffer, POINT_CAPACITY};
use crate::render::CopyDirection;

verus! {

/// The interaction states: no active shape, collecting points, or editing
/// already-placed points.
#[derive(Clone, Copy, PartialEq, Eq, Structural, Debug)]
pub enum InteractionState {
    Init,
    AddPoints,
    EditPoints,
}

/// One GPU operation the host performs on the machine's behalf, in the
/// order returned.
#[derive(Clone, Copy, PartialEq, Eq, Structural, Debug)]
pub enum GpuOp {
    /// Dispatch the rasterizer's compute kernel over the front surface.
    Draw,
    /// Copy one canvas surface onto the other.
    Copy(CopyDirection),
    /// Flood fill the front surface at a texture pixel with a color.
    Fill(Point, Rgba),
    /// Ask the host for a redraw.
    RequestRedraw,
}

/// Absolute value.
pub open spec fn abs_i(v: int) -> int {
    if v < 0 {
        -v
    } else {
        v
    }
}

/// Both coordinates of `p` are within the grab tolerance of `pos`.
pub open spec fn grab_hit(p: Point, pos: Point, tol: int) -> bool {
    abs_i(p.x - pos.x) < tol && abs_i(p.y - pos.y) < tol
}

/// Manhattan distance.
pub open spec fn dist1(p: Point, pos: Point) -> int {
    abs_i(p.x - pos.x) + abs_i(p.y - pos.y)
}

/// The grab search over the first `n` points: the index and distance of the
/// first point with the least Manhattan distance among those within
/// tolerance on both axes.
pub open spec fn grab_upto(pts: Seq<Point>, pos: Point, tol: int, n: int) -> Option<(int, int)>
    decreases n,
{
    if n <= 0 {
        None
    } else {
        let prev = grab_upto(pts, pos, tol, n - 1);
        if grab_hit(pts[n - 1], pos, tol) {
            let d = dist1(pts[n - 1], pos);
            match prev {
                None => Some((n - 1, d)),
                Some(pd) => if d < pd.1 {
                    Some((n - 1, d))
                } else {
                    Some(pd)
                },
            }
        } else {
            prev
        }
    }
}

/// The grab search finds an index among the first `n` points.
pub proof fn lemma_grab_in_range(pts: Seq<Point>, pos: Point, tol: int, n: int)
    requires
        grab_upto(pts, pos, tol, n) is Some,
    ensures
        0 <= grab_upto(pts, pos, tol, n)->Some_0.0 < n,
    decreases n,
{
    if n > 0 {
        if grab_upto(pts, pos, tol, n - 1) is Some {
            lemma_grab_in_range(pts, pos, tol, n - 1);
        }
    }
}

/// What the grab search returns is right: a found index names a point
/// within tolerance at minimal Manhattan distance, no earlier point ties
/// it, and nothing is found only when no point is within tolerance.
pub proof fn lemma_grab_correct(pts: Seq<Point>, pos: Point, tol: int, n: int)
    requires
        n <= pts.len(),
    ensures
        grab_upto(pts, pos, tol, n) matches Some(pd) ==> {
            &&& 0 <= pd.0 < n
            &&& grab_hit(pts[pd.0], pos, tol)
            &&& pd.1 == dist1(pts[pd.0], pos)
            &&& forall|j: int|
                0 <= j < n && grab_hit(#[trigger] pts[j], pos, tol) ==> pd.1 <= dist1(
                    pts[j],
                    pos,
                )
            &&& forall|j: int|
                0 <= j < pd.0 && grab_hit(#[trigger] pts[j], pos, tol) ==> pd.1 < dist1(
                    pts[j],
                    pos,
                )
        },
        grab_upto(pts, pos, tol, n) is None ==> forall|j: int|
            0 <= j < n ==> !grab_hit(#[trigger] pts[j], pos, tol),
    decreases n,
{
    if n > 0 {
        lemma_grab_correct(pts, pos, tol, n - 1);
    }
}

/// Searches the buffer for the point to grab: the nearest point within
/// tolerance by Manhattan distance, ties broken toward the oldest point.
fn find_grab(buffer: &PointBuffer, pos: Point, tol: i64) -> (r: Option<usize>)
    requires
        buffer.wf(),
        pos.bounded(),
        0 <= tol,
    ensures
        (r is Some) == (grab_upto(buffer.points(), pos, tol as int, buffer.points().len()
            as int) is Some),
        r matches Some(i) ==> grab_upto(buffer.points(), pos, tol as int,
            buffer.points().len() as int) matches Some(pd) && pd.0 == i as int && (i as int)
            < buffer.points().len(),
{
    let ghost pts = buffer.points();
    let n = buffer.len();
    let mut best: Option<(usize, i64)> = None;
    let mut i: usize = 0;
    while i < n
        invariant
            buffer.wf(),
            pos.bounded(),
            0 <= tol,
            pts == buffer.points(),
            n == pts.len(),
            0 <= i <= n,
            (best is Some) == (grab_upto(pts, pos, tol as int, i as int) is Some),
            best matches Some(bd) ==> grab_upto(pts, pos, tol as int, i as int) matches Some(
                pd,
            ) && pd.0 == bd.0 as int && pd.1 == bd.1 as int && bd.0 < i,
        decreases n - i,
    {
        let p = buffer.get(i);
        proof {
            assert(pts[i as int].bounded());
        }
        let dx = p.x - pos.x;
        let dy = p.y - pos.y;
        let adx = if dx < 0 {
            -dx
        } else {
            dx
        };
        let ady = if dy < 0 {
            -dy
        } else {
            dy
        };
        if adx < tol && ady < tol {
            let d = adx + ady;
            proof {
                assert(grab_hit(pts[i as int], pos, tol as int));
                assert(d == dist1(pts[i as int], pos));
            }
            match best {
                None => {
                    best = Some((i, d));
                },
                Some(bd) => {
                    if d < bd.1 {
                        best = Some((i, d));
                    }
                },
            }
        } else {
            proof {
                assert(!grab_hit(pts[i as int], pos, tol as int));
            }
        }
        i = i + 1;
    }
    match best {
        Some(bd) => Some(bd.0),
        None => None,
    }
}

/// The interaction state machine: the current state, the shared point
/// buffer, and the optional grabbed-point index.
pub struct Machine {
    pub state: InteractionState,
    pub buffer: PointBuffer,
    pub grabbed: Option<usize>,
}

impl Machine {
    /// Well-formed: the buffer is within capacity; while collecting points
    /// there is at least one point; a point is grabbed only while editing,
    /// and its index names a point.
    pub open spec fn wf(self) -> bool {
        &&& self.buffer.wf()
        &&& (self.state == InteractionState::AddPoints ==> self.buffer.points().len() >= 1)
        &&& (match self.grabbed {
            Some(i) => self.state == InteractionState::EditPoints && (i as int)
                < self.buffer.points().len(),
            None => true,
        })
    }

    /// A fresh machine: no active shape, an empty buffer, nothing grabbed.
    pub fn new() -> (r: Self)
        ensures
            r.wf(),
            r.state == InteractionState::Init,
            r.buffer.points() == Seq::<Point>::empty(),
            !r.buffer.spec_dirty(),
            r.grabbed is None,
    {
        Self { state: InteractionState::Init, buffer: PointBuffer::new(), grabbed: None }
    }

    /// Primary pointer press, following the transition table: Fill floods
    /// and commits from any state; from no active shape the buffer is
    /// seeded with two copies of the press point; while collecting, a
    /// single-shape action moves to editing, a polygon appends, an erase
    /// recycles the oldest point; while editing, a press releases the
    /// grabbed point or grabs the nearest point within tolerance.
    pub fn on_press(&mut self, pos: Point, action: Action, tolerance: i64, color: Rgba) -> (eff:
        Vec<GpuOp>)
        requires
            old(self).wf(),
            pos.bounded(),
            0 <= tolerance,
        ensures
            final(self).wf(),
            action == Action::Fill ==> {
                &&& final(self).state == old(self).state
                &&& final(self).buffer.points() == old(self).buffer.points()
                &&& final(self).buffer.spec_dirty() == old(self).buffer.spec_dirty()
                &&& final(self).grabbed == old(self).grabbed
                &&& eff@ == seq![
                    GpuOp::Fill(pos, color),
                    GpuOp::Copy(CopyDirection::FrontToBack),
                    GpuOp::RequestRedraw,
                ]
            },
            action != Action::Fill && old(self).state == InteractionState::Init ==> {
                &&& final(self).state == InteractionState::AddPoints
                &&& final(self).buffer.points() == seq![pos, pos]
                &&& final(self).buffer.spec_dirty()
                &&& final(self).grabbed == old(self).grabbed
                &&& eff@ == Seq::<GpuOp>::empty()
            },
            action != Action::Fill && old(self).state == InteractionState::AddPoints ==> {
                &&& action.spec_is_single_shape() ==> {
                    &&& final(self).state == InteractionState::EditPoints
                    &&& final(self).buffer.points() == old(self).buffer.points()
                    &&& final(self).buffer.spec_dirty() == old(self).buffer.spec_dirty()
                    &&& final(self).grabbed == old(self).grabbed
                    &&& eff@ == Seq::<GpuOp>::empty()
                }
                &&& action == Action::DrawPolygon ==> {
                    &&& final(self).state == InteractionState::AddPoints
                    &&& old(self).buffer.points().len() < POINT_CAPACITY ==> final(self).buffer.points() == old(self).buffer.points().push(pos) && final(self).buffer.spec_dirty()
                    &&& old(self).buffer.points().len() >= POINT_CAPACITY ==> final(self).buffer.points() == old(self).buffer.points() && final(self).buffer.spec_dirty() == old(self).buffer.spec_dirty()
                    &&& final(self).grabbed == old(self).grabbed
                    &&& eff@ == Seq::<GpuOp>::empty()
                }
                &&& action == Action::Erase ==> {
                    &&& final(self).state == InteractionState::AddPoints
                    &&& final(self).buffer.points() == old(self).buffer.points().update(
                        0,
                        old(self).buffer.points().last(),
                    ).drop_last().push(pos)
                    &&& final(self).buffer.spec_dirty()
                    &&& final(self).grabbed == old(self).grabbed
                    &&& eff@ == Seq::<GpuOp>::empty()
                }
                &&& (!action.spec_is_single_shape() && action != Action::DrawPolygon && action
                    != Action::Erase) ==> {
                    &&& final(self).state == old(self).state
                    &&& final(self).buffer.points() == old(self).buffer.points()
                    &&& final(self).buffer.spec_dirty() == old(self).buffer.spec_dirty()
                    &&& final(self).grabbed == old(self).grabbed
                    &&& eff@ == Seq::<GpuOp>::empty()
                }
            },
            action != Action::Fill && old(self).state == InteractionState::EditPoints ==> {
                &&& final(self).state == InteractionState::EditPoints
                &&& final(self).buffer.points() == old(self).buffer.points()
                &&& final(self).buffer.spec_dirty() == old(self).buffer.spec_dirty()
                &&& eff@ == Seq::<GpuOp>::empty()
                &&& old(self).grabbed is Some ==> final(self).grabbed is None
                &&& old(self).grabbed is None ==> {
                    &&& (final(self).grabbed is Some) == (grab_upto(
                        old(self).buffer.points(),
                        pos,
                        tolerance as int,
                        old(self).buffer.points().len() as int,
                    ) is Some)
                    &&& final(self).grabbed matches Some(i) ==> grab_upto(
                        old(self).buffer.points(),
                        pos,
                        tolerance as int,
                        old(self).buffer.points().len() as int,
                    ) matches Some(pd) && pd.0 == i as int
                }
            },
    {
        let mut eff: Vec<GpuOp> = Vec::new();
        if matches!(action, Action::Fill) {
            eff.push(GpuOp::Fill(pos, color));
            eff.push(GpuOp::Copy(CopyDirection::FrontToBack));
            eff.push(GpuOp::RequestRedraw);
            proof {
                assert(eff@ =~= seq![
                    GpuOp::Fill(pos, color),
                    GpuOp::Copy(CopyDirection::FrontToBack),
                    GpuOp::RequestRedraw,
                ]);
            }
            return eff;
        }
        match self.state {
            InteractionState::Init => {
                self.buffer.clear();
                let _ = self.buffer.push(pos);
                let _ = self.buffer.push(pos);
                self.state = InteractionState::AddPoints;
                proof {
                    assert(self.buffer.points() =~= seq![pos, pos]);
                }
            },
            InteractionState::AddPoints => {
                if action.is_single_shape() {
                    self.state = InteractionState::EditPoints;
                } else if matches!(action, Action::Erase) {
                    let _ = self.buffer.swap_remove(0);
                    let _ = self.buffer.push(pos);
                } else if matches!(action, Action::DrawPolygon) {
                    let _ = self.buffer.push(pos);
                }
            },
            InteractionState::EditPoints => {
                match self.grabbed {
                    Some(_) => {
                        self.grabbed = None;
                    },
                    None => {
                        let hit = find_grab(&self.buffer, pos, tolerance);
                        proof {
                            if grab_upto(
                                self.buffer.points(),
                                pos,
                                tolerance as int,
                                self.buffer.points().len() as int,
                            ) is Some {
                                lemma_grab_in_range(
                                    self.buffer.points(),
                                    pos,
                                    tolerance as int,
                                    self.buffer.points().len() as int,
                                );
                            }
                        }
                        self.grabbed = hit;
                    },
                }
            },
        }
        eff
    }

    /// Pointer motion: while collecting, the newest point tracks the
    /// pointer; while editing with a grabbed point, that point tracks it.
    /// With preview enabled, each such move re-renders the scratch state.
    pub fn on_motion(&mut self, pos: Point, preview: bool) -> (eff: Vec<GpuOp>)
        requires
            old(self).wf(),
            pos.bounded(),
        ensures
            final(self).wf(),
            old(self).state == InteractionState::AddPoints ==> {
                &&& final(self).buffer.points() == old(self).buffer.points().update(
                    old(self).buffer.points().len() - 1,
                    pos,
                )
                &&& final(self).buffer.spec_dirty()
                &&& final(self).state == old(self).state
                &&& final(self).grabbed == old(self).grabbed
                &&& preview ==> eff@ == seq![
                    GpuOp::Copy(CopyDirection::BackToFront),
                    GpuOp::Draw,
                    GpuOp::RequestRedraw,
                ]
                &&& !preview ==> eff@ == seq![GpuOp::RequestRedraw]
            },
            old(self).grabbed matches Some(g) ==> (old(self).state
                == InteractionState::EditPoints ==> {
                &&& final(self).buffer.points() == old(self).buffer.points().update(
                    g as int,
                    pos,
                )
                &&& final(self).buffer.spec_dirty()
                &&& final(self).state == old(self).state
                &&& final(self).grabbed == old(self).grabbed
                &&& preview ==> eff@ == seq![
                    GpuOp::Copy(CopyDirection::BackToFront),
                    GpuOp::Draw,
                    GpuOp::RequestRedraw,
                ]
                &&& !preview ==> eff@ == seq![GpuOp::RequestRedraw]
            }),
            (old(self).state == InteractionState::Init || (old(self).state
                == InteractionState::EditPoints && old(self).grabbed is None)) ==> {
                &&& final(self).buffer.points() == old(self).buffer.points()
                &&& final(self).buffer.spec_dirty() == old(self).buffer.spec_dirty()
                &&& final(self).state == old(self).state
                &&& final(self).grabbed == old(self).grabbed
                &&& eff@ == Seq::<GpuOp>::empty()
            },
    {
        let mut eff: Vec<GpuOp> = Vec::new();
        match self.state {
            InteractionState::AddPoints => {
                let n = self.buffer.len();
                self.buffer.set(n - 1, pos);
                if preview {
                    eff.push(GpuOp::Copy(CopyDirection::BackToFront));
                    eff.push(GpuOp::Draw);
                }
                eff.push(GpuOp::RequestRedraw);
                proof {
                    if preview {
                        assert(eff@ =~= seq![
                            GpuOp::Copy(CopyDirection::BackToFront),
                            GpuOp::Draw,
                            GpuOp::RequestRedraw,
                        ]);
                    } else {
                        assert(eff@ =~= seq![GpuOp::RequestRedraw]);
                    }
                }
            },
            InteractionState::EditPoints => {
                match self.grabbed {
                    Some(g) => {
                        self.buffer.set(g, pos);
                        if preview {
                            eff.push(GpuOp::Copy(CopyDirection::BackToFront));
                            eff.push(GpuOp::Draw);
                        }
                        eff.push(GpuOp::RequestRedraw);
                        proof {
                            if preview {
                                assert(eff@ =~= seq![
                                    GpuOp::Copy(CopyDirection::BackToFront),
                                    GpuOp::Draw,
                                    GpuOp::RequestRedraw,
                                ]);
                            } else {
                                assert(eff@ =~= seq![GpuOp::RequestRedraw]);
                            }
                        }
                    },
                    None => {},
                }
            },
            InteractionState::Init => {},
        }
        eff
    }

    /// Pointer motion after a zoom change: while collecting, the newest
    /// point follows the re-projected pointer; a redraw is always due.
    pub fn on_zoom_motion(&mut self, pos: Point, preview: bool) -> (eff: Vec<GpuOp>)
        requires
            old(self).wf(),
            pos.bounded(),
        ensures
            final(self).wf(),
            old(self).state == InteractionState::AddPoints ==> {
                &&& final(self).buffer.points() == old(self).buffer.points().update(
                    old(self).buffer.points().len() - 1,
                    pos,
                )
                &&& final(self).buffer.spec_dirty()
                &&& final(self).state == old(self).state
                &&& final(self).grabbed == old(self).grabbed
                &&& preview ==> eff@ == seq![
                    GpuOp::Copy(CopyDirection::BackToFront),
                    GpuOp::Draw,
                    GpuOp::RequestRedraw,
                ]
                &&& !preview ==> eff@ == seq![GpuOp::RequestRedraw]
            },
            old(self).state != InteractionState::AddPoints ==> {
                &&& final(self).buffer.points() == old(self).buffer.points()
                &&& final(self).buffer.spec_dirty() == old(self).buffer.spec_dirty()
                &&& final(self).state == old(self).state
                &&& final(self).grabbed == old(self).grabbed
                &&& eff@ == seq![GpuOp::RequestRedraw]
            },
    {
        let mut eff: Vec<GpuOp> = Vec::new();
        match self.state {
            InteractionState::AddPoints => {
                let n = self.buffer.len();
                self.buffer.set(n - 1, pos);
                if preview {
                    eff.push(GpuOp::Copy(CopyDirection::BackToFront));
                    eff.push(GpuOp::Draw);
                }
                eff.push(GpuOp::RequestRedraw);
                proof {
                    if preview {
                        assert(eff@ =~= seq![
                            GpuOp::Copy(CopyDirection::BackToFront),
                            GpuOp::Draw,
                            GpuOp::RequestRedraw,
                        ]);
                    } else {
                        assert(eff@ =~= seq![GpuOp::RequestRedraw]);
                    }
                }
            },
            _ => {
                eff.push(GpuOp::RequestRedraw);
                proof {
                    assert(eff@ =~= seq![GpuOp::RequestRedraw]);
                }
            },
        }
        eff
    }

    /// Commit key: a single-shape action in either shaping state, or a
    /// polygon while editing, rasterizes and bakes the shape and returns to
    /// the idle state; a polygon while collecting closes for editing.
    pub fn on_enter(&mut self, action: Action) -> (eff: Vec<GpuOp>)
        requires
            old(self).wf(),
        ensures
            final(self).wf(),
            (action.spec_is_single_shape() && (old(self).state == InteractionState::AddPoints
                || old(self).state == InteractionState::EditPoints)) || (action
                == Action::DrawPolygon && old(self).state == InteractionState::EditPoints)
                ==> {
                &&& final(self).state == InteractionState::Init
                &&& final(self).buffer.points() == Seq::<Point>::empty()
                &&& final(self).buffer.spec_dirty()
                &&& final(self).grabbed is None
                &&& eff@ == seq![
                    GpuOp::Draw,
                    GpuOp::Copy(CopyDirection::FrontToBack),
                    GpuOp::RequestRedraw,
                ]
            },
            action == Action::DrawPolygon && old(self).state == InteractionState::AddPoints
                ==> {
                &&& final(self).state == InteractionState::EditPoints
                &&& final(self).buffer.points() == old(self).buffer.points()
                &&& final(self).buffer.spec_dirty() == old(self).buffer.spec_dirty()
                &&& final(self).grabbed == old(self).grabbed
                &&& eff@ == Seq::<GpuOp>::empty()
            },
            ((!action.spec_is_single_shape() && action != Action::DrawPolygon) || old(self).state == InteractionState::Init) ==> {
                &&& final(self).state == old(self).state
                &&& final(self).buffer.points() == old(self).buffer.points()
                &&& final(self).buffer.spec_dirty() == old(self).buffer.spec_dirty()
                &&& final(self).grabbed == old(self).grabbed
                &&& eff@ == Seq::<GpuOp>::empty()
            },
    {
        let mut eff: Vec<GpuOp> = Vec::new();
        let commit = (action.is_single_shape() && !matches!(self.state, InteractionState::Init))
            || (matches!(action, Action::DrawPolygon) && matches!(
            self.state,
            InteractionState::EditPoints,
        ));
        if commit {
            eff.push(GpuOp::Draw);
            eff.push(GpuOp::Copy(CopyDirection::FrontToBack));
            eff.push(GpuOp::RequestRedraw);
            self.buffer.clear();
            self.grabbed = None;
            self.state = InteractionState::Init;
            proof {
                assert(eff@ =~= seq![
                    GpuOp::Draw,
                    GpuOp::Copy(CopyDirection::FrontToBack),
                    GpuOp::RequestRedraw,
                ]);
            }
        } else if matches!(action, Action::DrawPolygon) && matches!(
            self.state,
            InteractionState::AddPoints,
        ) {
            self.state = InteractionState::EditPoints;
        }
        eff
    }

    /// Cancel key: unconditionally clears the buffer, discards any
    /// uncommitted preview and resets both surfaces to the last commit.
    pub fn on_escape(&mut self) -> (eff: Vec<GpuOp>)
        requires
            old(self).wf(),
        ensures
            final(self).wf(),
            final(self).state == InteractionState::Init,
            final(self).buffer.points() == Seq::<Point>::empty(),
            final(self).buffer.spec_dirty(),
            final(self).grabbed is None,
            eff@ == seq![
                GpuOp::Copy(CopyDirection::BackToFront),
                GpuOp::Draw,
                GpuOp::Copy(CopyDirection::FrontToBack),
                GpuOp::RequestRedraw,
            ],
    {
        let mut eff: Vec<GpuOp> = Vec::new();
        self.buffer.clear();
        self.grabbed = None;
        self.state = InteractionState::Init;
        eff.push(GpuOp::Copy(CopyDirection::BackToFront));
        eff.push(GpuOp::Draw);
        eff.push(GpuOp::Copy(CopyDirection::FrontToBack));
        eff.push(GpuOp::RequestRedraw);
        proof {
            assert(eff@ =~= seq![
                GpuOp::Copy(CopyDirection::BackToFront),
                GpuOp::Draw,
                GpuOp::Copy(CopyDirection::FrontToBack),
                GpuOp::RequestRedraw,
            ]);
        }
        eff
    }

    /// Delete key while shaping: a single-shape action cancels outright,
    /// as the cancel key does. A polygon with a grabbed point cancels
    /// whole when the grabbed index is the last of the three minimum
    /// points; otherwise that point is removed and the grab shifts to the
    /// previous point (removing the first point keeps the grab on the new
    /// first point; an emptied buffer releases the grab).
    pub fn on_delete(&mut self, action: Action, preview: bool) -> (eff: Vec<GpuOp>)
        requires
            old(self).wf(),
        ensures
            final(self).wf(),
            old(self).state == InteractionState::Init ==> {
                &&& final(self).state == old(self).state
                &&& final(self).buffer.points() == old(self).buffer.points()
                &&& final(self).buffer.spec_dirty() == old(self).buffer.spec_dirty()
                &&& final(self).grabbed == old(self).grabbed
                &&& eff@ == Seq::<GpuOp>::empty()
            },
            old(self).state != InteractionState::Init && action.spec_is_single_shape() ==> {
                &&& final(self).state == InteractionState::Init
                &&& final(self).buffer.points() == Seq::<Point>::empty()
                &&& final(self).buffer.spec_dirty()
                &&& final(self).grabbed is None
                &&& eff@ == seq![
                    GpuOp::Copy(CopyDirection::BackToFront),
                    GpuOp::Draw,
                    GpuOp::Copy(CopyDirection::FrontToBack),
                    GpuOp::RequestRedraw,
                ]
            },
            old(self).grabbed matches Some(g) ==> ((old(self).state != InteractionState::Init
                && action == Action::DrawPolygon) ==> {
                &&& g == 2 ==> {
                    &&& final(self).state == InteractionState::Init
                    &&& final(self).buffer.points() == Seq::<Point>::empty()
                    &&& final(self).buffer.spec_dirty()
                    &&& final(self).grabbed is None
                    &&& eff@ == seq![
                        GpuOp::Copy(CopyDirection::BackToFront),
                        GpuOp::Draw,
                        GpuOp::Copy(CopyDirection::FrontToBack),
                        GpuOp::RequestRedraw,
                    ]
                }
                &&& g != 2 ==> {
                    &&& final(self).state == old(self).state
                    &&& final(self).buffer.points() == old(self).buffer.points().remove(
                        g as int,
                    )
                    &&& final(self).buffer.spec_dirty()
                    &&& final(self).grabbed == (if old(self).buffer.points().len() == 1 {
                        Option::<usize>::None
                    } else if g >= 1 {
                        Some((g - 1) as usize)
                    } else {
                        Some(0usize)
                    })
                    &&& preview ==> eff@ == seq![
                        GpuOp::Copy(CopyDirection::BackToFront),
                        GpuOp::Draw,
                        GpuOp::RequestRedraw,
                    ]
                    &&& !preview ==> eff@ == seq![GpuOp::RequestRedraw]
                }
            }),
            old(self).state != InteractionState::Init && ((!action.spec_is_single_shape()
                && action != Action::DrawPolygon) || (action == Action::DrawPolygon && old(self).grabbed is None)) ==> {
                &&& final(self).state == old(self).state
                &&& final(self).buffer.points() == old(self).buffer.points()
                &&& final(self).buffer.spec_dirty() == old(self).buffer.spec_dirty()
                &&& final(self).grabbed == old(self).grabbed
                &&& eff@ == Seq::<GpuOp>::empty()
            },
    {
        let mut eff: Vec<GpuOp> = Vec::new();
        if matches!(self.state, InteractionState::Init) {
            return eff;
        }
        if action.is_single_shape() {
            self.buffer.clear();
            self.grabbed = None;
            self.state = InteractionState::Init;
            eff.push(GpuOp::Copy(CopyDirection::BackToFront));
            eff.push(GpuOp::Draw);
            eff.push(GpuOp::Copy(CopyDirection::FrontToBack));
            eff.push(GpuOp::RequestRedraw);
            proof {
                assert(eff@ =~= seq![
                    GpuOp::Copy(CopyDirection::BackToFront),
                    GpuOp::Draw,
                    GpuOp::Copy(CopyDirection::FrontToBack),
                    GpuOp::RequestRedraw,
                ]);
            }
            return eff;
        }
        if matches!(action, Action::DrawPolygon) {
            match self.grabbed {
                Some(g) => {
                    if g == 2 {
                        self.buffer.clear();
                        self.grabbed = None;
                        self.state = InteractionState::Init;
                        eff.push(GpuOp::Copy(CopyDirection::BackToFront));
                        eff.push(GpuOp::Draw);
                        eff.push(GpuOp::Copy(CopyDirection::FrontToBack));
                        eff.push(GpuOp::RequestRedraw);
                        proof {
                            assert(eff@ =~= seq![
                                GpuOp::Copy(CopyDirection::BackToFront),
                                GpuOp::Draw,
                                GpuOp::Copy(CopyDirection::FrontToBack),
                                GpuOp::RequestRedraw,
                            ]);
                        }
                    } else {
                        let _ = self.buffer.remove(g);
                        if self.buffer.len() == 0 {
                            self.grabbed = None;
                        } else if g >= 1 {
                            self.grabbed = Some(g - 1);
                        } else {
                            self.grabbed = Some(0);
                        }
                        if preview {
                            eff.push(GpuOp::Copy(CopyDirection::BackToFront));
                            eff.push(GpuOp::Draw);
                        }
                        eff.push(GpuOp::RequestRedraw);
                        proof {
                            if preview {
                                assert(eff@ =~= seq![
                                    GpuOp::Copy(CopyDirection::BackToFront),
                                    GpuOp::Draw,
                                    GpuOp::RequestRedraw,
                                ]);
                            } else {
                                assert(eff@ =~= seq![GpuOp::RequestRedraw]);
                            }
                        }
                    }
                },
                None => {},
            }
        }
        eff
    }
}

} // verus!
