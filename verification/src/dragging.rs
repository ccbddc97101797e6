//! The drag-and-drop state machine: one optional gesture at a time, from
//! pointer-down on a placed item, through per-frame candidate recomputation
//! with validity feedback, to commit, revert or cancel.

use vstd::pervasive::VecAdditionalExecFns;
use vstd::prelude::*;

use crate::grid::GridCell;
use crate::items::PlacedItem;
use crate::positioning::{Coords, Pos};
use crate::scene::Scene;
use crate::GameError;

verus! {

/// The live state of one drag gesture.
#[derive(Clone, Copy, Debug, PartialEq, Eq, Structural)]
pub struct DragSession {
    /// Handle of the item being dragged.
    pub item: usize,
    /// The item's region when the gesture began; restored on revert.
    pub origin: Coords,
    /// Offset of the grab point inside the item's footprint, so the item
    /// does not snap its anchor under the pointer.
    pub grab: Pos,
    /// The candidate drop region under the current pointer; may be invalid.
    pub candidate: Coords,
    /// Whether the candidate region was free (apart from the item's own
    /// footprint) when it was last recomputed. Drives the ghost tint.
    pub valid: bool,
}

/// Whether a drag gesture is in progress.
#[derive(Clone, Copy, Debug, PartialEq, Eq, Structural)]
pub enum DragState {
    Idle,
    Dragging(DragSession),
}

/// The tint the ghost preview is rendered with while dragging.
#[derive(Clone, Copy, Debug, PartialEq, Eq, Structural)]
pub enum GhostTint {
    /// The candidate region is droppable.
    Valid,
    /// The candidate region is out of bounds or collides with another item.
    Invalid,
}

/// The candidate region implied by a pointer position: the pointer offset by
/// the grab point, with the dragged footprint.
pub open spec fn candidate_for(s: DragSession, pointer: Pos) -> Coords {
    Coords {
        pos: Pos { x: (pointer.x - s.grab.x) as i32, y: (pointer.y - s.grab.y) as i32 },
        dimens: s.origin.dimens,
    }
}

/// How `begin_drag` relates the scene before to the scene after.
pub open spec fn begin_rel(
    s0: Scene,
    s1: Scene,
    pointer: Pos,
    r: Result<Option<usize>, GameError>,
) -> bool {
    match r {
        Err(e) => e == GameError::DragAlreadyActive && s0.drag is Dragging && s1 == s0,
        Ok(None) => {
            &&& s0.drag is Idle
            &&& s1 == s0
            &&& (!s0.grid.in_bounds_pos(pointer.x as int, pointer.y as int) || s0.grid.cell(
                pointer.x as int,
                pointer.y as int,
            ).occupant is None)
        },
        Ok(Some(h)) => {
            &&& s0.drag is Idle
            &&& s0.grid.in_bounds_pos(pointer.x as int, pointer.y as int)
            &&& s0.grid.cell(pointer.x as int, pointer.y as int).occupant == Some(h)
            &&& s1 == (Scene {
                drag: DragState::Dragging(
                    DragSession {
                        item: h,
                        origin: s0.item_coords(h as int),
                        grab: (Pos {
                            x: (pointer.x - s0.item_coords(h as int).pos.x) as i32,
                            y: (pointer.y - s0.item_coords(h as int).pos.y) as i32,
                        }),
                        candidate: s0.item_coords(h as int),
                        valid: true,
                    },
                ),
                ..s0
            })
        },
    }
}

/// How `update_drag` relates the scene before to the scene after: the
/// candidate tracks the pointer and the validity flag is recomputed against
/// the grid, excluding the dragged item's own footprint.
pub open spec fn update_rel(s0: Scene, s1: Scene, pointer: Pos, r: Result<(), GameError>) -> bool {
    match r {
        Err(e) => e == GameError::NoActiveDrag && s0.drag is Idle && s1 == s0,
        Ok(()) => {
            &&& s0.drag is Dragging
            &&& (s0.drag matches DragState::Dragging(s) && s1 == (Scene {
                drag: DragState::Dragging(
                    DragSession {
                        candidate: candidate_for(s, pointer),
                        valid: s0.grid.region_free_except(candidate_for(s, pointer), s.item),
                        ..s
                    },
                ),
                ..s0
            }))
        },
    }
}

/// How `end_drag` relates the scene before to the scene after: a commit
/// clears the origin, fills the candidate and re-records the item's region;
/// a revert changes nothing but the gesture state.
pub open spec fn end_rel(s0: Scene, s1: Scene, r: Result<bool, GameError>) -> bool {
    match r {
        Err(e) => e == GameError::NoActiveDrag && s0.drag is Idle && s1 == s0,
        Ok(committed) => {
            &&& s0.drag is Dragging
            &&& (s0.drag matches DragState::Dragging(s) && (if committed {
                &&& s.valid
                &&& s0.grid.region_free_except(s.candidate, s.item)
                &&& s1.drag is Idle
                &&& s1.items@ == s0.items@.update(
                    s.item as int,
                    Some(
                        PlacedItem {
                            item: s0.items@[s.item as int]->0.item,
                            coords: s.candidate,
                        },
                    ),
                )
                &&& s1.notifications == s0.notifications
                &&& s1.grid.coords == s0.grid.coords
                &&& s1.grid.cells@.len() == s0.grid.cells@.len()
                &&& forall|x: int, y: int|
                    s0.grid.in_bounds_pos(x, y) ==> (#[trigger] s1.grid.cell(x, y)) == (
                    if s.candidate.contains(x, y) {
                        (GridCell { occupant: Some(s.item) })
                    } else if s.origin.contains(x, y) {
                        (GridCell { occupant: None::<usize> })
                    } else {
                        s0.grid.cell(x, y)
                    })
            } else {
                &&& !(s.valid && s0.grid.region_free_except(s.candidate, s.item))
                &&& s1 == (Scene { drag: DragState::Idle, ..s0 })
            }))
        },
    }
}

/// How `cancel_drag` relates the scene before to the scene after.
pub open spec fn cancel_rel(s0: Scene, s1: Scene, r: Result<(), GameError>) -> bool {
    match r {
        Err(e) => e == GameError::NoActiveDrag && s0.drag is Idle && s1 == s0,
        Ok(()) => s0.drag is Dragging && s1 == (Scene { drag: DragState::Idle, ..s0 }),
    }
}

impl Scene {
    /// Pointer-down: starts a drag if the pointer rests on a placed item.
    /// Returns the grabbed item's handle, `Ok(None)` when the pointer is on
    /// no item, and declines while another drag is active.
    pub fn begin_drag(&mut self, pointer: Pos) -> (r: Result<Option<usize>, GameError>)
        requires
            old(self).wf(),
            pointer.wf(),
        ensures
            final(self).wf(),
            begin_rel(*old(self), *final(self), pointer, r),
    {
        match self.drag {
            DragState::Dragging(_) => {
                return Err(GameError::DragAlreadyActive);
            },
            DragState::Idle => {},
        }
        let occupant = match self.grid.cell_at(pointer) {
            None => None,
            Some(c) => c.occupant,
        };
        match occupant {
            None => Ok(None),
            Some(h) => {
                proof {
                    assert(self.grid.cell(pointer.x as int, pointer.y as int).occupant == Some(h));
                    assert(self.item_live(h as int));
                    assert(self.item_placed_ok(h as int));
                    assert(self.item_coords(h as int).contains(pointer.x as int, pointer.y as int));
                }
                let origin = match &self.items[h] {
                    Some(p) => p.coords,
                    None => {
                        return Err(GameError::NoActiveDrag);  // unreachable: the cell points at a live item
                    },
                };
                let grab = Pos { x: pointer.x - origin.pos.x, y: pointer.y - origin.pos.y };
                self.drag = DragState::Dragging(
                    DragSession { item: h, origin, grab, candidate: origin, valid: true },
                );
                Ok(Some(h))
            },
        }
    }

    /// Pointer-move: recomputes the candidate drop region from the pointer,
    /// snapped to whole cells and offset by the grab point, and refreshes
    /// the validity flag that tints the ghost preview.
    pub fn update_drag(&mut self, pointer: Pos) -> (r: Result<(), GameError>)
        requires
            old(self).wf(),
            pointer.wf(),
        ensures
            final(self).wf(),
            update_rel(*old(self), *final(self), pointer, r),
    {
        let s = match self.drag {
            DragState::Idle => {
                return Err(GameError::NoActiveDrag);
            },
            DragState::Dragging(s) => s,
        };
        let candidate = Coords {
            pos: Pos { x: pointer.x - s.grab.x, y: pointer.y - s.grab.y },
            dimens: s.origin.dimens,
        };
        proof {
            assert(self.item_placed_ok(s.item as int));
            assert(candidate.wf());
        }
        let valid = self.grid.is_region_free_except(candidate, s.item);
        self.drag = DragState::Dragging(DragSession { candidate, valid, ..s });
        Ok(())
    }

    /// Pointer-up: commits the drag when the candidate region is valid —
    /// clearing the origin cells, filling the candidate cells and updating
    /// the item's recorded region — and otherwise reverts, leaving grid and
    /// items exactly as they were. Returns whether it committed.
    pub fn end_drag(&mut self) -> (r: Result<bool, GameError>)
        requires
            old(self).wf(),
        ensures
            final(self).wf(),
            end_rel(*old(self), *final(self), r),
    {
        let s = match self.drag {
            DragState::Idle => {
                return Err(GameError::NoActiveDrag);
            },
            DragState::Dragging(s) => s,
        };
        if !s.valid || !self.grid.is_region_free_except(s.candidate, s.item) {
            self.drag = DragState::Idle;
            return Ok(false);
        }
        let ghost pre = *self;
        proof {
            assert(pre.item_placed_ok(s.item as int));
        }
        self.grid.fill_region(s.origin, None);
        self.grid.fill_region(s.candidate, Some(s.item));
        let mut entry: Option<PlacedItem> = None;
        self.items.set_and_swap(s.item, &mut entry);
        let def = match entry {
            Some(p) => p.item,
            None => {
                return Ok(false);  // unreachable: the dragged item is live
            },
        };
        self.items.set(s.item, Some(PlacedItem { item: def, coords: s.candidate }));
        self.drag = DragState::Idle;
        proof {
            assert(self.items@ =~= pre.items@.update(
                s.item as int,
                Some(
                    PlacedItem { item: pre.items@[s.item as int]->0.item, coords: s.candidate },
                ),
            ));
            lemma_commit_preserves_wf(pre, *self, s);
        }
        Ok(true)
    }

    /// Explicit cancel (drag interrupted): reverts to the origin placement,
    /// mutating nothing but the gesture state.
    pub fn cancel_drag(&mut self) -> (r: Result<(), GameError>)
        requires
            old(self).wf(),
        ensures
            final(self).wf(),
            cancel_rel(*old(self), *final(self), r),
    {
        match self.drag {
            DragState::Idle => Err(GameError::NoActiveDrag),
            DragState::Dragging(_) => {
                self.drag = DragState::Idle;
                Ok(())
            },
        }
    }

    /// The tint the ghost preview should currently be rendered with, or
    /// nothing when no drag is active.
    pub fn ghost_tint(&self) -> (r: Option<GhostTint>)
        requires
            self.wf(),
        ensures
            match self.drag {
                DragState::Idle => r is None,
                DragState::Dragging(s) => r == Some(
                    if s.valid {
                        GhostTint::Valid
                    } else {
                        GhostTint::Invalid
                    },
                ),
            },
    {
        match self.drag {
            DragState::Idle => None,
            DragState::Dragging(s) => {
                if s.valid {
                    Some(GhostTint::Valid)
                } else {
                    Some(GhostTint::Invalid)
                }
            },
        }
    }
}

/// A candidate drop region that overlaps any occupied cell not belonging to
/// the dragged item itself can never land: the probe after the move reports
/// invalid, ending the drag refuses to commit, and grid and items are left
/// exactly as they were before the move.
pub proof fn lemma_overlapping_drop_reverts(
    s0: Scene,
    s1: Scene,
    s2: Scene,
    pointer: Pos,
    r: Result<bool, GameError>,
    x: int,
    y: int,
    other: usize,
)
    requires
        s0.wf(),
        s0.drag is Dragging,
        update_rel(s0, s1, pointer, Ok(())),
        end_rel(s1, s2, r),
        r is Ok,
        s1.grid.in_bounds_pos(x, y),
        (s1.drag->Dragging_0).candidate.contains(x, y),
        s1.grid.cell(x, y).occupant == Some(other),
        other != (s1.drag->Dragging_0).item,
    ensures
        (s1.drag->Dragging_0).valid == false,
        r == Ok::<bool, GameError>(false),
        s2.grid == s0.grid,
        s2.items == s0.items,
        s2.drag is Idle,
{
    let s = s0.drag->Dragging_0;
    let cand = candidate_for(s, pointer);
    assert(s1.grid == s0.grid);
    assert(!s0.grid.region_free_except(cand, s.item));
    assert((s1.drag->Dragging_0).valid == false);
}

/// A drag that ends in a revert — an invalid drop — or in an explicit
/// cancel leaves the grid, the items and their regions bit-for-bit as they
/// were before the gesture began, and the session idle again.
pub proof fn lemma_failed_drag_restores_scene(
    s0: Scene,
    s1: Scene,
    s2: Scene,
    s3: Scene,
    pointer_down: Pos,
    pointer: Pos,
    h: usize,
    cancelled: bool,
)
    requires
        begin_rel(s0, s1, pointer_down, Ok(Some(h))),
        update_rel(s1, s2, pointer, Ok(())),
        if cancelled {
            cancel_rel(s2, s3, Ok(()))
        } else {
            end_rel(s2, s3, Ok(false))
        },
    ensures
        s3.grid == s0.grid,
        s3.items == s0.items,
        s3.notifications == s0.notifications,
        s3.drag is Idle,
        s0.drag is Idle,
{
}

/// A drag commit preserves the scene invariant: the candidate region was
/// free apart from the dragged item itself, so rehoming the item steals no
/// cell from any other item and leaves no dangling back-reference.
proof fn lemma_commit_preserves_wf(pre: Scene, post: Scene, s: DragSession)
    requires
        pre.wf(),
        pre.drag == DragState::Dragging(s),
        pre.grid.region_free_except(s.candidate, s.item),
        s.valid,
        post.drag is Idle,
        post.items@ == pre.items@.update(
            s.item as int,
            Some(PlacedItem { item: pre.items@[s.item as int]->0.item, coords: s.candidate }),
        ),
        post.notifications == pre.notifications,
        post.grid.coords == pre.grid.coords,
        post.grid.cells@.len() == pre.grid.cells@.len(),
        forall|x: int, y: int|
            pre.grid.in_bounds_pos(x, y) ==> (#[trigger] post.grid.cell(x, y)) == (
            if s.candidate.contains(x, y) {
                (GridCell { occupant: Some(s.item) })
            } else if s.origin.contains(x, y) {
                (GridCell { occupant: None::<usize> })
            } else {
                pre.grid.cell(x, y)
            }),
    ensures
        post.wf(),
{
    assert(pre.item_placed_ok(s.item as int));
    assert(pre.items.len() == pre.items@.len());
    assert(post.items.len() == post.items@.len());
    assert forall|h2: int|
        0 <= h2 < post.items@.len() && (#[trigger] post.items@[h2]) is Some implies post.item_placed_ok(
        h2,
    ) by {
        if h2 == s.item as int {
            assert(post.item_coords(h2) == s.candidate);
            assert forall|x: int, y: int|
                s.candidate.contains(x, y) implies (#[trigger] post.grid.cell(x, y)).occupant
                == Some(s.item) by {
                assert(pre.grid.in_bounds_pos(x, y));
            }
        } else {
            assert(pre.item_live(h2));
            assert(pre.item_placed_ok(h2));
            assert(post.item_coords(h2) == pre.item_coords(h2));
            assert forall|x: int, y: int|
                post.item_coords(h2).contains(x, y) implies (#[trigger] post.grid.cell(
                x,
                y,
            )).occupant == Some(h2 as usize) by {
                assert(pre.grid.cell(x, y).occupant == Some(h2 as usize));
                assert(h2 as usize != s.item);
                if s.candidate.contains(x, y) {
                    assert(pre.grid.cell(x, y).occupant is None || pre.grid.cell(x, y).occupant
                        == Some(s.item));
                    assert(false);
                }
                if s.origin.contains(x, y) {
                    assert(pre.grid.cell(x, y).occupant == Some(s.item));
                    assert(false);
                }
            }
        }
    }
    assert forall|x: int, y: int|
        post.grid.in_bounds_pos(x, y) && (#[trigger] post.grid.cell(x, y)).occupant
        is Some implies post.item_live(post.grid.cell(x, y).occupant->0 as int)
        && post.item_coords(post.grid.cell(x, y).occupant->0 as int).contains(x, y) by {
        assert(pre.grid.in_bounds_pos(x, y));
        if s.candidate.contains(x, y) {
            assert(post.grid.cell(x, y).occupant == Some(s.item));
            assert(post.item_coords(s.item as int) == s.candidate);
        } else if s.origin.contains(x, y) {
            assert(post.grid.cell(x, y).occupant is None);
        } else {
            assert(post.grid.cell(x, y) == pre.grid.cell(x, y));
            let h2 = pre.grid.cell(x, y).occupant->0 as int;
            assert(pre.item_live(h2) && pre.item_coords(h2).contains(x, y));
            if h2 == s.item as int {
                assert(pre.item_coords(h2) == s.origin);
                assert(false);
            }
            assert(post.item_coords(h2) == pre.item_coords(h2));
        }
    }
}

} // verus!

