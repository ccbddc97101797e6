//! The gameplay scene: the occupancy grid, the arena of placed item
//! instances addressed by stable handles, the drag gesture state, and the
//! outbound notification queue the presentation layer drains each frame.

use vstd::prelude::*;

use crate::dragging::DragState;
use crate::grid::{place_rel, Grid, GridCell, MAX_GRID_CELLS};
use crate::items::{Item, PlacedItem};
use crate::positioning::Coords;
use crate::GameError;

verus! {

/// Outcome of a finished game; placeholder for broader progression.
#[derive(Clone, Copy, Debug, PartialEq, Eq, Hash, Structural)]
pub enum GameResult {
    Lost,
    Won,
}

/// Identity of a music track.
#[derive(Clone, Copy, Debug, PartialEq, Eq, Structural)]
pub enum MusicId {
    Placeholder,
}

/// Identity of a sound effect.
#[derive(Clone, Copy, Debug, PartialEq, Eq, Structural)]
pub enum SoundId {
    Placeholder,
}

/// A typed notification appended to the scene's outbound queue. The core
/// never calls the presentation or audio collaborators directly; they
/// consume this queue once per frame.
#[derive(Clone, Copy, Debug, PartialEq, Eq, Structural)]
pub enum Notification {
    /// A new item instance was created under this handle.
    ItemSpawned { handle: usize },
    /// Start a music track.
    Music { id: MusicId, looped: bool },
    /// Stop all music.
    StopAllMusic,
    /// Play a one-shot sound effect.
    Effect { id: SoundId },
}

/// The whole gameplay state for one session.
pub struct Scene {
    pub grid: Grid,
    /// Arena of item instances; a handle is an index. Despawned slots hold
    /// `None` so handles stay stable.
    pub items: Vec<Option<PlacedItem>>,
    pub drag: DragState,
    pub notifications: Vec<Notification>,
}

impl Scene {
    /// Whether `h` is the handle of a live (spawned, not removed) item.
    pub open spec fn item_live(self, h: int) -> bool {
        &&& 0 <= h < self.items@.len()
        &&& self.items@[h] is Some
    }

    /// The region a live item occupies.
    pub open spec fn item_coords(self, h: int) -> Coords {
        self.items@[h]->0.coords
    }

    /// A live item's placement is consistent: its region is well formed, in
    /// bounds, and every covered cell points back at the item.
    pub open spec fn item_placed_ok(self, h: int) -> bool {
        &&& self.item_coords(h).wf()
        &&& self.grid.region_in_bounds(self.item_coords(h))
        &&& forall|x: int, y: int|
            self.item_coords(h).contains(x, y) ==> (#[trigger] self.grid.cell(x, y)).occupant
                == Some(h as usize)
    }

    pub open spec fn items_ok(self) -> bool {
        forall|h: int|
            0 <= h < self.items@.len() && (#[trigger] self.items@[h]) is Some
                ==> self.item_placed_ok(h)
    }

    /// Every occupied cell belongs to a live item whose region covers it:
    /// no dangling back-references, no partial occupancy, no aliasing.
    pub open spec fn cells_ok(self) -> bool {
        forall|x: int, y: int|
            self.grid.in_bounds_pos(x, y) && (#[trigger] self.grid.cell(x, y)).occupant is Some
                ==> self.item_live(self.grid.cell(x, y).occupant->0 as int) && self.item_coords(
                self.grid.cell(x, y).occupant->0 as int,
            ).contains(x, y)
    }

    /// An active drag refers to a live item, remembers that item's real
    /// region as its origin, and carries a candidate of the same footprint
    /// with the grab point inside it.
    pub open spec fn drag_ok(self) -> bool {
        match self.drag {
            DragState::Idle => true,
            DragState::Dragging(s) => {
                &&& self.item_live(s.item as int)
                &&& s.origin == self.item_coords(s.item as int)
                &&& s.candidate.dimens == s.origin.dimens
                &&& s.candidate.wf()
                &&& 0 <= s.grab.x < s.origin.dimens.x
                &&& 0 <= s.grab.y < s.origin.dimens.y
            },
        }
    }

    /// The scene invariant: every operation establishes and preserves it.
    pub open spec fn wf(self) -> bool {
        &&& self.grid.wf()
        &&& self.items_ok()
        &&& self.cells_ok()
        &&& self.drag_ok()
    }

    /// Builds the scene for one gameplay session: an empty grid spanning
    /// `grid_coords`, no items, no drag, and the start-music cue already
    /// queued.
    pub fn new(grid_coords: Coords) -> (r: Scene)
        requires
            grid_coords.wf(),
            grid_coords.dimens.x * grid_coords.dimens.y <= MAX_GRID_CELLS,
        ensures
            r.wf(),
            r.grid.coords == grid_coords,
            r.grid.all_empty(),
            r.items@.len() == 0,
            r.drag is Idle,
            r.notifications@ =~= seq![
                (Notification::Music { id: MusicId::Placeholder, looped: false }),
            ],
    {
        let grid = Grid::new(grid_coords);
        let mut notifications: Vec<Notification> = Vec::new();
        notifications.push(Notification::Music { id: MusicId::Placeholder, looped: false });
        Scene { grid, items: Vec::new(), drag: DragState::Idle, notifications }
    }

    /// Creates a new item instance occupying `coords`: validates free space,
    /// registers the instance with the grid, and queues a spawned
    /// notification. Declines, leaving the scene unchanged, if the region is
    /// out of bounds or occupied.
    pub fn spawn_item(&mut self, item: Item, coords: Coords) -> (r: Result<usize, GameError>)
        requires
            old(self).wf(),
            coords.wf(),
        ensures
            final(self).wf(),
            match r {
                Ok(h) => {
                    &&& old(self).grid.region_free(coords)
                    &&& h as int == old(self).items@.len()
                    &&& final(self).items@ == old(self).items@.push(
                        Some(PlacedItem { item, coords }),
                    )
                    &&& place_rel(old(self).grid, final(self).grid, coords, h)
                    &&& final(self).drag == old(self).drag
                    &&& final(self).notifications@ == old(self).notifications@.push(
                        (Notification::ItemSpawned { handle: h }),
                    )
                },
                Err(e) => {
                    &&& *final(self) == *old(self)
                    &&& !old(self).grid.region_free(coords)
                    &&& e == (if !old(self).grid.region_in_bounds(coords) {
                        GameError::OutOfBounds
                    } else {
                        GameError::RegionOccupied
                    })
                },
            },
    {
        if !self.grid.fits(coords) {
            return Err(GameError::OutOfBounds);
        }
        if !self.grid.is_region_free(coords) {
            return Err(GameError::RegionOccupied);
        }
        let ghost pre = *self;
        let h = self.items.len();
        self.grid.fill_region(coords, Some(h));
        self.items.push(Some(PlacedItem { item, coords }));
        self.notifications.push(Notification::ItemSpawned { handle: h });
        proof {
            lemma_spawn_preserves_wf(pre, *self, item, coords, h);
        }
        Ok(h)
    }

    /// Tears down the whole gameplay scene: every item instance is removed,
    /// every cell cleared, any active drag discarded, and the stop-audio cue
    /// queued. Running it on an already-empty scene changes no entity state.
    pub fn despawn_gameplay_entities(&mut self)
        requires
            old(self).wf(),
        ensures
            final(self).wf(),
            despawn_rel(*old(self), *final(self)),
    {
        let n = self.grid.cells.len();
        let mut i: usize = 0;
        while i < n
            invariant
                self.grid.cells@.len() == n,
                forall|j: int| 0 <= j < i ==> self.grid.cells@[j] == (GridCell { occupant: None }),
                self.grid.coords == old(self).grid.coords,
                self.items == old(self).items,
                self.drag == old(self).drag,
                self.notifications == old(self).notifications,
            decreases n - i,
        {
            self.grid.cells.set(i, GridCell { occupant: None });
            i += 1;
        }
        self.items = Vec::new();
        self.drag = DragState::Idle;
        self.notifications.push(Notification::StopAllMusic);
        proof {
            assert(self.grid.cells@ =~= Seq::new(
                old(self).grid.cells@.len(),
                |j: int| (GridCell { occupant: None }),
            ));
            assert forall|x: int, y: int|
                self.grid.in_bounds_pos(x, y) implies (#[trigger] self.grid.cell(x, y)).occupant
                is None by {
                crate::grid::lemma_flat_bounds(self.grid.width(), self.grid.height(), x, y);
            }
        }
    }
}

/// How a scene after teardown relates to the scene before: same grid shape
/// with every cell empty, no items, no drag, and the stop-audio cue appended.
pub open spec fn despawn_rel(s0: Scene, s1: Scene) -> bool {
    &&& s1.grid.coords == s0.grid.coords
    &&& s1.grid.cells@ == Seq::new(s0.grid.cells@.len(), |j: int| (GridCell { occupant: None }))
    &&& s1.items@ == Seq::<Option<PlacedItem>>::empty()
    &&& s1.drag is Idle
    &&& s1.notifications@ == s0.notifications@.push(Notification::StopAllMusic)
}

/// Teardown is idempotent on entity state: running it again on a scene it
/// just produced leaves the grid, items and drag exactly as they were.
pub proof fn lemma_despawn_idempotent(s0: Scene, s1: Scene, s2: Scene)
    requires
        despawn_rel(s0, s1),
        despawn_rel(s1, s2),
    ensures
        s2.grid.coords == s1.grid.coords,
        s2.grid.cells@ == s1.grid.cells@,
        s2.items@ == s1.items@,
        s2.drag == s1.drag,
{
    assert(s2.grid.cells@ =~= s1.grid.cells@);
    assert(s2.items@ =~= s1.items@);
    assert(s2.drag == s1.drag);
}

/// The spawn mutation preserves the scene invariant: the new item's cells
/// were free, so no existing item loses a cell, and every new back-reference
/// points at the pushed instance.
pub(crate) proof fn lemma_spawn_preserves_wf(
    pre: Scene,
    post: Scene,
    item: Item,
    coords: Coords,
    h: usize,
)
    requires
        pre.wf(),
        coords.wf(),
        pre.grid.region_free(coords),
        h as int == pre.items@.len(),
        post.items@ == pre.items@.push(Some(PlacedItem { item, coords })),
        place_rel(pre.grid, post.grid, coords, h),
        post.drag == pre.drag,
    ensures
        post.wf(),
{
    assert(post.grid.wf());
    assert(pre.items.len() == pre.items@.len());
    assert forall|h2: int|
        0 <= h2 < post.items@.len() && (#[trigger] post.items@[h2]) is Some implies post.item_placed_ok(
        h2,
    ) by {
        if h2 < pre.items@.len() {
            assert(pre.item_live(h2));
            assert(pre.item_placed_ok(h2));
            assert(post.item_coords(h2) == pre.item_coords(h2));
            assert forall|x: int, y: int|
                post.item_coords(h2).contains(x, y) implies (#[trigger] post.grid.cell(
                x,
                y,
            )).occupant == Some(h2 as usize) by {
                assert(pre.grid.cell(x, y).occupant == Some(h2 as usize));
                assert(!coords.contains(x, y));
            }
        } else {
            assert(h2 == h as int);
            assert(post.item_coords(h2) == coords);
            assert forall|x: int, y: int|
                post.item_coords(h2).contains(x, y) implies (#[trigger] post.grid.cell(
                x,
                y,
            )).occupant == Some(h2 as usize) by {
                assert(post.grid.cell(x, y) == (GridCell { occupant: Some(h) }));
            }
        }
    }
    assert forall|x: int, y: int|
        post.grid.in_bounds_pos(x, y) && (#[trigger] post.grid.cell(x, y)).occupant
        is Some implies post.item_live(post.grid.cell(x, y).occupant->0 as int)
        && post.item_coords(post.grid.cell(x, y).occupant->0 as int).contains(x, y) by {
        if coords.contains(x, y) {
            assert(post.grid.cell(x, y) == (GridCell { occupant: Some(h) }));
            assert(post.item_coords(h as int) == coords);
        } else {
            assert(post.grid.cell(x, y) == pre.grid.cell(x, y));
            let h2 = pre.grid.cell(x, y).occupant->0 as int;
            assert(pre.item_live(h2) && pre.item_coords(h2).contains(x, y));
            assert(post.item_coords(h2) == pre.item_coords(h2));
        }
    }
    match post.drag {
        DragState::Idle => {},
        DragState::Dragging(s) => {
            assert(pre.item_live(s.item as int));
            assert(post.item_coords(s.item as int) == pre.item_coords(s.item as int));
        },
    }
}

} // verus!
