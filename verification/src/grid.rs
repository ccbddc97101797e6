//! The spatial occupancy model: a rectangular grid of cells, each empty or
//! holding a back-reference (a stable handle) to the item instance occupying
//! it. Placement and removal work on whole rectangular regions.

use vstd::arithmetic::div_mod::{
    lemma_fundamental_div_mod, lemma_mod_division_less_than_divisor,
};
use vstd::pervasive::VecAdditionalExecFns;
use vstd::prelude::*;

use crate::positioning::{Coords, Pos};
use crate::GameError;

verus! {

/// Cap on the number of cells a single grid may hold, so that cell counts
/// and flat indices fit a `usize` on every machine.
pub const MAX_GRID_CELLS: usize = 1_048_576;

/// One grid cell: empty, or occupied by the item instance with this handle.
#[derive(Clone, Copy, Debug, PartialEq, Eq, Structural)]
pub struct GridCell {
    pub occupant: Option<usize>,
}

impl GridCell {
    pub fn empty() -> (r: GridCell)
        ensures
            r == (GridCell { occupant: None::<usize> }),
    {
        GridCell { occupant: None }
    }
}

/// A rectangular grid. `coords.pos` is where the grid sits in the world (for
/// presentation); the cells themselves are addressed grid-locally, row-major,
/// by positions in `[0, dimens.x) x [0, dimens.y)`.
pub struct Grid {
    pub coords: Coords,
    pub cells: Vec<GridCell>,
}

impl Grid {
    pub open spec fn width(self) -> int {
        self.coords.dimens.x as int
    }

    pub open spec fn height(self) -> int {
        self.coords.dimens.y as int
    }

    pub open spec fn wf(self) -> bool {
        &&& self.coords.wf()
        &&& self.cells@.len() == self.width() * self.height()
    }

    /// Row-major flat index of the cell at `(x, y)`.
    pub open spec fn flat(self, x: int, y: int) -> int {
        y * self.width() + x
    }

    pub open spec fn cell(self, x: int, y: int) -> GridCell {
        self.cells@[self.flat(x, y)]
    }

    pub open spec fn in_bounds_pos(self, x: int, y: int) -> bool {
        &&& 0 <= x < self.width()
        &&& 0 <= y < self.height()
    }

    /// Whether every cell of `region` lies inside the grid.
    pub open spec fn region_in_bounds(self, region: Coords) -> bool {
        &&& 0 <= region.pos.x
        &&& region.right() <= self.width()
        &&& 0 <= region.pos.y
        &&& region.top() <= self.height()
    }

    /// True iff every cell covered by `region` is within bounds and unoccupied.
    pub open spec fn region_free(self, region: Coords) -> bool {
        &&& self.region_in_bounds(region)
        &&& forall|x: int, y: int|
            region.contains(x, y) ==> (#[trigger] self.cell(x, y)).occupant is None
    }

    /// Like `region_free`, but cells occupied by `item` itself count as free.
    /// This is the probe a drag uses so an item never collides with its own
    /// current footprint.
    pub open spec fn region_free_except(self, region: Coords, item: usize) -> bool {
        &&& self.region_in_bounds(region)
        &&& forall|x: int, y: int|
            region.contains(x, y) ==> ((#[trigger] self.cell(x, y)).occupant is None
                || self.cell(x, y).occupant == Some(item))
    }

    pub open spec fn all_empty(self) -> bool {
        forall|x: int, y: int|
            self.in_bounds_pos(x, y) ==> (#[trigger] self.cell(x, y)).occupant is None
    }

    /// Builds an empty grid spanning `coords`. A malformed configuration
    /// (zero or negative footprint, or an absurd cell count) is excluded up
    /// front: it would invalidate every later invariant.
    pub fn new(coords: Coords) -> (r: Grid)
        requires
            coords.wf(),
            coords.dimens.x * coords.dimens.y <= MAX_GRID_CELLS,
        ensures
            r.wf(),
            r.coords == coords,
            r.all_empty(),
    {
        proof {
            assert(coords.dimens.x * coords.dimens.y <= MAX_GRID_CELLS as int) by (nonlinear_arith)
                requires
                    coords.dimens.x * coords.dimens.y <= MAX_GRID_CELLS,
            ;
        }
        let count: usize = (coords.dimens.x as usize) * (coords.dimens.y as usize);
        let mut cells: Vec<GridCell> = Vec::new();
        while cells.len() < count
            invariant
                cells@.len() <= count,
                forall|i: int|
                    0 <= i < cells@.len() ==> (#[trigger] cells@[i]).occupant is None,
            decreases count - cells@.len(),
        {
            cells.push(GridCell { occupant: None });
        }
        let r = Grid { coords, cells };
        proof {
            assert forall|x: int, y: int|
                r.in_bounds_pos(x, y) implies (#[trigger] r.cell(x, y)).occupant is None by {
                lemma_flat_bounds(r.width(), r.height(), x, y);
            }
        }
        r
    }

    /// Flat index of an in-bounds cell.
    fn flat_index(&self, x: i32, y: i32) -> (i: usize)
        requires
            self.wf(),
            self.in_bounds_pos(x as int, y as int),
        ensures
            i == self.flat(x as int, y as int),
            i < self.cells@.len(),
    {
        let n = self.cells.len();
        proof {
            lemma_flat_bounds(self.width(), self.height(), x as int, y as int);
            assert((y as int) * self.width() + (x as int) < n as int);
        }
        (y as usize) * (self.coords.dimens.x as usize) + (x as usize)
    }

    /// The cell at a grid-local position, or nothing if out of bounds.
    pub fn cell_at(&self, p: Pos) -> (r: Option<GridCell>)
        requires
            self.wf(),
        ensures
            match r {
                Some(c) => self.in_bounds_pos(p.x as int, p.y as int) && c == self.cell(
                    p.x as int,
                    p.y as int,
                ),
                None => !self.in_bounds_pos(p.x as int, p.y as int),
            },
    {
        if 0 <= p.x && p.x < self.coords.dimens.x && 0 <= p.y && p.y < self.coords.dimens.y {
            let i = self.flat_index(p.x, p.y);
            Some(self.cells[i])
        } else {
            None
        }
    }

    /// Whether `region` fits entirely inside the grid.
    pub fn fits(&self, region: Coords) -> (r: bool)
        requires
            self.wf(),
            region.wf(),
        ensures
            r == self.region_in_bounds(region),
    {
        0 <= region.pos.x && region.pos.x + region.dimens.x <= self.coords.dimens.x && 0
            <= region.pos.y && region.pos.y + region.dimens.y <= self.coords.dimens.y
    }

    /// True iff every cell covered by `region` is in bounds and unoccupied.
    pub fn is_region_free(&self, region: Coords) -> (r: bool)
        requires
            self.wf(),
            region.wf(),
        ensures
            r == self.region_free(region),
    {
        if !self.fits(region) {
            return false;
        }
        let mut y = region.pos.y;
        while y < region.pos.y + region.dimens.y
            invariant
                self.wf(),
                region.wf(),
                self.region_in_bounds(region),
                region.pos.y <= y <= region.top(),
                forall|xx: int, yy: int|
                    region.contains(xx, yy) && yy < y ==> (#[trigger] self.cell(
                        xx,
                        yy,
                    )).occupant is None,
            decreases region.top() - y,
        {
            let mut x = region.pos.x;
            while x < region.pos.x + region.dimens.x
                invariant
                    self.wf(),
                    region.wf(),
                    self.region_in_bounds(region),
                    region.pos.y <= y < region.top(),
                    region.pos.x <= x <= region.right(),
                    forall|xx: int, yy: int|
                        region.contains(xx, yy) && yy < y ==> (#[trigger] self.cell(
                            xx,
                            yy,
                        )).occupant is None,
                    forall|xx: int|
                        region.pos.x <= xx < x ==> (#[trigger] self.cell(
                            xx,
                            y as int,
                        )).occupant is None,
                decreases region.right() - x,
            {
                let i = self.flat_index(x, y);
                if self.cells[i].occupant.is_some() {
                    proof {
                        assert(region.contains(x as int, y as int));
                        assert(!(self.cell(x as int, y as int).occupant is None));
                    }
                    return false;
                }
                x += 1;
            }
            y += 1;
        }
        true
    }

    /// True iff every cell covered by `region` is in bounds and either
    /// unoccupied or occupied by `item` itself.
    pub fn is_region_free_except(&self, region: Coords, item: usize) -> (r: bool)
        requires
            self.wf(),
            region.wf(),
        ensures
            r == self.region_free_except(region, item),
    {
        if !self.fits(region) {
            return false;
        }
        let mut y = region.pos.y;
        while y < region.pos.y + region.dimens.y
            invariant
                self.wf(),
                region.wf(),
                self.region_in_bounds(region),
                region.pos.y <= y <= region.top(),
                forall|xx: int, yy: int|
                    region.contains(xx, yy) && yy < y ==> ((#[trigger] self.cell(
                        xx,
                        yy,
                    )).occupant is None || self.cell(xx, yy).occupant == Some(item)),
            decreases region.top() - y,
        {
            let mut x = region.pos.x;
            while x < region.pos.x + region.dimens.x
                invariant
                    self.wf(),
                    region.wf(),
                    self.region_in_bounds(region),
                    region.pos.y <= y < region.top(),
                    region.pos.x <= x <= region.right(),
                    forall|xx: int, yy: int|
                        region.contains(xx, yy) && yy < y ==> ((#[trigger] self.cell(
                            xx,
                            yy,
                        )).occupant is None || self.cell(xx, yy).occupant == Some(item)),
                    forall|xx: int|
                        region.pos.x <= xx < x ==> ((#[trigger] self.cell(
                            xx,
                            y as int,
                        )).occupant is None || self.cell(xx, y as int).occupant == Some(item)),
                decreases region.right() - x,
            {
                let i = self.flat_index(x, y);
                let c = self.cells[i];
                let blocked = match c.occupant {
                    None => false,
                    Some(h) => h != item,
                };
                if blocked {
                    proof {
                        assert(region.contains(x as int, y as int));
                        assert(self.cell(x as int, y as int) == c);
                        assert(!(c.occupant is None || c.occupant == Some(item)));
                    }
                    return false;
                }
                x += 1;
            }
            y += 1;
        }
        true
    }

    /// Like `region_free`, but cells occupied by any handle in `allowed`
    /// count as free. The combine resolver uses it to probe the output
    /// region as it will be once the submitted inputs are gone.
    pub open spec fn region_free_except_seq(self, region: Coords, allowed: Seq<usize>) -> bool {
        &&& self.region_in_bounds(region)
        &&& forall|x: int, y: int|
            region.contains(x, y) ==> ((#[trigger] self.cell(x, y)).occupant is None
                || allowed.contains(self.cell(x, y).occupant->0))
    }

    /// True iff every cell covered by `region` is in bounds and either
    /// unoccupied or occupied by one of the `allowed` handles.
    pub fn is_region_free_except_seq(&self, region: Coords, allowed: &Vec<usize>) -> (r: bool)
        requires
            self.wf(),
            region.wf(),
        ensures
            r == self.region_free_except_seq(region, allowed@),
    {
        if !self.fits(region) {
            return false;
        }
        let mut y = region.pos.y;
        while y < region.pos.y + region.dimens.y
            invariant
                self.wf(),
                region.wf(),
                self.region_in_bounds(region),
                region.pos.y <= y <= region.top(),
                forall|xx: int, yy: int|
                    region.contains(xx, yy) && yy < y ==> ((#[trigger] self.cell(
                        xx,
                        yy,
                    )).occupant is None || allowed@.contains(self.cell(xx, yy).occupant->0)),
            decreases region.top() - y,
        {
            let mut x = region.pos.x;
            while x < region.pos.x + region.dimens.x
                invariant
                    self.wf(),
                    region.wf(),
                    self.region_in_bounds(region),
                    region.pos.y <= y < region.top(),
                    region.pos.x <= x <= region.right(),
                    forall|xx: int, yy: int|
                        region.contains(xx, yy) && yy < y ==> ((#[trigger] self.cell(
                            xx,
                            yy,
                        )).occupant is None || allowed@.contains(self.cell(xx, yy).occupant->0)),
                    forall|xx: int|
                        region.pos.x <= xx < x ==> ((#[trigger] self.cell(
                            xx,
                            y as int,
                        )).occupant is None || allowed@.contains(
                            self.cell(xx, y as int).occupant->0,
                        )),
                decreases region.right() - x,
            {
                let i = self.flat_index(x, y);
                let c = self.cells[i];
                let blocked = match c.occupant {
                    None => false,
                    Some(h) => !handle_in(allowed, h),
                };
                if blocked {
                    proof {
                        assert(region.contains(x as int, y as int));
                        assert(self.cell(x as int, y as int) == c);
                    }
                    return false;
                }
                x += 1;
            }
            y += 1;
        }
        true
    }

    /// Marks every cell of `region` occupied by `item`. Declines (leaving the
    /// grid unchanged) unless the region is entirely in bounds and free.
    pub fn place(&mut self, region: Coords, item: usize) -> (r: Result<(), GameError>)
        requires
            old(self).wf(),
            region.wf(),
        ensures
            final(self).wf(),
            match r {
                Ok(()) => old(self).region_free(region) && place_rel(
                    *old(self),
                    *final(self),
                    region,
                    item,
                ),
                Err(e) => {
                    &&& *final(self) == *old(self)
                    &&& !old(self).region_free(region)
                    &&& e == (if !old(self).region_in_bounds(region) {
                        GameError::OutOfBounds
                    } else {
                        GameError::RegionOccupied
                    })
                },
            },
    {
        if !self.fits(region) {
            return Err(GameError::OutOfBounds);
        }
        if !self.is_region_free(region) {
            return Err(GameError::RegionOccupied);
        }
        self.fill_region(region, Some(item));
        Ok(())
    }

    /// Clears occupancy for every cell of `region`.
    pub fn remove(&mut self, region: Coords)
        requires
            old(self).wf(),
            region.wf(),
            old(self).region_in_bounds(region),
        ensures
            final(self).wf(),
            remove_rel(*old(self), *final(self), region),
    {
        self.fill_region(region, None);
    }

    /// Overwrites every cell of `region` with `value`.
    pub(crate) fn fill_region(&mut self, region: Coords, value: Option<usize>)
        requires
            old(self).wf(),
            region.wf(),
            old(self).region_in_bounds(region),
        ensures
            final(self).wf(),
            final(self).coords == old(self).coords,
            final(self).cells@.len() == old(self).cells@.len(),
            forall|x: int, y: int|
                old(self).in_bounds_pos(x, y) ==> (#[trigger] final(self).cell(x, y)) == (
                if region.contains(x, y) {
                    (GridCell { occupant: value })
                } else {
                    old(self).cell(x, y)
                }),
    {
        let mut y = region.pos.y;
        while y < region.pos.y + region.dimens.y
            invariant
                self.wf(),
                region.wf(),
                self.coords == old(self).coords,
                self.cells@.len() == old(self).cells@.len(),
                self.region_in_bounds(region),
                region.pos.y <= y <= region.top(),
                forall|xx: int, yy: int|
                    old(self).in_bounds_pos(xx, yy) ==> (#[trigger] self.cell(xx, yy)) == (
                    if region.contains(xx, yy) && yy < y {
                        (GridCell { occupant: value })
                    } else {
                        old(self).cell(xx, yy)
                    }),
            decreases region.top() - y,
        {
            let mut x = region.pos.x;
            while x < region.pos.x + region.dimens.x
                invariant
                    self.wf(),
                    region.wf(),
                    self.coords == old(self).coords,
                    self.cells@.len() == old(self).cells@.len(),
                    self.region_in_bounds(region),
                    region.pos.y <= y < region.top(),
                    region.pos.x <= x <= region.right(),
                    forall|xx: int, yy: int|
                        old(self).in_bounds_pos(xx, yy) ==> (#[trigger] self.cell(xx, yy)) == (
                        if region.contains(xx, yy) && (yy < y || (yy == y && xx < x)) {
                            (GridCell { occupant: value })
                        } else {
                            old(self).cell(xx, yy)
                        }),
                decreases region.right() - x,
            {
                let ghost prev = *self;
                let i = self.flat_index(x, y);
                self.cells.set(i, GridCell { occupant: value });
                proof {
                    assert(self.coords == prev.coords);
                    assert forall|xx: int, yy: int|
                        old(self).in_bounds_pos(xx, yy) implies (#[trigger] self.cell(xx, yy)) == (
                        if region.contains(xx, yy) && (yy < y as int || (yy == y as int && xx < x
                            + 1)) {
                            (GridCell { occupant: value })
                        } else {
                            old(self).cell(xx, yy)
                        }) by {
                        let w = self.width();
                        assert(prev.cell(xx, yy) == (if region.contains(xx, yy) && (yy < y as int
                            || (yy == y as int && xx < x as int)) {
                            (GridCell { occupant: value })
                        } else {
                            old(self).cell(xx, yy)
                        }));
                        if xx == x as int && yy == y as int {
                            assert(self.cell(xx, yy) == (GridCell { occupant: value }));
                        } else {
                            assert(yy * w + xx != (y as int) * w + (x as int)) by (nonlinear_arith)
                                requires
                                    0 <= xx < w,
                                    0 <= yy,
                                    0 <= x as int,
                                    (x as int) < w,
                                    0 <= y as int,
                                    !(xx == x as int && yy == y as int),
                            ;
                            lemma_flat_bounds(w, self.height(), xx, yy);
                            assert(self.cell(xx, yy) == prev.cell(xx, yy));
                        }
                    }
                }
                x += 1;
            }
            y += 1;
        }
    }
}

/// Static configuration read once at scene-enter: where the two grids sit
/// and how many cells each spans.
#[derive(Clone, Copy, Debug, PartialEq, Eq, Structural)]
pub struct GridConfig {
    pub equipment: Coords,
    pub crafting: Coords,
}

/// Builds the two inventory grids — equipment and crafting — from the
/// scene configuration, each empty and spanning its configured region.
pub fn spawn_grids(config: &GridConfig) -> (r: (Grid, Grid))
    requires
        config.equipment.wf(),
        config.equipment.dimens.x * config.equipment.dimens.y <= MAX_GRID_CELLS,
        config.crafting.wf(),
        config.crafting.dimens.x * config.crafting.dimens.y <= MAX_GRID_CELLS,
    ensures
        r.0.wf(),
        r.0.coords == config.equipment,
        r.0.all_empty(),
        r.1.wf(),
        r.1.coords == config.crafting,
        r.1.all_empty(),
{
    (Grid::new(config.equipment), Grid::new(config.crafting))
}

/// Placement and removal are inverse operations: placing an item on a free
/// region and then removing that region restores every cell, and while
/// placed, every cell of the region reports the item.
pub proof fn lemma_place_remove_round_trip(g0: Grid, g1: Grid, g2: Grid, region: Coords, item: usize)
    requires
        g0.wf(),
        g0.region_free(region),
        place_rel(g0, g1, region, item),
        remove_rel(g1, g2, region),
    ensures
        forall|x: int, y: int|
            region.contains(x, y) ==> (#[trigger] g1.cell(x, y)).occupant == Some(item),
        g2.coords == g0.coords,
        g2.cells@ == g0.cells@,
{
    assert forall|x: int, y: int|
        region.contains(x, y) implies (#[trigger] g1.cell(x, y)).occupant == Some(item) by {
        assert(g0.in_bounds_pos(x, y));
    }
    assert forall|x: int, y: int| g0.in_bounds_pos(x, y) implies #[trigger] g2.cell(x, y)
        == g0.cell(x, y) by {
        assert(g1.cell(x, y) == (if region.contains(x, y) {
            (GridCell { occupant: Some(item) })
        } else {
            g0.cell(x, y)
        }));
        if region.contains(x, y) {
            assert(g0.cell(x, y).occupant is None);
        }
    }
    lemma_cells_eq(g0, g2);
}

/// Whether `h` occurs in `list`.
pub(crate) fn handle_in(list: &Vec<usize>, h: usize) -> (r: bool)
    ensures
        r == list@.contains(h),
{
    let mut i: usize = 0;
    while i < list.len()
        invariant
            i <= list@.len(),
            forall|k: int| 0 <= k < i ==> #[trigger] list@[k] != h,
        decreases list@.len() - i,
    {
        if list[i] == h {
            return true;
        }
        i += 1;
    }
    false
}

/// How a grid after `place` relates to the grid before: same shape, the
/// region's cells now occupied by `item`, every other cell untouched.
pub open spec fn place_rel(g0: Grid, g1: Grid, region: Coords, item: usize) -> bool {
    &&& g1.coords == g0.coords
    &&& g1.cells@.len() == g0.cells@.len()
    &&& forall|x: int, y: int|
        g0.in_bounds_pos(x, y) ==> (#[trigger] g1.cell(x, y)) == (if region.contains(x, y) {
            (GridCell { occupant: Some(item) })
        } else {
            g0.cell(x, y)
        })
}

/// How a grid after `remove` relates to the grid before: same shape, the
/// region's cells now empty, every other cell untouched.
pub open spec fn remove_rel(g0: Grid, g1: Grid, region: Coords) -> bool {
    &&& g1.coords == g0.coords
    &&& g1.cells@.len() == g0.cells@.len()
    &&& forall|x: int, y: int|
        g0.in_bounds_pos(x, y) ==> (#[trigger] g1.cell(x, y)) == (if region.contains(x, y) {
            (GridCell { occupant: None::<usize> })
        } else {
            g0.cell(x, y)
        })
}

/// A row-major flat index stays inside the cell array.
pub proof fn lemma_flat_bounds(w: int, h: int, x: int, y: int)
    requires
        0 <= x < w,
        0 <= y < h,
    ensures
        0 <= y * w + x < w * h,
        y * w <= y * w + x,
{
    assert(0 <= y * w + x < w * h) by (nonlinear_arith)
        requires
            0 <= x < w,
            0 <= y < h,
    ;
}

/// Two well-formed grids of the same shape whose cells agree at every
/// in-bounds position have equal cell arrays.
pub proof fn lemma_cells_eq(a: Grid, b: Grid)
    requires
        a.wf(),
        a.coords == b.coords,
        a.cells@.len() == b.cells@.len(),
        forall|x: int, y: int| a.in_bounds_pos(x, y) ==> #[trigger] a.cell(x, y) == b.cell(x, y),
    ensures
        a.cells@ =~= b.cells@,
{
    let w = a.width();
    let h = a.height();
    assert forall|i: int| 0 <= i < a.cells@.len() implies a.cells@[i] == b.cells@[i] by {
        lemma_fundamental_div_mod(i, w);
        lemma_mod_division_less_than_divisor(i, w);
        let x = i % w;
        let y = i / w;
        assert(i == w * y + x);
        assert(0 <= y < h) by (nonlinear_arith)
            requires
                0 < w,
                0 <= i < w * h,
                i == w * y + x,
                0 <= x < w,
        ;
        assert(y * w == w * y) by (nonlinear_arith);
        assert(a.flat(x, y) == i);
        assert(a.cell(x, y) == b.cell(x, y));
    }
}

} // verus!
