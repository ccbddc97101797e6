//! The combination resolver: matches a submitted set of placed items against
//! a recipe table by exact id-multiset equality and, on a match, atomically
//! replaces the inputs with one instance of the recipe's result. Also the
//! combine button's hover/press feedback.

use vstd::prelude::*;

use crate::dragging::DragState;
use crate::grid::GridCell;
use crate::items::{blueprint, is_blueprint, ItemId, PlacedItem};
use crate::positioning::{Coords, COORD_LIMIT};
use crate::scene::{Notification, Scene, SoundId};
use crate::GameError;

verus! {

/// A static crafting rule: the required input ids (duplicates matter) and
/// the id of the item one successful combine produces.
#[derive(Clone, Debug, PartialEq, Eq)]
pub struct Recipe {
    pub inputs: Vec<ItemId>,
    pub result: ItemId,
}

/// Number of occurrences of `id` in `s`.
pub open spec fn count_id(s: Seq<ItemId>, id: ItemId) -> nat
    decreases s.len(),
{
    if s.len() == 0 {
        0
    } else {
        count_id(s.drop_last(), id) + (if s.last() == id {
            1nat
        } else {
            0nat
        })
    }
}

/// Two sequences hold the same ids with the same multiplicities: set
/// semantics where duplicates matter and order does not.
pub open spec fn same_id_multiset(a: Seq<ItemId>, b: Seq<ItemId>) -> bool {
    forall|id: ItemId| #[trigger] count_id(a, id) == count_id(b, id)
}

/// Whether the submitted ids satisfy a recipe exactly.
pub open spec fn recipe_matches(submitted: Seq<ItemId>, recipe: Recipe) -> bool {
    same_id_multiset(submitted, recipe.inputs@)
}

/// An id counted at least once occurs at some index.
proof fn lemma_count_pos(s: Seq<ItemId>, id: ItemId)
    requires
        count_id(s, id) > 0,
    ensures
        exists|i: int| 0 <= i < s.len() && s[i] == id,
    decreases s.len(),
{
    if s.last() == id {
        assert(s[s.len() - 1] == id);
    } else {
        lemma_count_pos(s.drop_last(), id);
        let i = choose|i: int| 0 <= i < s.drop_last().len() && s.drop_last()[i] == id;
        assert(s[i] == id);
    }
}

/// Counts how often `id` occurs in `v`.
fn count_occurrences(v: &Vec<ItemId>, id: ItemId) -> (n: usize)
    ensures
        n as nat == count_id(v@, id),
{
    let mut n: usize = 0;
    let mut i: usize = 0;
    while i < v.len()
        invariant
            i <= v@.len(),
            n <= i,
            n as nat == count_id(v@.take(i as int), id),
        decreases v@.len() - i,
    {
        proof {
            assert(v@.take(i + 1).drop_last() =~= v@.take(i as int));
            assert(v@.take(i + 1).last() == v@[i as int]);
        }
        if v[i] == id {
            n += 1;
        }
        i += 1;
    }
    proof {
        assert(v@.take(v@.len() as int) =~= v@);
    }
    n
}

/// Whether two id lists hold the same multiset of ids.
fn same_ids(a: &Vec<ItemId>, b: &Vec<ItemId>) -> (r: bool)
    ensures
        r == same_id_multiset(a@, b@),
{
    let mut i: usize = 0;
    while i < a.len()
        invariant
            i <= a@.len(),
            forall|k: int|
                0 <= k < i ==> count_id(a@, #[trigger] a@[k]) == count_id(b@, a@[k]),
        decreases a@.len() - i,
    {
        if count_occurrences(a, a[i]) != count_occurrences(b, a[i]) {
            return false;
        }
        i += 1;
    }
    let mut j: usize = 0;
    while j < b.len()
        invariant
            j <= b@.len(),
            forall|k: int|
                0 <= k < a@.len() ==> count_id(a@, #[trigger] a@[k]) == count_id(b@, a@[k]),
            forall|k: int|
                0 <= k < j ==> count_id(a@, #[trigger] b@[k]) == count_id(b@, b@[k]),
        decreases b@.len() - j,
    {
        if count_occurrences(a, b[j]) != count_occurrences(b, b[j]) {
            return false;
        }
        j += 1;
    }
    proof {
        assert forall|id: ItemId| #[trigger] count_id(a@, id) == count_id(b@, id) by {
            if count_id(a@, id) > 0 {
                lemma_count_pos(a@, id);
                let i = choose|i: int| 0 <= i < a@.len() && a@[i] == id;
                assert(count_id(a@, a@[i]) == count_id(b@, a@[i]));
            } else if count_id(b@, id) > 0 {
                lemma_count_pos(b@, id);
                let j = choose|j: int| 0 <= j < b@.len() && b@[j] == id;
                assert(count_id(a@, b@[j]) == count_id(b@, b@[j]));
            }
        }
    }
    true
}

/// Whether some submitted item's region covers the cell at `(x, y)`.
pub open spec fn inputs_cover(s: Scene, handles: Seq<usize>, x: int, y: int) -> bool {
    exists|i: int|
        0 <= i < handles.len() && (#[trigger] s.item_coords(handles[i] as int)).contains(x, y)
}

/// The item arena after the submitted handles are cleared.
pub open spec fn arena_without(
    items: Seq<Option<PlacedItem>>,
    handles: Seq<usize>,
) -> Seq<Option<PlacedItem>> {
    Seq::new(
        items.len(),
        |j: int|
            if handles.contains(j as usize) {
                None
            } else {
                items[j]
            },
    )
}

impl Scene {
    /// The ids of the submitted items, in submission order.
    pub open spec fn submitted_ids(self, handles: Seq<usize>) -> Seq<ItemId> {
        Seq::new(handles.len(), |i: int| self.items@[handles[i] as int]->0.item.id)
    }

    /// Collects the ids of the submitted items.
    fn ids_of(&self, handles: &Vec<usize>) -> (ids: Vec<ItemId>)
        requires
            self.wf(),
            forall|i: int|
                0 <= i < handles@.len() ==> self.item_live((#[trigger] handles@[i]) as int),
        ensures
            ids@ == self.submitted_ids(handles@),
    {
        let mut ids: Vec<ItemId> = Vec::new();
        let mut i: usize = 0;
        while i < handles.len()
            invariant
                self.wf(),
                i <= handles@.len(),
                forall|k: int|
                    0 <= k < handles@.len() ==> self.item_live((#[trigger] handles@[k]) as int),
                ids@ =~= self.submitted_ids(handles@).take(i as int),
            decreases handles@.len() - i,
        {
            let h = handles[i];
            let id = match &self.items[h] {
                Some(p) => p.item.id,
                None => ItemId::Vial,  // unreachable: every submitted handle is live
            };
            ids.push(id);
            proof {
                assert(ids@ =~= self.submitted_ids(handles@).take(i + 1));
            }
            i += 1;
        }
        proof {
            assert(self.submitted_ids(handles@).take(handles@.len() as int) =~= self.submitted_ids(
                handles@,
            ));
        }
        ids
    }
}

impl Scene {
    /// Submits a set of placed items (handles, pairwise distinct) against a
    /// recipe table. On the first matching recipe — exact id-multiset
    /// equality — all inputs are removed and exactly one instance of the
    /// recipe's result is spawned at `output`, atomically; the new handle is
    /// returned. With no match, or with the output region blocked by an
    /// item that is not itself an input, nothing changes and the attempt is
    /// declined. An active drag whose item is consumed is cancelled.
    pub fn combine_items(
        &mut self,
        handles: &Vec<usize>,
        recipes: &Vec<Recipe>,
        output: Coords,
    ) -> (r: Result<usize, GameError>)
        requires
            old(self).wf(),
            output.wf(),
            forall|i: int|
                0 <= i < handles@.len() ==> old(self).item_live((#[trigger] handles@[i]) as int),
            forall|i: int, j: int|
                0 <= i < j < handles@.len() ==> handles@[i] != handles@[j],
        ensures
            final(self).wf(),
            match r {
                Ok(h) => {
                    &&& exists|k: int|
                        {
                            &&& 0 <= k < recipes@.len()
                            &&& recipe_matches(
                                old(self).submitted_ids(handles@),
                                #[trigger] recipes@[k],
                            )
                            &&& (forall|k2: int|
                                0 <= k2 < k ==> !recipe_matches(
                                    old(self).submitted_ids(handles@),
                                    #[trigger] recipes@[k2],
                                ))
                            &&& (final(self).items@[h as int] matches Some(p) && is_blueprint(
                                p.item,
                                recipes@[k].result,
                            ) && p.coords == output)
                        }
                    &&& old(self).grid.region_free_except_seq(output, handles@)
                    &&& h as int == old(self).items@.len()
                    &&& final(self).items@ == arena_without(old(self).items@, handles@).push(
                        final(self).items@[h as int],
                    )
                    &&& final(self).grid.coords == old(self).grid.coords
                    &&& final(self).grid.cells@.len() == old(self).grid.cells@.len()
                    &&& forall|x: int, y: int|
                        old(self).grid.in_bounds_pos(x, y) ==> (#[trigger] final(self).grid.cell(
                            x,
                            y,
                        )) == (if output.contains(x, y) {
                            (GridCell { occupant: Some(h) })
                        } else if inputs_cover(*old(self), handles@, x, y) {
                            (GridCell { occupant: None::<usize> })
                        } else {
                            old(self).grid.cell(x, y)
                        })
                    &&& (match old(self).drag {
                        DragState::Idle => final(self).drag == old(self).drag,
                        DragState::Dragging(s) => (if handles@.contains(s.item) {
                            final(self).drag is Idle
                        } else {
                            final(self).drag == old(self).drag
                        }),
                    })
                    &&& final(self).notifications@ == old(self).notifications@.push(
                        (Notification::ItemSpawned { handle: h }),
                    )
                },
                Err(e) => {
                    &&& *final(self) == *old(self)
                    &&& (e == GameError::NoMatchingRecipe <==> (forall|k2: int|
                        0 <= k2 < recipes@.len() ==> !recipe_matches(
                            old(self).submitted_ids(handles@),
                            #[trigger] recipes@[k2],
                        )))
                    &&& (e == GameError::OutOfBounds ==> !old(self).grid.region_in_bounds(output))
                    &&& (e == GameError::RegionOccupied ==> old(self).grid.region_in_bounds(output)
                        && !old(self).grid.region_free_except_seq(output, handles@))
                    &&& (e is NoMatchingRecipe || e is OutOfBounds || e is RegionOccupied)
                },
            },
    {
        let ids = self.ids_of(handles);
        let mut k: usize = 0;
        let mut found = false;
        while !found && k < recipes.len()
            invariant
                k <= recipes@.len(),
                forall|k2: int|
                    0 <= k2 < k ==> !recipe_matches(ids@, #[trigger] recipes@[k2]),
                found ==> k < recipes@.len() && recipe_matches(ids@, recipes@[k as int]),
            decreases recipes@.len() - k + (if found {
                0int
            } else {
                1int
            }),
        {
            if same_ids(&ids, &recipes[k].inputs) {
                found = true;
            } else {
                k += 1;
            }
        }
        if !found {
            return Err(GameError::NoMatchingRecipe);
        }
        if !self.grid.fits(output) {
            return Err(GameError::OutOfBounds);
        }
        if !self.grid.is_region_free_except_seq(output, handles) {
            return Err(GameError::RegionOccupied);
        }
        let ghost pre = *self;
        match self.drag {
            DragState::Dragging(s) => {
                if crate::grid::handle_in(handles, s.item) {
                    self.drag = DragState::Idle;
                }
            },
            DragState::Idle => {},
        }
        let ghost mid0 = *self;
        let mut idx: usize = 0;
        while idx < handles.len()
            invariant
                self.wf(),
                idx <= handles@.len(),
                output.wf(),
                pre.wf(),
                pre.grid.region_free_except_seq(output, handles@),
                forall|i: int|
                    0 <= i < handles@.len() ==> pre.item_live((#[trigger] handles@[i]) as int),
                forall|i: int, j: int|
                    0 <= i < j < handles@.len() ==> handles@[i] != handles@[j],
                self.grid.coords == pre.grid.coords,
                self.grid.cells@.len() == pre.grid.cells@.len(),
                self.items@.len() == pre.items@.len(),
                forall|j: int|
                    0 <= j < pre.items@.len() ==> #[trigger] self.items@[j] == (
                    if handles@.take(idx as int).contains(j as usize) {
                        None::<PlacedItem>
                    } else {
                        pre.items@[j]
                    }),
                forall|x: int, y: int|
                    pre.grid.in_bounds_pos(x, y) ==> (#[trigger] self.grid.cell(x, y)) == (
                    if inputs_cover(pre, handles@.take(idx as int), x, y) {
                        (GridCell { occupant: None::<usize> })
                    } else {
                        pre.grid.cell(x, y)
                    }),
                self.drag == mid0.drag,
                (match self.drag {
                    DragState::Idle => true,
                    DragState::Dragging(s) => !handles@.contains(s.item),
                }),
                self.notifications == pre.notifications,
            decreases handles@.len() - idx,
        {
            let h = handles[idx];
            proof {
                assert(pre.items.len() == pre.items@.len());
                if handles@.take(idx as int).contains(h) {
                    let w = choose|w: int|
                        0 <= w < idx && #[trigger] handles@.take(idx as int)[w] == h;
                    assert(handles@[w] == handles@[idx as int]);
                    assert(false);
                }
                assert(self.items@[h as int] == pre.items@[h as int]);
                assert(pre.item_live(h as int));
                assert(self.item_live(h as int));
                assert(self.item_placed_ok(h as int));
            }
            let coords_h = match &self.items[h] {
                Some(p) => p.coords,
                None => output,  // unreachable: every submitted handle is still live here
            };
            let ghost step_pre = *self;
            self.grid.fill_region(coords_h, None);
            self.items.set(h, None);
            proof {
                assert(coords_h == pre.item_coords(h as int));
                lemma_remove_one_preserves_wf(step_pre, *self, h);
                assert(handles@.take(idx + 1) =~= handles@.take(idx as int).push(h));
                assert forall|j: int| 0 <= j < pre.items@.len() implies #[trigger] self.items@[j]
                    == (if handles@.take(idx + 1).contains(j as usize) {
                    None::<PlacedItem>
                } else {
                    pre.items@[j]
                }) by {
                    if j == h as int {
                        assert(handles@.take(idx + 1)[idx as int] == h);
                        assert(handles@.take(idx + 1).contains(j as usize));
                    } else {
                        assert(self.items@[j] == step_pre.items@[j]);
                        if handles@.take(idx + 1).contains(j as usize) {
                            let w = choose|w: int|
                                0 <= w < idx + 1 && #[trigger] handles@.take(idx + 1)[w] == j as usize;
                            assert(w < idx);
                            assert(handles@.take(idx as int)[w] == j as usize);
                            assert(handles@.take(idx as int).contains(j as usize));
                        } else {
                            if handles@.take(idx as int).contains(j as usize) {
                                let w = choose|w: int|
                                    0 <= w < idx && #[trigger] handles@.take(idx as int)[w] == j as usize;
                                assert(handles@.take(idx + 1)[w] == j as usize);
                                assert(handles@.take(idx + 1).contains(j as usize));
                            }
                        }
                    }
                }
                assert forall|x: int, y: int|
                    pre.grid.in_bounds_pos(x, y) implies (#[trigger] self.grid.cell(x, y)) == (
                    if inputs_cover(pre, handles@.take(idx + 1), x, y) {
                        (GridCell { occupant: None::<usize> })
                    } else {
                        pre.grid.cell(x, y)
                    }) by {
                    if coords_h.contains(x, y) {
                        assert(self.grid.cell(x, y) == (GridCell { occupant: None::<usize> }));
                        assert(handles@.take(idx + 1)[idx as int] == h);
                        assert(pre.item_coords(handles@.take(idx + 1)[idx as int] as int).contains(
                            x,
                            y,
                        ));
                        assert(inputs_cover(pre, handles@.take(idx + 1), x, y));
                    } else {
                        assert(self.grid.cell(x, y) == step_pre.grid.cell(x, y));
                        if inputs_cover(pre, handles@.take(idx + 1), x, y) {
                            let w = choose|w: int|
                                0 <= w < idx + 1 && (#[trigger] pre.item_coords(
                                    handles@.take(idx + 1)[w] as int,
                                )).contains(x, y);
                            assert(w < idx);
                            assert(handles@.take(idx as int)[w] == handles@.take(idx + 1)[w]);
                            assert(inputs_cover(pre, handles@.take(idx as int), x, y));
                        } else {
                            if inputs_cover(pre, handles@.take(idx as int), x, y) {
                                let w = choose|w: int|
                                    0 <= w < idx && (#[trigger] pre.item_coords(
                                        handles@.take(idx as int)[w] as int,
                                    )).contains(x, y);
                                assert(handles@.take(idx + 1)[w] == handles@.take(
                                    idx as int,
                                )[w]);
                                assert(inputs_cover(pre, handles@.take(idx + 1), x, y));
                            }
                        }
                    }
                }
            }
            idx += 1;
        }
        proof {
            assert(handles@.take(handles@.len() as int) =~= handles@);
            assert forall|x: int, y: int| output.contains(x, y) implies (#[trigger] self.grid.cell(
                x,
                y,
            )).occupant is None by {
                assert(pre.grid.in_bounds_pos(x, y));
                if !(pre.grid.cell(x, y).occupant is None) {
                    let occ = pre.grid.cell(x, y).occupant->0;
                    assert(handles@.contains(occ));
                    let w = choose|w: int| 0 <= w < handles@.len() && #[trigger] handles@[w] == occ;
                    assert(pre.item_live(occ as int));
                    assert(pre.item_coords(handles@[w] as int).contains(x, y));
                    assert(inputs_cover(pre, handles@, x, y));
                }
            }
            assert(self.grid.region_free(output));
        }
        let newh = self.items.len();
        let out_item = blueprint(recipes[k].result);
        let ghost mid = *self;
        self.grid.fill_region(output, Some(newh));
        self.items.push(Some(PlacedItem { item: out_item, coords: output }));
        self.notifications.push(Notification::ItemSpawned { handle: newh });
        proof {
            crate::scene::lemma_spawn_preserves_wf(mid, *self, out_item, output, newh);
            assert(self.items@ =~= arena_without(pre.items@, handles@).push(
                self.items@[newh as int],
            ));
            assert(ids@ == pre.submitted_ids(handles@));
        }
        Ok(newh)
    }
}

/// Removing one placed item preserves the scene invariant: its cells are
/// exactly the cells that point at it, so clearing them leaves every other
/// item's linkage intact.
proof fn lemma_remove_one_preserves_wf(pre: Scene, post: Scene, h: usize)
    requires
        pre.wf(),
        pre.item_live(h as int),
        post.items@ == pre.items@.update(h as int, None::<PlacedItem>),
        crate::grid::remove_rel(pre.grid, post.grid, pre.item_coords(h as int)),
        (match post.drag {
            DragState::Idle => true,
            DragState::Dragging(s) => post.drag == pre.drag && s.item != h,
        }),
    ensures
        post.wf(),
{
    let region = pre.item_coords(h as int);
    assert(pre.items.len() == pre.items@.len());
    assert(pre.item_placed_ok(h as int));
    assert(post.grid.wf());
    assert forall|h2: int|
        0 <= h2 < post.items@.len() && (#[trigger] post.items@[h2]) is Some implies post.item_placed_ok(
        h2,
    ) by {
        assert(h2 != h as int);
        assert(post.items@[h2] == pre.items@[h2]);
        assert(pre.item_placed_ok(h2));
        assert(post.item_coords(h2) == pre.item_coords(h2));
        assert forall|x: int, y: int|
            post.item_coords(h2).contains(x, y) implies (#[trigger] post.grid.cell(x, y)).occupant
            == Some(h2 as usize) by {
            assert(pre.grid.cell(x, y).occupant == Some(h2 as usize));
            assert(h2 as usize != h);
            if region.contains(x, y) {
                assert(pre.grid.cell(x, y).occupant == Some(h));
                assert(false);
            }
        }
    }
    assert forall|x: int, y: int|
        post.grid.in_bounds_pos(x, y) && (#[trigger] post.grid.cell(x, y)).occupant
        is Some implies post.item_live(post.grid.cell(x, y).occupant->0 as int)
        && post.item_coords(post.grid.cell(x, y).occupant->0 as int).contains(x, y) by {
        assert(pre.grid.in_bounds_pos(x, y));
        if region.contains(x, y) {
            assert(post.grid.cell(x, y).occupant is None);
        } else {
            assert(post.grid.cell(x, y) == pre.grid.cell(x, y));
            let h2 = pre.grid.cell(x, y).occupant->0 as int;
            assert(pre.item_live(h2) && pre.item_coords(h2).contains(x, y));
            if h2 == h as int {
                assert(pre.item_coords(h2) == region);
                assert(false);
            }
            assert(post.items@[h2] == pre.items@[h2]);
            assert(post.item_coords(h2) == pre.item_coords(h2));
        }
    }
    match post.drag {
        DragState::Idle => {},
        DragState::Dragging(s) => {
            assert(pre.item_live(s.item as int));
            assert(post.items@[s.item as int] == pre.items@[s.item as int]);
            assert(post.item_coords(s.item as int) == pre.item_coords(s.item as int));
        },
    }
}

/// The cells of the combine button in half-cell units: the pointer hovers
/// the button iff it lies strictly within the button's rectangle, whose
/// half-extent in half-units is exactly the footprint `dimens`.
pub open spec fn pointer_over_button(c: Coords, px2: int, py2: int, cx2: int, cy2: int) -> bool {
    &&& cx2 - c.dimens.x < px2 < cx2 + c.dimens.x
    &&& cy2 - c.dimens.y < py2 < cy2 + c.dimens.y
}

/// The dedicated combine region's trigger button.
#[derive(Clone, Copy, Debug, PartialEq, Eq, Structural)]
pub struct CombineButton {
    pub coords: Coords,
}

/// The tint the combine button is drawn with.
#[derive(Clone, Copy, Debug, PartialEq, Eq, Structural)]
pub enum ButtonVisual {
    /// Bright: the button was just clicked while hovered.
    Highlighted,
    /// Dim: the resting state.
    Dimmed,
}

/// Per-frame hover/press feedback for the combine button. All coordinates
/// are in half-cell units (twice the world value) so the button's
/// half-extent is exactly its footprint and the test stays in integers:
/// `(px2, py2)` is the pointer, `(cx2, cy2)` the button's centre. Returns
/// the tint to draw the button with and the click effect to play, if any.
pub fn track_combine_button_hover(
    button: &CombineButton,
    px2: i32,
    py2: i32,
    cx2: i32,
    cy2: i32,
    just_pressed: bool,
) -> (r: (ButtonVisual, Option<SoundId>))
    requires
        button.coords.wf(),
        -4 * COORD_LIMIT <= px2 <= 4 * COORD_LIMIT,
        -4 * COORD_LIMIT <= py2 <= 4 * COORD_LIMIT,
        -4 * COORD_LIMIT <= cx2 <= 4 * COORD_LIMIT,
        -4 * COORD_LIMIT <= cy2 <= 4 * COORD_LIMIT,
    ensures
        r == (if pointer_over_button(button.coords, px2 as int, py2 as int, cx2 as int, cy2 as int)
            && just_pressed {
            (ButtonVisual::Highlighted, Some(SoundId::Placeholder))
        } else {
            (ButtonVisual::Dimmed, None::<SoundId>)
        }),
{
    let d = button.coords.dimens;
    let hovering = cx2 - d.x < px2 && px2 < cx2 + d.x && cy2 - d.y < py2 && py2 < cy2 + d.y;
    if hovering && just_pressed {
        (ButtonVisual::Highlighted, Some(SoundId::Placeholder))
    } else {
        (ButtonVisual::Dimmed, None)
    }
}

} // verus!
