use inventory_grid::dragging::{DragState, GhostTint};
use inventory_grid::grid::GridCell;
use inventory_grid::items::{blueprint, ItemId};
use inventory_grid::positioning::{Coords, Dimens, Pos};
use inventory_grid::scene::Scene;
use inventory_grid::GameError;

fn region(x: i32, y: i32, w: i32, h: i32) -> Coords {
    Coords::new(Pos::new(x, y), Dimens::new(w, h))
}

fn scene_with_item_a() -> Scene {
    let mut scene = Scene::new(region(0, 0, 10, 10));
    scene.spawn_item(blueprint(ItemId::EmptyLantern), region(0, 0, 2, 3)).unwrap();
    scene
}

#[test]
fn drag_commit_moves_the_item() {
    let mut scene = scene_with_item_a();
    assert_eq!(scene.begin_drag(Pos::new(0, 0)), Ok(Some(0)));
    assert_eq!(scene.update_drag(Pos::new(5, 5)), Ok(()));
    assert_eq!(scene.ghost_tint(), Some(GhostTint::Valid));
    assert_eq!(scene.end_drag(), Ok(true));
    assert_eq!(scene.drag, DragState::Idle);
    assert_eq!(scene.items[0].as_ref().unwrap().coords, region(5, 5, 2, 3));
    assert_eq!(scene.grid.cell_at(Pos::new(0, 0)), Some(GridCell { occupant: None }));
    assert_eq!(scene.grid.cell_at(Pos::new(5, 5)), Some(GridCell { occupant: Some(0) }));
    assert_eq!(scene.grid.cell_at(Pos::new(6, 7)), Some(GridCell { occupant: Some(0) }));
}

#[test]
fn drag_keeps_grab_offset() {
    let mut scene = scene_with_item_a();
    // Grab the item at its (1, 2) interior cell; the anchor follows at the
    // same offset from the pointer.
    assert_eq!(scene.begin_drag(Pos::new(1, 2)), Ok(Some(0)));
    assert_eq!(scene.update_drag(Pos::new(6, 6)), Ok(()));
    assert_eq!(scene.end_drag(), Ok(true));
    assert_eq!(scene.items[0].as_ref().unwrap().coords, region(5, 4, 2, 3));
}

#[test]
fn out_of_bounds_candidate_reverts() {
    // Dragging the 2x3 item toward (8, 9) spans y up to 11 on a height-10
    // grid, so the drop is invalid and the item stays at the origin.
    let mut scene = scene_with_item_a();
    assert_eq!(scene.begin_drag(Pos::new(0, 0)), Ok(Some(0)));
    assert_eq!(scene.update_drag(Pos::new(8, 9)), Ok(()));
    match scene.drag {
        DragState::Dragging(s) => {
            assert_eq!(s.candidate, region(8, 9, 2, 3));
            assert!(!s.valid);
        }
        DragState::Idle => panic!("drag should be active"),
    }
    assert_eq!(scene.ghost_tint(), Some(GhostTint::Invalid));
    assert_eq!(scene.end_drag(), Ok(false));
    assert_eq!(scene.items[0].as_ref().unwrap().coords, region(0, 0, 2, 3));
    assert_eq!(scene.grid.cell_at(Pos::new(0, 0)), Some(GridCell { occupant: Some(0) }));
}

#[test]
fn overlapping_candidate_reverts_and_leaves_grid_unchanged() {
    let mut scene = scene_with_item_a();
    scene.spawn_item(blueprint(ItemId::Vial), region(5, 5, 3, 2)).unwrap();
    let cells_before = scene.grid.cells.clone();
    let items_before = scene.items.clone();
    assert_eq!(scene.begin_drag(Pos::new(0, 0)), Ok(Some(0)));
    assert_eq!(scene.update_drag(Pos::new(4, 4)), Ok(()));
    assert_eq!(scene.ghost_tint(), Some(GhostTint::Invalid));
    assert_eq!(scene.end_drag(), Ok(false));
    assert_eq!(scene.grid.cells, cells_before);
    assert_eq!(scene.items, items_before);
    assert_eq!(scene.drag, DragState::Idle);
}

#[test]
fn cancel_restores_scene_exactly() {
    let mut scene = scene_with_item_a();
    let cells_before = scene.grid.cells.clone();
    let items_before = scene.items.clone();
    assert_eq!(scene.begin_drag(Pos::new(1, 1)), Ok(Some(0)));
    assert_eq!(scene.update_drag(Pos::new(7, 7)), Ok(()));
    assert_eq!(scene.cancel_drag(), Ok(()));
    assert_eq!(scene.grid.cells, cells_before);
    assert_eq!(scene.items, items_before);
    assert_eq!(scene.drag, DragState::Idle);
}

#[test]
fn item_may_overlap_its_own_footprint() {
    // Moving one cell to the right overlaps the item's own cells; that must
    // not count as a collision.
    let mut scene = scene_with_item_a();
    assert_eq!(scene.begin_drag(Pos::new(0, 0)), Ok(Some(0)));
    assert_eq!(scene.update_drag(Pos::new(1, 0)), Ok(()));
    assert_eq!(scene.ghost_tint(), Some(GhostTint::Valid));
    assert_eq!(scene.end_drag(), Ok(true));
    assert_eq!(scene.items[0].as_ref().unwrap().coords, region(1, 0, 2, 3));
    assert_eq!(scene.grid.cell_at(Pos::new(0, 0)), Some(GridCell { occupant: None }));
}

#[test]
fn pointer_on_empty_cell_starts_nothing() {
    let mut scene = scene_with_item_a();
    assert_eq!(scene.begin_drag(Pos::new(8, 8)), Ok(None));
    assert_eq!(scene.drag, DragState::Idle);
}

#[test]
fn second_pointer_down_is_declined() {
    let mut scene = scene_with_item_a();
    assert_eq!(scene.begin_drag(Pos::new(0, 0)), Ok(Some(0)));
    assert_eq!(scene.begin_drag(Pos::new(0, 1)), Err(GameError::DragAlreadyActive));
}

#[test]
fn gesture_events_without_a_drag_are_declined() {
    let mut scene = scene_with_item_a();
    assert_eq!(scene.update_drag(Pos::new(3, 3)), Err(GameError::NoActiveDrag));
    assert_eq!(scene.end_drag(), Err(GameError::NoActiveDrag));
    assert_eq!(scene.cancel_drag(), Err(GameError::NoActiveDrag));
    assert_eq!(scene.ghost_tint(), None);
}
