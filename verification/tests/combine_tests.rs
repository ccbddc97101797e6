use inventory_grid::combining::{
    track_combine_button_hover, ButtonVisual, CombineButton, Recipe,
};
use inventory_grid::dragging::DragState;
use inventory_grid::grid::GridCell;
use inventory_grid::items::{blueprint, ItemId};
use inventory_grid::positioning::{Coords, Dimens, Pos};
use inventory_grid::scene::{Notification, Scene, SoundId};
use inventory_grid::GameError;

fn region(x: i32, y: i32, w: i32, h: i32) -> Coords {
    Coords::new(Pos::new(x, y), Dimens::new(w, h))
}

fn lantern_recipe() -> Recipe {
    Recipe {
        inputs: vec![ItemId::EmptyLantern, ItemId::FireEssence],
        result: ItemId::CandleStick,
    }
}

fn scene_with_inputs() -> (Scene, Vec<usize>) {
    let mut scene = Scene::new(region(0, 0, 10, 10));
    let a = scene.spawn_item(blueprint(ItemId::EmptyLantern), region(0, 0, 2, 3)).unwrap();
    let b = scene.spawn_item(blueprint(ItemId::FireEssence), region(4, 4, 1, 1)).unwrap();
    (scene, vec![a, b])
}

#[test]
fn matching_combine_replaces_inputs_with_result() {
    let (mut scene, handles) = scene_with_inputs();
    let recipes = vec![lantern_recipe()];
    let out = region(7, 7, 1, 2);
    let r = scene.combine_items(&handles, &recipes, out);
    assert_eq!(r, Ok(2));
    assert!(scene.items[0].is_none());
    assert!(scene.items[1].is_none());
    let produced = scene.items[2].as_ref().unwrap();
    assert_eq!(produced.item.id, ItemId::CandleStick);
    assert_eq!(produced.coords, out);
    // The inputs' cells are empty again; the output cells point at the result.
    assert_eq!(scene.grid.cell_at(Pos::new(0, 0)), Some(GridCell { occupant: None }));
    assert_eq!(scene.grid.cell_at(Pos::new(4, 4)), Some(GridCell { occupant: None }));
    assert_eq!(scene.grid.cell_at(Pos::new(7, 7)), Some(GridCell { occupant: Some(2) }));
    assert_eq!(scene.grid.cell_at(Pos::new(7, 8)), Some(GridCell { occupant: Some(2) }));
    assert_eq!(scene.notifications.last(), Some(&Notification::ItemSpawned { handle: 2 }));
}

#[test]
fn order_of_submission_does_not_matter() {
    let (mut scene, handles) = scene_with_inputs();
    let reversed: Vec<usize> = handles.into_iter().rev().collect();
    let recipes = vec![lantern_recipe()];
    assert_eq!(scene.combine_items(&reversed, &recipes, region(7, 7, 1, 2)), Ok(2));
}

#[test]
fn non_matching_combine_changes_nothing() {
    let (mut scene, handles) = scene_with_inputs();
    let recipes = vec![Recipe {
        inputs: vec![ItemId::TurtleHerb, ItemId::Vial],
        result: ItemId::FireEssence,
    }];
    let cells_before = scene.grid.cells.clone();
    let items_before = scene.items.clone();
    let r = scene.combine_items(&handles, &recipes, region(7, 7, 1, 1));
    assert_eq!(r, Err(GameError::NoMatchingRecipe));
    assert_eq!(scene.grid.cells, cells_before);
    assert_eq!(scene.items, items_before);
}

#[test]
fn duplicates_in_recipes_matter() {
    let mut scene = Scene::new(region(0, 0, 10, 10));
    let a = scene.spawn_item(blueprint(ItemId::FireEssence), region(0, 0, 1, 1)).unwrap();
    let b = scene.spawn_item(blueprint(ItemId::FireEssence), region(2, 2, 1, 1)).unwrap();
    let double = Recipe {
        inputs: vec![ItemId::FireEssence, ItemId::FireEssence],
        result: ItemId::Vial,
    };
    // One essence does not satisfy a recipe that needs two.
    assert_eq!(
        scene.combine_items(&vec![a], &vec![double.clone()], region(5, 5, 1, 1)),
        Err(GameError::NoMatchingRecipe)
    );
    assert_eq!(
        scene.combine_items(&vec![a, b], &vec![double], region(5, 5, 1, 1)),
        Ok(2)
    );
    assert_eq!(scene.items[2].as_ref().unwrap().item.id, ItemId::Vial);
}

#[test]
fn blocked_output_region_declines_without_mutation() {
    let (mut scene, handles) = scene_with_inputs();
    let blocker = scene.spawn_item(blueprint(ItemId::TurtleHerb), region(7, 7, 2, 3)).unwrap();
    assert_eq!(blocker, 2);
    let recipes = vec![lantern_recipe()];
    let items_before = scene.items.clone();
    assert_eq!(
        scene.combine_items(&handles, &recipes, region(7, 7, 1, 1)),
        Err(GameError::RegionOccupied)
    );
    assert_eq!(
        scene.combine_items(&handles, &recipes, region(9, 9, 2, 2)),
        Err(GameError::OutOfBounds)
    );
    assert_eq!(scene.items, items_before);
}

#[test]
fn output_may_reuse_an_input_cell() {
    // The output region is allowed to overlap cells the inputs are vacating.
    let (mut scene, handles) = scene_with_inputs();
    let recipes = vec![lantern_recipe()];
    assert_eq!(scene.combine_items(&handles, &recipes, region(0, 0, 1, 2)), Ok(2));
    assert_eq!(scene.grid.cell_at(Pos::new(0, 0)), Some(GridCell { occupant: Some(2) }));
}

#[test]
fn combine_cancels_a_drag_of_a_consumed_item() {
    let (mut scene, handles) = scene_with_inputs();
    assert_eq!(scene.begin_drag(Pos::new(4, 4)), Ok(Some(1)));
    let recipes = vec![lantern_recipe()];
    assert_eq!(scene.combine_items(&handles, &recipes, region(7, 7, 1, 1)), Ok(2));
    assert_eq!(scene.drag, DragState::Idle);
}

#[test]
fn hover_feedback_reacts_to_press_inside_button() {
    let button = CombineButton { coords: region(0, 0, 4, 2) };
    // Pointer at world (1.0, 0.5), button centred at the origin: inside.
    assert_eq!(
        track_combine_button_hover(&button, 2, 1, 0, 0, true),
        (ButtonVisual::Highlighted, Some(SoundId::Placeholder))
    );
    // Hovering without a press stays dim and silent.
    assert_eq!(
        track_combine_button_hover(&button, 2, 1, 0, 0, false),
        (ButtonVisual::Dimmed, None)
    );
    // Pressing outside the rectangle stays dim: x edge is exclusive.
    assert_eq!(
        track_combine_button_hover(&button, 4, 0, 0, 0, true),
        (ButtonVisual::Dimmed, None)
    );
    assert_eq!(
        track_combine_button_hover(&button, 3, 0, 0, 0, true),
        (ButtonVisual::Highlighted, Some(SoundId::Placeholder))
    );
}
