use inventory_grid::dragging::DragState;
use inventory_grid::grid::GridCell;
use inventory_grid::items::{blueprint, create_debug_items, ItemId};
use inventory_grid::positioning::{Coords, Dimens, Pos};
use inventory_grid::scene::{MusicId, Notification, Scene};
use inventory_grid::GameError;

fn region(x: i32, y: i32, w: i32, h: i32) -> Coords {
    Coords::new(Pos::new(x, y), Dimens::new(w, h))
}

fn ten_by_ten() -> Scene {
    Scene::new(region(0, 0, 10, 10))
}

#[test]
fn new_scene_queues_start_music() {
    let scene = ten_by_ten();
    assert_eq!(
        scene.notifications,
        vec![Notification::Music { id: MusicId::Placeholder, looped: false }]
    );
    assert_eq!(scene.items.len(), 0);
    assert_eq!(scene.drag, DragState::Idle);
}

#[test]
fn spawn_overlap_scenario() {
    // A 2x3 item at the origin blocks (1,1); a free cell at (5,5) does not.
    let mut scene = ten_by_ten();
    let a = scene.spawn_item(blueprint(ItemId::EmptyLantern), region(0, 0, 2, 3));
    assert_eq!(a, Ok(0));
    let b = scene.spawn_item(blueprint(ItemId::FireEssence), region(1, 1, 1, 1));
    assert_eq!(b, Err(GameError::RegionOccupied));
    let b2 = scene.spawn_item(blueprint(ItemId::FireEssence), region(5, 5, 1, 1));
    assert_eq!(b2, Ok(1));
}

#[test]
fn spawn_emits_notification_and_links_cells() {
    let mut scene = ten_by_ten();
    let h = scene.spawn_item(blueprint(ItemId::Vial), region(4, 4, 3, 2)).unwrap();
    assert_eq!(scene.notifications.last(), Some(&Notification::ItemSpawned { handle: h }));
    for y in 4..6 {
        for x in 4..7 {
            assert_eq!(
                scene.grid.cell_at(Pos::new(x, y)),
                Some(GridCell { occupant: Some(h) })
            );
        }
    }
    assert_eq!(scene.items[h].as_ref().unwrap().coords, region(4, 4, 3, 2));
}

#[test]
fn spawn_out_of_bounds_fails() {
    let mut scene = ten_by_ten();
    let r = scene.spawn_item(blueprint(ItemId::CandleStick), region(9, 9, 1, 2));
    assert_eq!(r, Err(GameError::OutOfBounds));
    assert_eq!(scene.items.len(), 0);
}

#[test]
fn despawn_all_clears_everything_and_is_idempotent() {
    // Five placed items and one active drag; teardown leaves zero entities
    // and an idle session, and running it again changes nothing.
    let mut scene = Scene::new(region(0, 0, 30, 30));
    for (i, request) in create_debug_items().into_iter().enumerate() {
        let h = scene.spawn_item(request.item, request.coords).unwrap();
        assert_eq!(h, i);
    }
    assert_eq!(scene.items.len(), 5);
    assert_eq!(scene.begin_drag(Pos::new(10, 10)), Ok(Some(0)));
    assert!(matches!(scene.drag, DragState::Dragging(_)));

    scene.despawn_gameplay_entities();
    assert_eq!(scene.items.len(), 0);
    assert_eq!(scene.drag, DragState::Idle);
    assert!(scene.grid.cells.iter().all(|c| c.occupant.is_none()));
    assert_eq!(scene.notifications.last(), Some(&Notification::StopAllMusic));

    let cells_before = scene.grid.cells.clone();
    scene.despawn_gameplay_entities();
    assert_eq!(scene.items.len(), 0);
    assert_eq!(scene.drag, DragState::Idle);
    assert_eq!(scene.grid.cells, cells_before);
}

#[test]
fn debug_items_match_their_requests() {
    let requests = create_debug_items();
    assert_eq!(requests.len(), 5);
    let expected = [
        (ItemId::CandleStick, region(10, 10, 1, 2)),
        (ItemId::EmptyLantern, region(5, 5, 2, 3)),
        (ItemId::FireEssence, region(15, 15, 1, 1)),
        (ItemId::Vial, region(20, 20, 3, 2)),
        (ItemId::TurtleHerb, region(25, 25, 2, 3)),
    ];
    for (request, (id, coords)) in requests.iter().zip(expected.iter()) {
        assert_eq!(request.item.id, *id);
        assert_eq!(request.coords, *coords);
        assert_eq!(request.item.name, "");
        assert_eq!(request.item.description, "");
        assert!(request.item.wearable.is_none());
    }
}
