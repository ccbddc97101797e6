use inventory_grid::grid::{spawn_grids, Grid, GridCell, GridConfig};
use inventory_grid::positioning::{Coords, Dimens, Pos};
use inventory_grid::GameError;

fn region(x: i32, y: i32, w: i32, h: i32) -> Coords {
    Coords::new(Pos::new(x, y), Dimens::new(w, h))
}

#[test]
fn new_grid_is_empty() {
    let g = Grid::new(region(0, 0, 4, 3));
    assert_eq!(g.cells.len(), 12);
    for y in 0..3 {
        for x in 0..4 {
            assert_eq!(g.cell_at(Pos::new(x, y)), Some(GridCell { occupant: None }));
        }
    }
}

#[test]
fn unit_footprint_is_one_by_one() {
    assert_eq!(Dimens::unit(), Dimens::new(1, 1));
    assert_eq!(GridCell::empty(), GridCell { occupant: None });
}

#[test]
fn cell_at_out_of_bounds_is_none() {
    let g = Grid::new(region(0, 0, 4, 3));
    assert_eq!(g.cell_at(Pos::new(-1, 0)), None);
    assert_eq!(g.cell_at(Pos::new(4, 0)), None);
    assert_eq!(g.cell_at(Pos::new(0, 3)), None);
    assert_eq!(g.cell_at(Pos::new(0, -1)), None);
}

#[test]
fn place_then_remove_round_trip() {
    // Placement and removal are inverse operations.
    let mut g = Grid::new(region(0, 0, 10, 10));
    let snapshot = g.cells.clone();
    let r = region(2, 3, 2, 3);
    assert!(g.is_region_free(r));
    assert_eq!(g.place(r, 7), Ok(()));
    for y in 3..6 {
        for x in 2..4 {
            assert_eq!(g.cell_at(Pos::new(x, y)), Some(GridCell { occupant: Some(7) }));
        }
    }
    assert_eq!(g.cell_at(Pos::new(4, 3)), Some(GridCell { occupant: None }));
    g.remove(r);
    for y in 3..6 {
        for x in 2..4 {
            assert_eq!(g.cell_at(Pos::new(x, y)), Some(GridCell { occupant: None }));
        }
    }
    assert_eq!(g.cells, snapshot);
}

#[test]
fn place_on_occupied_region_fails() {
    let mut g = Grid::new(region(0, 0, 10, 10));
    assert_eq!(g.place(region(0, 0, 2, 2), 0), Ok(()));
    let snapshot = g.cells.clone();
    assert_eq!(g.place(region(1, 1, 2, 2), 1), Err(GameError::RegionOccupied));
    assert_eq!(g.cells, snapshot);
}

#[test]
fn place_out_of_bounds_fails() {
    let mut g = Grid::new(region(0, 0, 10, 10));
    assert_eq!(g.place(region(9, 9, 2, 2), 0), Err(GameError::OutOfBounds));
    assert_eq!(g.place(region(-1, 0, 1, 1), 0), Err(GameError::OutOfBounds));
}

#[test]
fn region_free_checks_bounds_and_occupancy() {
    let mut g = Grid::new(region(0, 0, 10, 10));
    assert!(g.is_region_free(region(0, 0, 10, 10)));
    assert!(!g.is_region_free(region(0, 0, 11, 10)));
    assert!(!g.is_region_free(region(-1, 0, 1, 1)));
    g.place(region(5, 5, 1, 1), 3).unwrap();
    assert!(!g.is_region_free(region(4, 4, 3, 3)));
    assert!(g.is_region_free(region(4, 4, 1, 1)));
    assert!(g.is_region_free_except(region(5, 5, 1, 1), 3));
    assert!(!g.is_region_free_except(region(5, 5, 1, 1), 4));
}

#[test]
fn spawn_grids_builds_both_from_config() {
    let config = GridConfig {
        equipment: region(-12, -8, 24, 16),
        crafting: region(14, 0, 5, 5),
    };
    let (equipment, crafting) = spawn_grids(&config);
    assert_eq!(equipment.coords, config.equipment);
    assert_eq!(equipment.cells.len(), 24 * 16);
    assert_eq!(crafting.coords, config.crafting);
    assert_eq!(crafting.cells.len(), 25);
    assert_eq!(crafting.cell_at(Pos::new(0, 0)), Some(GridCell { occupant: None }));
}
