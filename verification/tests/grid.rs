use battleship::grid::{AddShipError, Grid};
use battleship::location::Location;
use battleship::ship::{Ship, ShipDir};

fn small_fleet() -> Grid {
    let mut grid = Grid::new(5);
    grid.add_ship(Ship::new(Location::new(1, 1), ShipDir::Vert, 4)).unwrap();
    grid.add_ship(Ship::new(Location::new(4, 2), ShipDir::Vert, 3)).unwrap();
    grid.add_ship(Ship::new(Location::new(2, 3), ShipDir::Horz, 2)).unwrap();
    grid
}

#[test]
fn new_grid_is_empty() {
    let grid = Grid::new(7);
    assert_eq!(grid.size(), 7);
    assert!(grid.ships().is_empty());
    assert!(grid.get_all().is_empty());
    assert!(grid.get_all_found().is_empty());
    assert!(grid.check_loss());
}

#[test]
fn placement_appends_in_order() {
    let grid = small_fleet();
    assert_eq!(grid.ships().len(), 3);
    assert_eq!(
        grid.get_all(),
        vec![
            Location::new(1, 1),
            Location::new(1, 2),
            Location::new(1, 3),
            Location::new(1, 4),
            Location::new(4, 2),
            Location::new(4, 3),
            Location::new(4, 4),
            Location::new(2, 3),
            Location::new(3, 3),
        ]
    );
    assert_eq!(grid.ships()[1].get_coords()[0], Location::new(4, 2));
}

#[test]
fn overlapping_vessel_is_refused() {
    let mut grid = small_fleet();
    let before = grid.clone();
    assert_eq!(
        grid.add_ship(Ship::new(Location::new(0, 2), ShipDir::Horz, 2)),
        Err(AddShipError::ShipOverlap)
    );
    assert_eq!(grid, before);
}

#[test]
fn overlap_is_reported_before_bounds() {
    let mut grid = small_fleet();
    let before = grid.clone();
    assert_eq!(
        grid.add_ship(Ship::new(Location::new(4, 4), ShipDir::Horz, 3)),
        Err(AddShipError::ShipOverlap)
    );
    assert_eq!(
        grid.add_ship(Ship::new(Location::new(-1, 1), ShipDir::Horz, 3)),
        Err(AddShipError::ShipOverlap)
    );
    assert_eq!(grid, before);
}

#[test]
fn vessel_off_the_grid_is_refused() {
    let mut grid = Grid::new(5);
    let cases = [
        (Location::new(-1, 0), ShipDir::Horz, 2),
        (Location::new(0, -1), ShipDir::Vert, 2),
        (Location::new(4, 0), ShipDir::Horz, 2),
        (Location::new(0, 4), ShipDir::Vert, 2),
        (Location::new(5, 5), ShipDir::Horz, 1),
        (Location::new(3, 0), ShipDir::Horz, 5),
        (Location::new(i32::MAX - 1, 0), ShipDir::Horz, 2),
        (Location::new(i32::MIN, i32::MIN), ShipDir::Vert, 3),
    ];
    for (start, dir, len) in cases {
        assert_eq!(
            grid.add_ship(Ship::new(start, dir, len)),
            Err(AddShipError::ShipOutOfBounds)
        );
        assert!(grid.ships().is_empty());
    }
}

#[test]
fn vessel_on_the_grid_is_accepted() {
    let mut grid = Grid::new(5);
    assert_eq!(grid.add_ship(Ship::new(Location::new(0, 0), ShipDir::Horz, 5)), Ok(()));
    assert_eq!(grid.add_ship(Ship::new(Location::new(4, 1), ShipDir::Vert, 4)), Ok(()));
    assert_eq!(grid.add_ship(Ship::new(Location::new(0, 4), ShipDir::Horz, 4)), Ok(()));
    assert_eq!(grid.add_ship(Ship::new(Location::new(0, 1), ShipDir::Vert, 3)), Ok(()));
    assert_eq!(grid.ships().len(), 4);
    assert_eq!(grid.get_all().len(), 16);
}

#[test]
fn grid_without_room_refuses_every_vessel() {
    for size in [0, -4] {
        let mut grid = Grid::new(size);
        assert_eq!(
            grid.add_ship(Ship::new(Location::new(0, 0), ShipDir::Horz, 1)),
            Err(AddShipError::ShipOutOfBounds)
        );
    }
}

#[test]
fn guess_hits_the_vessel_that_lies_there() {
    let mut grid = small_fleet();
    assert!(grid.guess_grid(Location::new(4, 3)));
    assert!(!grid.guess_grid(Location::new(0, 0)));
    assert!(!grid.guess_grid(Location::new(-3, 9)));
    assert_eq!(grid.get_all_found(), vec![Location::new(4, 3)]);
    assert!(grid.is_hit(Location::new(4, 3)));
    assert!(!grid.is_hit(Location::new(4, 2)));
    assert!(grid.occupies(Location::new(4, 2)));
    assert!(!grid.occupies(Location::new(0, 0)));
    assert_eq!(grid.ships()[0].get_found(), Vec::<Location>::new());
    assert_eq!(grid.ships()[1].get_found(), vec![Location::new(4, 3)]);
    assert_eq!(grid.ships()[2].get_found(), Vec::<Location>::new());
}

#[test]
fn guesses_do_not_move_vessels() {
    let mut grid = small_fleet();
    let before = grid.get_all();
    for x in -1..6 {
        for y in -1..6 {
            grid.guess_grid(Location::new(x, y));
        }
    }
    assert_eq!(grid.get_all(), before);
    assert_eq!(grid.size(), 5);
}

#[test]
fn repeated_guess_on_the_grid_changes_nothing() {
    let mut grid = small_fleet();
    assert!(grid.guess_grid(Location::new(2, 3)));
    let after_first = grid.clone();
    assert!(grid.guess_grid(Location::new(2, 3)));
    assert!(grid.guess_grid(Location::new(2, 3)));
    assert_eq!(grid, after_first);
    assert_eq!(grid.get_all_found(), vec![Location::new(2, 3)]);
}

#[test]
fn found_coordinates_follow_placement_order() {
    let mut grid = small_fleet();
    assert!(grid.guess_grid(Location::new(3, 3)));
    assert!(grid.guess_grid(Location::new(1, 4)));
    assert!(grid.guess_grid(Location::new(4, 2)));
    assert!(grid.guess_grid(Location::new(1, 1)));
    assert_eq!(
        grid.get_all_found(),
        vec![
            Location::new(1, 1),
            Location::new(1, 4),
            Location::new(4, 2),
            Location::new(3, 3),
        ]
    );
}

#[test]
fn grid_is_lost_when_every_coordinate_is_hit() {
    let mut grid = small_fleet();
    let all = grid.get_all();
    assert!(!grid.check_loss());
    for (i, c) in all.iter().enumerate() {
        assert!(!grid.check_loss());
        assert!(grid.guess_grid(*c));
        assert_eq!(grid.get_all_found().len(), i + 1);
    }
    assert!(grid.check_loss());
    for ship in grid.ships() {
        assert!(ship.is_destroyed());
    }
}

#[test]
fn overlaps_and_holds_agree_with_placement() {
    let grid = small_fleet();
    let crossing = Ship::new(Location::new(0, 3), ShipDir::Horz, 2);
    let outside = Ship::new(Location::new(3, 0), ShipDir::Horz, 3);
    let free = Ship::new(Location::new(2, 0), ShipDir::Horz, 3);
    assert!(grid.overlaps(&crossing));
    assert!(grid.holds(&crossing));
    assert!(!grid.overlaps(&outside));
    assert!(!grid.holds(&outside));
    assert!(!grid.overlaps(&free));
    assert!(grid.holds(&free));
}
