use maze::{Cell, Direction, Grid, GridError};

#[test]
fn carving_opens_both_sides_and_nothing_else() {
    let mut grid = Grid::new(3, 3);
    assert_eq!(grid.carve_passage((1, 1), Direction::East), Ok(()));
    assert!(!grid.cell(1, 1).contains(Direction::East));
    assert!(!grid.cell(2, 1).contains(Direction::West));
    assert!(grid.cell(1, 1).contains(Direction::North));
    assert!(grid.cell(1, 1).contains(Direction::South));
    assert!(grid.cell(1, 1).contains(Direction::West));
    assert!(grid.cell(2, 1).contains(Direction::East));
    for y in 0..3 {
        for x in 0..3 {
            if (x, y) != (1, 1) && (x, y) != (2, 1) {
                assert_eq!(grid.cell(x, y), Cell::new());
            }
        }
    }
}

#[test]
fn carving_each_direction_reaches_the_right_neighbor() {
    let mut grid = Grid::new(3, 3);
    grid.carve_passage((1, 1), Direction::North).unwrap();
    assert!(!grid.cell(1, 0).contains(Direction::South));
    grid.carve_passage((1, 1), Direction::South).unwrap();
    assert!(!grid.cell(1, 2).contains(Direction::North));
    grid.carve_passage((1, 1), Direction::West).unwrap();
    assert!(!grid.cell(0, 1).contains(Direction::East));
    assert!(grid.cell(1, 1).contains(Direction::East));
    assert!(!grid.cell(1, 1).is_open());
}

#[test]
fn carving_out_of_bounds_is_refused_and_changes_nothing() {
    let mut grid = Grid::new(2, 2);
    let before = grid.render();
    assert_eq!(
        grid.carve_passage((2, 0), Direction::West),
        Err(GridError::OutOfBounds { x: 2, y: 0 })
    );
    assert_eq!(
        grid.carve_passage((0, 5), Direction::North),
        Err(GridError::OutOfBounds { x: 0, y: 5 })
    );
    assert_eq!(grid.render(), before);
    for cell in grid.cells() {
        assert_eq!(*cell, Cell::new());
    }
}

#[test]
fn adding_a_wall_out_of_bounds_is_refused() {
    let mut grid = Grid::new(2, 1);
    assert_eq!(
        grid.add_wall((0, 1), Direction::North),
        Err(GridError::OutOfBounds { x: 0, y: 1 })
    );
}

#[test]
fn carving_at_the_edge_opens_the_cell_alone() {
    let mut grid = Grid::new(2, 1);
    grid.carve_passage((1, 0), Direction::East).unwrap();
    assert!(!grid.cell(1, 0).contains(Direction::East));
    assert_eq!(grid.cell(0, 0), Cell::new());
    grid.carve_passage((0, 0), Direction::North).unwrap();
    assert!(!grid.cell(0, 0).contains(Direction::North));
    assert_eq!(grid.render(), " ___ \n|_|_ \n");
}

#[test]
fn add_wall_leaves_the_neighbor_alone() {
    let mut grid = Grid::new(2, 1);
    grid.carve_passage((0, 0), Direction::East).unwrap();
    grid.add_wall((0, 0), Direction::East).unwrap();
    assert!(grid.cell(0, 0).contains(Direction::East));
    assert!(!grid.cell(1, 0).contains(Direction::West));
}

#[test]
fn cells_come_row_by_row() {
    let mut grid = Grid::new(3, 2);
    grid.carve_passage((2, 0), Direction::North).unwrap();
    grid.carve_passage((0, 1), Direction::West).unwrap();
    let cells = grid.cells();
    assert!(!cells[2].contains(Direction::North));
    assert!(!cells[3].contains(Direction::West));
    assert_eq!(grid.width(), 3);
    assert_eq!(grid.height(), 2);
}

#[test]
fn floor_joins_only_between_two_floors() {
    let mut grid = Grid::new(2, 2);
    grid.carve_passage((0, 0), Direction::East).unwrap();
    grid.carve_passage((0, 1), Direction::East).unwrap();
    grid.carve_passage((1, 0), Direction::South).unwrap();
    assert_eq!(grid.render(), " ___ \n|_  |\n|___|\n");
}

#[test]
fn empty_grid_renders_blank_lines() {
    let grid = Grid::new(0, 2);
    assert_eq!(grid.render(), " \n \n \n");
    assert_eq!(grid.cells().len(), 0);
}

#[test]
fn cell_flags_set_and_clear_one_side() {
    let mut cell = Cell::new();
    cell.remove(Direction::South);
    assert!(!cell.contains(Direction::South));
    assert!(cell.contains(Direction::North));
    cell.remove(Direction::South);
    assert!(!cell.contains(Direction::South));
    cell.insert(Direction::South);
    assert_eq!(cell, Cell::new());
    assert_eq!(Direction::North.opposite(), Direction::South);
    assert_eq!(Direction::East.opposite(), Direction::West);
    assert_eq!(Direction::West.mask(), 8);
}
