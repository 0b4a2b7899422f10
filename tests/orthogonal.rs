use maze::{Direction, Grid, OrthogonalMaze};

fn carve(maze: &mut OrthogonalMaze, pos: (usize, usize), d: Direction) {
    maze.get_grid_mut().carve_passage(pos, d).unwrap();
}

fn generate_maze() -> OrthogonalMaze {
    let mut maze = OrthogonalMaze::new(4, 4);

    carve(&mut maze, (0, 0), Direction::South);
    carve(&mut maze, (0, 1), Direction::East);
    carve(&mut maze, (0, 2), Direction::East);
    carve(&mut maze, (0, 2), Direction::South);
    carve(&mut maze, (0, 3), Direction::East);

    carve(&mut maze, (1, 0), Direction::East);
    carve(&mut maze, (1, 1), Direction::East);
    carve(&mut maze, (1, 1), Direction::South);
    carve(&mut maze, (1, 2), Direction::East);
    carve(&mut maze, (1, 3), Direction::East);

    carve(&mut maze, (2, 0), Direction::East);
    carve(&mut maze, (2, 2), Direction::East);
    carve(&mut maze, (2, 3), Direction::East);

    carve(&mut maze, (3, 1), Direction::North);
    carve(&mut maze, (3, 1), Direction::South);

    maze
}

#[test]
fn display_orthogonal_maze() {
    let mut expected = String::new();
    expected.push_str(" _______ \n");
    expected.push_str("| |___  |\n");
    expected.push_str("|_   _| |\n");
    expected.push_str("|  _____|\n");
    expected.push_str("|_______|\n");

    let maze = generate_maze();
    let actual = maze.to_string();

    assert_eq!(actual, expected);
}

#[test]
fn valid_maze() {
    let maze = generate_maze();
    assert_eq!(maze.is_valid(), true);
}

#[test]
fn rendering_twice_gives_the_same_text() {
    let maze = generate_maze();
    let first = maze.to_string();
    let second = maze.to_string();
    assert_eq!(first, second);
    assert!(maze.is_valid());
}

#[test]
fn fresh_maze_is_fully_walled_and_valid() {
    let mut maze = OrthogonalMaze::new(3, 2);
    assert!(maze.is_valid());
    let grid: &mut Grid = maze.get_grid_mut();
    assert_eq!(grid.cells().len(), 6);
    for cell in grid.cells() {
        assert!(cell.contains(Direction::North));
        assert!(cell.contains(Direction::South));
        assert!(cell.contains(Direction::East));
        assert!(cell.contains(Direction::West));
        assert!(!cell.is_open());
    }
    assert_eq!(maze.to_string(), " _____ \n|_|_|_|\n|_|_|_|\n");
}

#[test]
fn one_cell_maze_renders_closed_box() {
    let maze = OrthogonalMaze::new(1, 1);
    assert_eq!(maze.to_string(), " _ \n|_|\n");
}

#[test]
fn invalid_maze_until_one_wall_is_put_back() {
    let mut maze = OrthogonalMaze::new(1, 1);
    for d in [Direction::North, Direction::South, Direction::East, Direction::West] {
        carve(&mut maze, (0, 0), d);
    }
    assert!(!maze.is_valid());
    assert!(maze.get_grid_mut().cell(0, 0).is_open());
    maze.get_grid_mut().add_wall((0, 0), Direction::East).unwrap();
    assert!(maze.is_valid());
    assert_eq!(maze.to_string(), " _ \n  |\n");
}

#[test]
fn open_cell_among_walled_ones_is_invalid() {
    let mut maze = OrthogonalMaze::new(3, 3);
    for d in [Direction::North, Direction::South, Direction::East, Direction::West] {
        carve(&mut maze, (1, 1), d);
    }
    assert!(!maze.is_valid());
    maze.get_grid_mut().add_wall((1, 1), Direction::North).unwrap();
    assert!(maze.is_valid());
}

#[test]
fn picture_is_a_rectangle() {
    let maze = generate_maze();
    let picture = maze.to_string();
    assert_eq!(picture.len(), 5 * 10);
    for line in picture.split_inclusive('\n') {
        assert_eq!(line.len(), 10);
    }
}
