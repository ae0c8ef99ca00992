use neuron_net::encoder::StateEncoder;
use neuron_net::grid_world::{GridWorld, Motion};

#[test]
fn from_usize_numbers_the_main_directions() {
    assert_eq!(Motion::from_usize(0, 3), Motion::North(3));
    assert_eq!(Motion::from_usize(1, 1), Motion::East(1));
    assert_eq!(Motion::from_usize(2, 0), Motion::South(0));
    assert_eq!(Motion::from_usize(3, usize::MAX), Motion::West(usize::MAX));
}

#[test]
fn distance_is_the_number_of_cells() {
    assert_eq!(Motion::North(2).distance(), 2);
    assert_eq!(Motion::SouthWest(5).distance(), 5);
    assert_eq!(Motion::NorthEast(0).distance(), 0);
}

#[test]
fn encoder_gives_each_state_its_code() {
    let mut encoder = StateEncoder::empty();
    assert!(!encoder.knows('S'));
    encoder.new();
    assert!(!encoder.knows('S'));
    encoder.assign('S', 0);
    encoder.assign('H', -1);
    encoder.assign('G', 1);
    encoder.assign('H', -2);
    assert!(encoder.knows('S'));
    assert!(encoder.knows('H'));
    assert!(!encoder.knows('F'));
    assert_eq!(encoder.encode('S'), 0);
    assert_eq!(encoder.encode('H'), -2);
    assert_eq!(encoder.encode('G'), 1);
}

/// A grid of three by four cells, lettered from `a`, the second index running
/// fastest.
fn lettered() -> GridWorld {
    GridWorld::new(3, 4, "abcdefghijkl".chars().collect()).unwrap()
}

#[test]
fn grid_keeps_shape_and_cells() {
    let grid = lettered();
    assert_eq!(grid.height(), 3);
    assert_eq!(grid.width(), 4);
    assert_eq!(grid.get([0, 0]), Some(&'a'));
    assert_eq!(grid.get([0, 3]), Some(&'d'));
    assert_eq!(grid.get([1, 0]), Some(&'e'));
    assert_eq!(grid.get([2, 3]), Some(&'l'));
    assert_eq!(grid.get([3, 0]), None);
    assert_eq!(grid.get([0, 4]), None);
}

#[test]
fn grid_needs_as_many_cells_as_its_shape_asks() {
    assert!(GridWorld::new(2, 2, vec!['a', 'b', 'c']).is_none());
    assert!(GridWorld::new(2, 2, vec!['a', 'b', 'c', 'd', 'e']).is_none());
    assert!(GridWorld::new(0, 5, Vec::new()).is_some());
    assert!(GridWorld::new(0, 0, Vec::new()).is_some());
    assert!(GridWorld::new(1, 1, vec!['x']).is_some());
    let empty = GridWorld::new(0, 5, Vec::new()).unwrap();
    assert_eq!(empty.height(), 0);
    assert_eq!(empty.width(), 5);
    assert_eq!(empty.get([0, 0]), None);
}

#[test]
fn get_mut_changes_one_cell() {
    let mut grid = lettered();
    *grid.get_mut([1, 2]).unwrap() = 'X';
    assert!(grid.get_mut([3, 0]).is_none());
    assert!(grid.get_mut([0, 4]).is_none());
    assert_eq!(grid.get([1, 2]), Some(&'X'));
    assert_eq!(grid.get([1, 1]), Some(&'f'));
    assert_eq!(grid.get([1, 3]), Some(&'h'));
    assert_eq!(grid.height(), 3);
    assert_eq!(grid.width(), 4);
}

#[test]
fn moves_stop_at_the_last_place() {
    let grid = lettered();
    // The second coordinate is kept below the height, the first below the
    // width.
    assert_eq!(grid.move_north([1, 2], 1), [1, 1]);
    assert_eq!(grid.move_north([1, 2], 5), [1, 0]);
    assert_eq!(grid.move_north([1, 9], 1), [1, 2]);
    assert_eq!(grid.move_south([1, 0], 1), [1, 1]);
    assert_eq!(grid.move_south([1, 0], 9), [1, 2]);
    assert_eq!(grid.move_south([1, 1], usize::MAX), [1, 2]);
    assert_eq!(grid.move_east([0, 1], 2), [2, 1]);
    assert_eq!(grid.move_east([0, 1], 7), [3, 1]);
    assert_eq!(grid.move_east([usize::MAX, 1], 7), [3, 1]);
    assert_eq!(grid.move_west([3, 1], 2), [1, 1]);
    assert_eq!(grid.move_west([3, 1], 4), [0, 1]);
    assert_eq!(grid.move_west([9, 1], 1), [3, 1]);
}

#[test]
fn perform_motion_follows_the_direction() {
    let grid = lettered();
    assert_eq!(grid.perform_motion([1, 1], Motion::North(1)), [1, 0]);
    assert_eq!(grid.perform_motion([1, 1], Motion::South(1)), [1, 2]);
    assert_eq!(grid.perform_motion([1, 1], Motion::East(1)), [2, 1]);
    assert_eq!(grid.perform_motion([1, 1], Motion::West(1)), [0, 1]);
    assert_eq!(grid.perform_motion([1, 1], Motion::NorthEast(1)), [2, 0]);
    assert_eq!(grid.perform_motion([1, 1], Motion::NorthWest(1)), [0, 0]);
    assert_eq!(grid.perform_motion([1, 1], Motion::SouthEast(1)), [2, 2]);
    assert_eq!(grid.perform_motion([1, 1], Motion::SouthWest(1)), [0, 2]);
    assert_eq!(grid.perform_motion([0, 0], Motion::SouthEast(10)), [3, 2]);
    assert_eq!(grid.perform_motion([3, 2], Motion::NorthWest(2)), [1, 0]);
    assert_eq!(grid.perform_motion([1, 1], Motion::NorthEast(0)), [1, 1]);
}

#[test]
fn checked_motion_refuses_a_grid_without_cells() {
    let grid = lettered();
    assert_eq!(grid.checked_motion([1, 1], Motion::North(1)), Some([1, 0]));
    assert_eq!(grid.checked_motion([1, 1], Motion::SouthWest(1)), Some([0, 2]));
    let flat = GridWorld::new(0, 5, Vec::new()).unwrap();
    assert_eq!(flat.checked_motion([1, 1], Motion::North(1)), None);
    assert_eq!(flat.checked_motion([1, 1], Motion::South(0)), None);
    assert_eq!(flat.checked_motion([1, 1], Motion::East(1)), Some([2, 1]));
    assert_eq!(flat.checked_motion([1, 1], Motion::NorthEast(1)), None);
    assert_eq!(flat.checked_motion([1, 1], Motion::NorthEast(0)), Some([1, 1]));
}

#[test]
fn valid_motion_asks_for_room() {
    let grid = lettered();
    assert!(grid.valid_motion([0, 1], Motion::North(1)));
    assert!(!grid.valid_motion([0, 2], Motion::North(1)));
    assert!(!grid.valid_motion([0, 0], Motion::North(3)));
    assert!(!grid.valid_motion([0, 0], Motion::North(usize::MAX)));
    assert!(grid.valid_motion([0, 2], Motion::South(2)));
    assert!(!grid.valid_motion([0, 1], Motion::South(2)));
    assert!(grid.valid_motion([2, 0], Motion::East(1)));
    assert!(!grid.valid_motion([3, 0], Motion::East(1)));
    assert!(grid.valid_motion([1, 0], Motion::West(1)));
    assert!(!grid.valid_motion([0, 0], Motion::West(1)));
    assert!(grid.valid_motion([2, 1], Motion::NorthEast(1)));
    assert!(!grid.valid_motion([3, 1], Motion::NorthEast(1)));
    assert!(grid.valid_motion([1, 1], Motion::NorthWest(1)));
    assert!(!grid.valid_motion([0, 1], Motion::NorthWest(1)));
    assert!(grid.valid_motion([2, 1], Motion::SouthEast(1)));
    assert!(!grid.valid_motion([2, 0], Motion::SouthEast(1)));
    assert!(grid.valid_motion([1, 1], Motion::SouthWest(1)));
    assert!(!grid.valid_motion([1, 0], Motion::SouthWest(1)));
    let flat = GridWorld::new(0, 0, Vec::new()).unwrap();
    assert!(!flat.valid_motion([0, 0], Motion::North(0)));
    assert!(!flat.valid_motion([0, 0], Motion::East(0)));
    assert!(flat.valid_motion([0, 0], Motion::South(0)));
}
