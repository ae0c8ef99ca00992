use neuron_net::grid_world::{GridWorld, Motion};
use neuron_net::lake::{action_of, glance_step, near_location, reward_mark, LocationError};

const WORLD: [[char; 6]; 6] = [
    ['M', 'M', 'M', 'M', 'M', 'M'],
    ['M', 'F', 'F', 'F', 'F', 'M'],
    ['M', 'F', 'H', 'F', 'H', 'M'],
    ['M', 'F', 'F', 'F', 'H', 'M'],
    ['M', 'H', 'F', 'F', 'G', 'M'],
    ['M', 'M', 'M', 'M', 'M', 'M'],
];

/// The lake with its axes swapped: the first coordinate of a position picks
/// the column of `WORLD`, the second its line.
fn lake() -> GridWorld {
    let mut cells = Vec::new();
    for x in 0..6 {
        for y in 0..6 {
            cells.push(WORLD[y][x]);
        }
    }
    GridWorld::new(6, 6, cells).unwrap()
}

fn states() -> Vec<(char, bool)> {
    let rewards: [(char, f32); 5] = [('S', 0.0), ('F', 0.0), ('H', -1.0), ('G', 1.0), ('M', -1.0)];
    rewards.iter().map(|(state, reward)| (*state, *reward != 0.0)).collect()
}

#[test]
fn near_location_adds_or_refuses() {
    assert_eq!(near_location(&[1, 1], [0, 0]), Ok([1, 1]));
    assert_eq!(near_location(&[1, 1], [-1, 0]), Ok([0, 1]));
    assert_eq!(near_location(&[1, 1], [1, 0]), Ok([2, 1]));
    assert_eq!(near_location(&[1, 1], [0, -1]), Ok([1, 0]));
    assert_eq!(near_location(&[1, 1], [3, 4]), Ok([4, 5]));
    assert_eq!(near_location(&[0, 1], [-1, 0]), Err(LocationError::NegativeX));
    assert_eq!(near_location(&[1, 0], [0, -1]), Err(LocationError::NegativeY));
    assert_eq!(near_location(&[0, 0], [-1, -1]), Err(LocationError::NegativeX));
    assert_eq!(near_location(&[5, 2], [-7, -1]), Err(LocationError::NegativeX));
}

#[test]
fn actions_are_north_south_east_west() {
    assert_eq!(action_of(0), Motion::North(1));
    assert_eq!(action_of(1), Motion::South(1));
    assert_eq!(action_of(2), Motion::East(1));
    assert_eq!(action_of(3), Motion::West(1));
}

#[test]
fn glance_steps_are_fixed() {
    assert_eq!(glance_step(0), [0, 0]);
    assert_eq!(glance_step(1), [-1, 0]);
    assert_eq!(glance_step(2), [1, 0]);
    assert_eq!(glance_step(3), [0, -1]);
    assert_eq!(glance_step(4), [0, 1]);
}

#[test]
fn reward_mark_takes_the_first_entry() {
    let listed = vec![('H', true), ('F', false), ('H', false)];
    assert_eq!(reward_mark(&listed, 'H'), Some(true));
    assert_eq!(reward_mark(&listed, 'F'), Some(false));
    assert_eq!(reward_mark(&listed, 'G'), None);
    assert_eq!(reward_mark(&Vec::new(), 'G'), None);
}

#[test]
fn to_rows_lists_every_cell() {
    let grid = GridWorld::new(2, 3, "abcdef".chars().collect()).unwrap();
    assert_eq!(grid.to_rows(), vec![vec!['a', 'b', 'c'], vec!['d', 'e', 'f']]);
    let rows = lake().to_rows();
    assert_eq!(rows.len(), 6);
    assert_eq!(rows[1], vec!['M', 'F', 'F', 'F', 'H', 'M']);
    assert_eq!(rows[4], vec!['M', 'F', 'H', 'H', 'G', 'M']);
    assert_eq!(GridWorld::new(0, 3, Vec::new()).unwrap().to_rows(), Vec::<Vec<char>>::new());
    assert_eq!(
        GridWorld::new(2, 0, Vec::new()).unwrap().to_rows(),
        vec![Vec::<char>::new(), Vec::new()]
    );
}

#[test]
fn meta_state_marks_rewarding_cells() {
    let grid = lake();
    let known = states();
    // At the start only the margin to the west and to the north stands out.
    assert_eq!(grid.create_meta_state(&[1, 1], &known), Some(['?', 'M', '?', 'M', '?']));
    // Beside the first hole.
    assert_eq!(grid.create_meta_state(&[2, 1], &known), Some(['?', '?', '?', 'M', 'H']));
    // Left of the goal, with a hole above... and the margin below.
    assert_eq!(grid.create_meta_state(&[3, 4], &known), Some(['?', '?', 'G', '?', 'M']));
    // On the goal.
    assert_eq!(grid.create_meta_state(&[4, 4], &known), Some(['G', '?', 'M', 'H', 'M']));
    // In the corner the neighbours below zero are replaced by the position.
    assert_eq!(grid.create_meta_state(&[0, 0], &known), Some(['M', 'M', 'M', 'M', 'M']));
}

#[test]
fn meta_state_needs_cells_and_known_states() {
    let grid = lake();
    let known = states();
    assert_eq!(grid.create_meta_state(&[5, 5], &known), None);
    assert_eq!(grid.create_meta_state(&[6, 1], &known), None);
    let without_holes: Vec<(char, bool)> = known.iter().cloned().filter(|e| e.0 != 'H').collect();
    assert_eq!(grid.create_meta_state(&[2, 1], &without_holes), None);
    assert_eq!(
        grid.create_meta_state(&[1, 1], &without_holes),
        Some(['?', 'M', '?', 'M', '?'])
    );
}

#[test]
fn make_action_moves_unless_into_margin() {
    let grid = lake();
    // North lowers the second coordinate, east raises the first.
    assert_eq!(grid.make_action(&[1, 1], 0), Some(('M', [1, 1])));
    assert_eq!(grid.make_action(&[1, 1], 1), Some(('F', [1, 2])));
    assert_eq!(grid.make_action(&[1, 1], 2), Some(('F', [2, 1])));
    assert_eq!(grid.make_action(&[1, 1], 3), Some(('M', [1, 1])));
    assert_eq!(grid.make_action(&[2, 1], 1), Some(('H', [2, 2])));
    assert_eq!(grid.make_action(&[3, 4], 2), Some(('G', [4, 4])));
    // From outside the grid a motion is cut back to the last place.
    assert_eq!(grid.make_action(&[9, 1], 3), Some(('M', [9, 1])));
    assert_eq!(grid.make_action(&[9, 9], 3), None);
    let flat = GridWorld::new(0, 0, Vec::new()).unwrap();
    assert_eq!(flat.make_action(&[0, 0], 0), None);
}
