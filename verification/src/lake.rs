//! Walking on a grid of marked cells: neighbours, the states around a
//! position, and the outcome of an action.

use crate::grid_world::{GridWorld, Motion};
use vstd::prelude::*;

verus! {

/// Why a position has no neighbour in a given direction.
#[derive(Clone, Copy, Debug, PartialEq, Eq, Structural)]
pub enum LocationError {
    /// The first coordinate would be below zero.
    NegativeX,
    /// The second coordinate would be below zero.
    NegativeY,
}

/// The state that marks a cell which cannot be entered.
pub open spec fn margin() -> char {
    'M'
}

/// The state that stands for a cell of no interest.
pub open spec fn unmarked() -> char {
    '?'
}

/// The five steps that lead from a position to the cells that are looked at
/// around it: none, then one back and one on along the first coordinate,
/// then one back and one on along the second.
pub open spec fn glance(i: int) -> (int, int) {
    if i == 0 {
        (0, 0)
    } else if i == 1 {
        (-1, 0)
    } else if i == 2 {
        (1, 0)
    } else if i == 3 {
        (0, -1)
    } else {
        (0, 1)
    }
}

/// The motion that an action stands for: one cell to the north, the south,
/// the east or the west, numbered from zero in this order.
pub open spec fn action_motion(action_id: usize) -> Motion {
    if action_id == 0 {
        Motion::North(1)
    } else if action_id == 1 {
        Motion::South(1)
    } else if action_id == 2 {
        Motion::East(1)
    } else {
        Motion::West(1)
    }
}

/// What `states` says of `state`: whether it carries a reward other than
/// zero, or `None` where `states` does not list it. The first entry for a
/// state counts.
pub open spec fn rewarding(states: Seq<(char, bool)>, state: char) -> Option<bool>
    decreases states.len(),
{
    if states.len() == 0 {
        None
    } else if states[0].0 == state {
        Some(states[0].1)
    } else {
        rewarding(states.drop_first(), state)
    }
}

/// The position that is looked at for the `i`-th entry of the states around
/// `loc`: the neighbour that the `i`-th step leads to, or `loc` itself where
/// that step would leave the non-negative coordinates.
pub open spec fn looked_at(loc: (usize, usize), i: int) -> (int, int) {
    let x = loc.0 + glance(i).0;
    let y = loc.1 + glance(i).1;
    if x < 0 || y < 0 {
        (loc.0 as int, loc.1 as int)
    } else {
        (x, y)
    }
}

/// The position `mov` away from `loc`. It is refused where a coordinate
/// would be below zero, the first coordinate being looked at first.
pub fn near_location(loc: &[usize; 2], mov: [i32; 2]) -> (r: Result<[usize; 2], LocationError>)
    requires
        loc[0] + mov[0] <= usize::MAX,
        loc[1] + mov[1] <= usize::MAX,
    ensures
        loc[0] + mov[0] < 0 ==> r == Err::<[usize; 2], LocationError>(LocationError::NegativeX),
        loc[0] + mov[0] >= 0 && loc[1] + mov[1] < 0 ==> r == Err::<[usize; 2], LocationError>(
            LocationError::NegativeY,
        ),
        loc[0] + mov[0] >= 0 && loc[1] + mov[1] >= 0 ==> r is Ok && r->Ok_0[0] == loc[0] + mov[0]
            && r->Ok_0[1] == loc[1] + mov[1],
{
    let x: i128 = mov[0] as i128 + loc[0] as i128;
    if x < 0 {
        return Err(LocationError::NegativeX);
    }
    let y: i128 = mov[1] as i128 + loc[1] as i128;
    if y < 0 {
        return Err(LocationError::NegativeY);
    }
    Ok([x as usize, y as usize])
}

/// The action numbered `action_id` as a motion.
pub fn action_of(action_id: usize) -> (r: Motion)
    requires
        action_id < 4,
    ensures
        r == action_motion(action_id),
{
    if action_id == 0 {
        Motion::North(1)
    } else if action_id == 1 {
        Motion::South(1)
    } else if action_id == 2 {
        Motion::East(1)
    } else {
        Motion::West(1)
    }
}

/// Looks `state` up in `states`.
pub fn reward_mark(states: &Vec<(char, bool)>, state: char) -> (r: Option<bool>)
    ensures
        r == rewarding(states@, state),
{
    let mut i: usize = 0;
    proof {
        assert(states@.skip(0) =~= states@);
    }
    while i < states.len()
        invariant
            i <= states@.len(),
            rewarding(states@, state) == rewarding(states@.skip(i as int), state),
        decreases states@.len() - i,
    {
        proof {
            assert(states@.skip(i as int).drop_first() =~= states@.skip(i as int + 1));
        }
        if states[i].0 == state {
            return Some(states[i].1);
        }
        i += 1;
    }
    None
}

/// The `i`-th of the five steps around a position.
pub fn glance_step(i: usize) -> (r: [i32; 2])
    requires
        i < 5,
    ensures
        (r[0] as int, r[1] as int) == glance(i as int),
{
    if i == 0 {
        [0, 0]
    } else if i == 1 {
        [-1, 0]
    } else if i == 2 {
        [1, 0]
    } else if i == 3 {
        [0, -1]
    } else {
        [0, 1]
    }
}

impl GridWorld {
    /// The `i`-th entry of the states around `loc`: the state of the cell
    /// that is looked at where it carries a reward, the mark for a cell of
    /// no interest where it carries none, and `None` where the cell lies
    /// outside the grid or its state is not listed in `states`.
    pub open spec fn glimpse(
        self,
        loc: (usize, usize),
        i: int,
        states: Seq<(char, bool)>,
    ) -> Option<char> {
        let at = looked_at(loc, i);
        if !self.within(at.0, at.1) {
            None
        } else {
            match rewarding(states, self.cell_at(at.0, at.1)) {
                None => None,
                Some(true) => Some(self.cell_at(at.0, at.1)),
                Some(false) => Some(unmarked()),
            }
        }
    }

    /// What taking the action `action_id` at `loc` leads to: the state of
    /// the cell that the action's motion reaches, and the position after
    /// it, which is `loc` where that cell is margin. `None` where the grid
    /// is too small for the motion or the cell reached lies outside it.
    pub open spec fn outcome(self, loc: (usize, usize), action_id: usize) -> Option<
        (char, (usize, usize)),
    > {
        let motion = action_motion(action_id);
        let to = self.moved(loc, motion);
        if !self.admits(motion) || !self.within(to.0 as int, to.1 as int) {
            None
        } else {
            let state = self.cell_at(to.0 as int, to.1 as int);
            Some(
                (
                    state,
                    if state == margin() {
                        loc
                    } else {
                        to
                    },
                ),
            )
        }
    }

    /// The cells of the grid, one list for each place along the first axis.
    pub fn to_rows(&self) -> (r: Vec<Vec<char>>)
        ensures
            r@.len() == self.rows(),
            forall|i: int| 0 <= i < r@.len() ==> (#[trigger] r@[i])@.len() == self.columns(),
            forall|i: int, j: int|
                0 <= i < self.rows() && 0 <= j < self.columns() ==> #[trigger] r@[i]@[j]
                    == self.cell_at(i, j),
    {
        let height = self.height();
        let width = self.width();
        let mut grid: Vec<Vec<char>> = Vec::new();
        let mut i: usize = 0;
        while i < height
            invariant
                i <= height,
                height == self.rows(),
                width == self.columns(),
                grid@.len() == i,
                forall|a: int| 0 <= a < i ==> (#[trigger] grid@[a])@.len() == width,
                forall|a: int, b: int|
                    0 <= a < i && 0 <= b < width ==> #[trigger] grid@[a]@[b] == self.cell_at(a, b),
            decreases height - i,
        {
            let mut row: Vec<char> = Vec::new();
            let mut j: usize = 0;
            while j < width
                invariant
                    i < height,
                    j <= width,
                    height == self.rows(),
                    width == self.columns(),
                    row@.len() == j,
                    forall|b: int| 0 <= b < j ==> #[trigger] row@[b] == self.cell_at(i as int, b),
                decreases width - j,
            {
                match self.get([i, j]) {
                    Some(cell) => {
                        row.push(*cell);
                    },
                    None => {},
                }
                j += 1;
            }
            grid.push(row);
            i += 1;
        }
        grid
    }

    /// One entry of the states around `loc`.
    fn state_around(&self, loc: &[usize; 2], i: usize, states: &Vec<(char, bool)>) -> (r: Option<
        char,
    >)
        requires
            i < 5,
            loc[0] < usize::MAX,
            loc[1] < usize::MAX,
        ensures
            r == self.glimpse((loc[0], loc[1]), i as int, states@),
    {
        let at = match near_location(loc, glance_step(i)) {
            Ok(near) => near,
            Err(_) => *loc,
        };
        match self.get(at) {
            Some(state) => match reward_mark(states, *state) {
                Some(true) => Some(*state),
                Some(false) => Some('?'),
                None => None,
            },
            None => None,
        }
    }

    /// The states around `loc`: for `loc` itself and its four neighbours, in
    /// the order of the five steps, the state of the cell where it carries
    /// a reward and the mark for a cell of no interest where it does not. A
    /// neighbour whose coordinate would be below zero is replaced by `loc`.
    /// `states` lists the known states, each with whether its reward is
    /// other than zero. Returns `None` where one of the cells looked at lies
    /// outside the grid or has a state that `states` does not list.
    pub fn create_meta_state(&self, loc: &[usize; 2], states: &Vec<(char, bool)>) -> (r: Option<
        [char; 5],
    >)
        requires
            loc[0] < usize::MAX,
            loc[1] < usize::MAX,
        ensures
            r is Some <==> forall|i: int|
                0 <= i < 5 ==> (#[trigger] self.glimpse((loc[0], loc[1]), i, states@)) is Some,
            r is Some ==> forall|i: int|
                0 <= i < 5 ==> Some(r->0[i]) == #[trigger] self.glimpse(
                    (loc[0], loc[1]),
                    i,
                    states@,
                ),
    {
        let here = match self.state_around(loc, 0, states) {
            Some(state) => state,
            None => {
                return None;
            },
        };
        let back_x = match self.state_around(loc, 1, states) {
            Some(state) => state,
            None => {
                return None;
            },
        };
        let on_x = match self.state_around(loc, 2, states) {
            Some(state) => state,
            None => {
                return None;
            },
        };
        let back_y = match self.state_around(loc, 3, states) {
            Some(state) => state,
            None => {
                return None;
            },
        };
        let on_y = match self.state_around(loc, 4, states) {
            Some(state) => state,
            None => {
                return None;
            },
        };
        Some([here, back_x, on_x, back_y, on_y])
    }

    /// Takes the action `action_id` at `loc`: returns the state of the cell
    /// that the action's motion reaches, and the position after it. A
    /// margin cell is not entered: the position is then `loc` as before.
    /// Returns `None` where the grid is too small for the motion or the cell
    /// reached lies outside it.
    pub fn make_action(&self, loc: &[usize; 2], action_id: usize) -> (r: Option<
        (char, [usize; 2]),
    >)
        requires
            action_id < 4,
        ensures
            r is Some <==> self.outcome((loc[0], loc[1]), action_id) is Some,
            match r {
                Some((state, to)) => Some((state, (to[0], to[1]))) == self.outcome(
                    (loc[0], loc[1]),
                    action_id,
                ),
                None => true,
            },
    {
        let action = action_of(action_id);
        let next_loc = match self.checked_motion(*loc, action) {
            Some(to) => to,
            None => {
                return None;
            },
        };
        match self.get(next_loc) {
            Some(state) => {
                if *state == 'M' {
                    Some((*state, *loc))
                } else {
                    Some((*state, next_loc))
                }
            },
            None => None,
        }
    }
}

} // verus!
