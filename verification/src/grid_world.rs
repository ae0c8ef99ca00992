//! A rectangular grid of cells and the motions of a position on it.

use vstd::prelude::*;

verus! {

/// A motion by a number of cells in one of eight directions.
#[derive(Clone, Copy, Debug, PartialEq, Eq, Structural)]
pub enum Motion {
    North(usize),
    East(usize),
    South(usize),
    West(usize),
    NorthEast(usize),
    NorthWest(usize),
    SouthEast(usize),
    SouthWest(usize),
}

impl Motion {
    /// The motion by `n` cells in the `i`-th of the four main directions.
    pub open spec fn main_direction(i: usize, n: usize) -> Motion {
        if i == 0 {
            Motion::North(n)
        } else if i == 1 {
            Motion::East(n)
        } else if i == 2 {
            Motion::South(n)
        } else {
            Motion::West(n)
        }
    }

    /// The motion by `n` cells in the main direction numbered `i`: north,
    /// east, south and west are numbered from zero in this order.
    pub fn from_usize(i: usize, n: usize) -> (r: Motion)
        requires
            i < 4,
        ensures
            r == Motion::main_direction(i, n),
    {
        if i == 0 {
            Motion::North(n)
        } else if i == 1 {
            Motion::East(n)
        } else if i == 2 {
            Motion::South(n)
        } else {
            Motion::West(n)
        }
    }

    /// The number of cells that the motion covers.
    pub fn distance(&self) -> (r: usize)
        ensures
            r == match *self {
                Motion::North(n) => n,
                Motion::East(n) => n,
                Motion::South(n) => n,
                Motion::West(n) => n,
                Motion::NorthEast(n) => n,
                Motion::NorthWest(n) => n,
                Motion::SouthEast(n) => n,
                Motion::SouthWest(n) => n,
            },
    {
        match *self {
            Motion::North(n) => n,
            Motion::East(n) => n,
            Motion::South(n) => n,
            Motion::West(n) => n,
            Motion::NorthEast(n) => n,
            Motion::NorthWest(n) => n,
            Motion::SouthEast(n) => n,
            Motion::SouthWest(n) => n,
        }
    }
}

/// A rectangular grid of cells, each marked by one character. The cells are
/// kept in a two-dimensional `ndarray` array.
#[verifier::external_body]
pub struct GridWorld {
    layout: ndarray::Array2<char>,
}

/// The lengths of the grid's two axes, first axis first.
pub uninterp spec fn grid_shape(g: GridWorld) -> Seq<usize>;

/// The grid's cells, in the order in which the second index runs fastest.
pub uninterp spec fn grid_cells(g: GridWorld) -> Seq<char>;

/// `x` moved back by `n`, but not below zero nor beyond the last of `size`
/// places.
pub open spec fn moved_back(x: usize, n: usize, size: usize) -> usize {
    let target = if x >= n {
        x - n
    } else {
        0
    };
    if target <= size - 1 {
        target as usize
    } else {
        (size - 1) as usize
    }
}

/// `x` moved on by `n`, but not beyond the last of `size` places.
pub open spec fn moved_on(x: usize, n: usize, size: usize) -> usize {
    if x + n <= size - 1 {
        (x + n) as usize
    } else {
        (size - 1) as usize
    }
}

impl GridWorld {
    /// The grid's height: the length of the first axis.
    pub open spec fn rows(self) -> usize {
        grid_shape(self)[0]
    }

    /// The grid's width: the length of the second axis.
    pub open spec fn columns(self) -> usize {
        grid_shape(self)[1]
    }

    /// Whether `(x, y)` is a position on the grid: each index is at least
    /// zero and below the length of its axis.
    pub open spec fn within(self, x: int, y: int) -> bool {
        0 <= x < self.rows() && 0 <= y < self.columns()
    }

    /// The cell at the position `(x, y)` of the grid.
    pub open spec fn cell_at(self, x: int, y: int) -> char {
        grid_cells(self)[x * self.columns() + y]
    }

    /// `loc` after a motion of `n` to the north: the second coordinate goes
    /// back by `n` and stays between zero and the height less one.
    pub open spec fn north_of(self, loc: (usize, usize), n: usize) -> (usize, usize) {
        (loc.0, moved_back(loc.1, n, self.rows()))
    }

    /// `loc` after a motion of `n` to the south: the second coordinate goes
    /// on by `n` and stays at or below the height less one.
    pub open spec fn south_of(self, loc: (usize, usize), n: usize) -> (usize, usize) {
        (loc.0, moved_on(loc.1, n, self.rows()))
    }

    /// `loc` after a motion of `n` to the east: the first coordinate goes on
    /// by `n` and stays at or below the width less one.
    pub open spec fn east_of(self, loc: (usize, usize), n: usize) -> (usize, usize) {
        (moved_on(loc.0, n, self.columns()), loc.1)
    }

    /// `loc` after a motion of `n` to the west: the first coordinate goes
    /// back by `n` and stays between zero and the width less one.
    pub open spec fn west_of(self, loc: (usize, usize), n: usize) -> (usize, usize) {
        (moved_back(loc.0, n, self.columns()), loc.1)
    }

    /// `loc` after `n` diagonal steps, each of them one cell north or south
    /// and then one cell east or west.
    pub open spec fn diagonal_of(
        self,
        loc: (usize, usize),
        n: nat,
        north: bool,
        east: bool,
    ) -> (usize, usize)
        decreases n,
    {
        if n == 0 {
            loc
        } else {
            let before = self.diagonal_of(loc, (n - 1) as nat, north, east);
            let turned = if north {
                self.north_of(before, 1)
            } else {
                self.south_of(before, 1)
            };
            if east {
                self.east_of(turned, 1)
            } else {
                self.west_of(turned, 1)
            }
        }
    }

    /// `loc` after `motion`.
    pub open spec fn moved(self, loc: (usize, usize), motion: Motion) -> (usize, usize) {
        match motion {
            Motion::North(n) => self.north_of(loc, n),
            Motion::South(n) => self.south_of(loc, n),
            Motion::East(n) => self.east_of(loc, n),
            Motion::West(n) => self.west_of(loc, n),
            Motion::NorthEast(n) => self.diagonal_of(loc, n as nat, true, true),
            Motion::NorthWest(n) => self.diagonal_of(loc, n as nat, true, false),
            Motion::SouthEast(n) => self.diagonal_of(loc, n as nat, false, true),
            Motion::SouthWest(n) => self.diagonal_of(loc, n as nat, false, false),
        }
    }

    /// Whether the grid is large enough for `motion` to be carried out: a
    /// motion along an axis needs that axis to have a cell.
    pub open spec fn admits(self, motion: Motion) -> bool {
        match motion {
            Motion::North(_) => self.rows() >= 1,
            Motion::South(_) => self.rows() >= 1,
            Motion::East(_) => self.columns() >= 1,
            Motion::West(_) => self.columns() >= 1,
            Motion::NorthEast(n) => n > 0 ==> self.rows() >= 1 && self.columns() >= 1,
            Motion::NorthWest(n) => n > 0 ==> self.rows() >= 1 && self.columns() >= 1,
            Motion::SouthEast(n) => n > 0 ==> self.rows() >= 1 && self.columns() >= 1,
            Motion::SouthWest(n) => n > 0 ==> self.rows() >= 1 && self.columns() >= 1,
        }
    }

    /// Whether `loc` has room for `motion`: to the north, `n` cells between
    /// the second coordinate and the height less one; to the south, a second
    /// coordinate of at least `n`; to the east and to the west the same of
    /// the first coordinate and the width; for a diagonal, room for both of
    /// its parts.
    pub open spec fn has_room(self, loc: (usize, usize), motion: Motion) -> bool {
        match motion {
            Motion::North(n) => loc.1 + n <= self.rows() - 1,
            Motion::South(n) => loc.1 >= n,
            Motion::East(n) => loc.0 + n <= self.columns() - 1,
            Motion::West(n) => loc.0 >= n,
            Motion::NorthEast(n) => loc.1 + n <= self.rows() - 1 && loc.0 + n <= self.columns() - 1,
            Motion::NorthWest(n) => loc.1 + n <= self.rows() - 1 && loc.0 >= n,
            Motion::SouthEast(n) => loc.1 >= n && loc.0 + n <= self.columns() - 1,
            Motion::SouthWest(n) => loc.1 >= n && loc.0 >= n,
        }
    }

    /// `Array2::from_shape_vec` with the shape `(rows, columns)`: the array
    /// of that shape whose cells are `cells`, the second index running
    /// fastest. The call fails where the shape asks for another number of
    /// cells than `cells` holds, or where the lengths of the axes that are
    /// not zero multiply to more than `isize::MAX`. A list never holds more
    /// than `isize::MAX` cells, so a shape that matches `cells` can only
    /// fail for the second reason where one axis is zero and the other too
    /// long.
    #[verifier::external_body]
    pub fn new(rows: usize, columns: usize, cells: Vec<char>) -> (r: Option<GridWorld>)
        ensures
            r is Some ==> rows * columns == cells@.len(),
            rows * columns == cells@.len() && rows <= isize::MAX && columns <= isize::MAX ==> r
                is Some,
            r is Some ==> grid_shape(r->0) == seq![rows, columns] && grid_cells(r->0) == cells@,
    {
        match ndarray::Array2::from_shape_vec((rows, columns), cells) {
            Ok(layout) => Some(GridWorld { layout }),
            Err(_) => None,
        }
    }

    /// `shape()[0]` of the array: the length of its first axis.
    #[verifier::external_body]
    pub fn height(&self) -> (r: usize)
        ensures
            r == grid_shape(*self)[0],
    {
        self.layout.shape()[0]
    }

    /// `shape()[1]` of the array: the length of its second axis.
    #[verifier::external_body]
    pub fn width(&self) -> (r: usize)
        ensures
            r == grid_shape(*self)[1],
    {
        self.layout.shape()[1]
    }

    /// `get` of the array: the cell at `loc`, or `None` where either index
    /// is at or beyond the length of its axis.
    #[verifier::external_body]
    pub fn get(&self, loc: [usize; 2]) -> (r: Option<&char>)
        ensures
            r is Some <==> self.within(loc[0] as int, loc[1] as int),
            r is Some ==> *r->0 == self.cell_at(loc[0] as int, loc[1] as int),
    {
        self.layout.get(loc)
    }

    /// `get_mut` of the array: the cell at `loc` for the caller to change,
    /// or `None` where either index is at or beyond the length of its axis.
    /// The shape and the other cells stay as they are.
    #[verifier::external_body]
    pub fn get_mut(&mut self, loc: [usize; 2]) -> (r: Option<&mut char>)
        ensures
            r is Some <==> old(self).within(loc[0] as int, loc[1] as int),
            r is None ==> grid_cells(*final(self)) == grid_cells(*old(self)),
            r is Some ==> *r->0 == old(self).cell_at(loc[0] as int, loc[1] as int),
            r is Some ==> grid_cells(*final(self)) == grid_cells(*old(self)).update(
                loc[0] * old(self).columns() + loc[1],
                *final(r->0),
            ),
            grid_shape(*final(self)) == grid_shape(*old(self)),
    {
        self.layout.get_mut(loc)
    }

    /// Moves `loc` to the north by `n`. The grid's height must not be zero.
    pub fn move_north(&self, loc: [usize; 2], n: usize) -> (r: [usize; 2])
        requires
            self.rows() >= 1,
        ensures
            (r[0], r[1]) == self.north_of((loc[0], loc[1]), n),
    {
        let last: usize = self.height() - 1;
        let target: usize = if loc[1] >= n {
            loc[1] - n
        } else {
            0
        };
        [
            loc[0],
            if target <= last {
                target
            } else {
                last
            },
        ]
    }

    /// Moves `loc` to the south by `n`. The grid's height must not be zero.
    pub fn move_south(&self, loc: [usize; 2], n: usize) -> (r: [usize; 2])
        requires
            self.rows() >= 1,
        ensures
            (r[0], r[1]) == self.south_of((loc[0], loc[1]), n),
    {
        let last: usize = self.height() - 1;
        [
            loc[0],
            if loc[1] <= last && n <= last - loc[1] {
                loc[1] + n
            } else {
                last
            },
        ]
    }

    /// Moves `loc` to the east by `n`. The grid's width must not be zero.
    pub fn move_east(&self, loc: [usize; 2], n: usize) -> (r: [usize; 2])
        requires
            self.columns() >= 1,
        ensures
            (r[0], r[1]) == self.east_of((loc[0], loc[1]), n),
    {
        let last: usize = self.width() - 1;
        [
            if loc[0] <= last && n <= last - loc[0] {
                loc[0] + n
            } else {
                last
            },
            loc[1],
        ]
    }

    /// Moves `loc` to the west by `n`. The grid's width must not be zero.
    pub fn move_west(&self, loc: [usize; 2], n: usize) -> (r: [usize; 2])
        requires
            self.columns() >= 1,
        ensures
            (r[0], r[1]) == self.west_of((loc[0], loc[1]), n),
    {
        let last: usize = self.width() - 1;
        let target: usize = if loc[0] >= n {
            loc[0] - n
        } else {
            0
        };
        [
            if target <= last {
                target
            } else {
                last
            },
            loc[1],
        ]
    }

    /// `n` diagonal steps from `loc`, towards the north if `north` and the
    /// south if not, towards the east if `east` and the west if not.
    fn move_diagonally(&self, loc: [usize; 2], n: usize, north: bool, east: bool) -> (r: [usize; 2])
        requires
            n > 0 ==> self.rows() >= 1 && self.columns() >= 1,
        ensures
            (r[0], r[1]) == self.diagonal_of((loc[0], loc[1]), n as nat, north, east),
    {
        let mut at = loc;
        let mut i: usize = 0;
        while i < n
            invariant
                i <= n,
                n > 0 ==> self.rows() >= 1 && self.columns() >= 1,
                (at[0], at[1]) == self.diagonal_of((loc[0], loc[1]), i as nat, north, east),
            decreases n - i,
        {
            let turned = if north {
                self.move_north(at, 1)
            } else {
                self.move_south(at, 1)
            };
            at = if east {
                self.move_east(turned, 1)
            } else {
                self.move_west(turned, 1)
            };
            i += 1;
        }
        at
    }

    /// Carries out `motion` from `loc`. A diagonal motion of `n` is `n`
    /// steps, each one cell along the second coordinate and then one cell
    /// along the first. The grid must be large enough for the motion.
    pub fn perform_motion(&self, loc: [usize; 2], motion: Motion) -> (r: [usize; 2])
        requires
            self.admits(motion),
        ensures
            (r[0], r[1]) == self.moved((loc[0], loc[1]), motion),
    {
        match motion {
            Motion::North(n) => self.move_north(loc, n),
            Motion::South(n) => self.move_south(loc, n),
            Motion::East(n) => self.move_east(loc, n),
            Motion::West(n) => self.move_west(loc, n),
            Motion::NorthEast(n) => self.move_diagonally(loc, n, true, true),
            Motion::NorthWest(n) => self.move_diagonally(loc, n, true, false),
            Motion::SouthEast(n) => self.move_diagonally(loc, n, false, true),
            Motion::SouthWest(n) => self.move_diagonally(loc, n, false, false),
        }
    }

    /// Carries out `motion` from `loc` where the grid is large enough for
    /// it, and returns `None` where it is not.
    pub fn checked_motion(&self, loc: [usize; 2], motion: Motion) -> (r: Option<[usize; 2]>)
        ensures
            r is Some <==> self.admits(motion),
            r is Some ==> (r->0[0], r->0[1]) == self.moved((loc[0], loc[1]), motion),
    {
        let tall = self.height() >= 1;
        let wide = self.width() >= 1;
        let admitted = match motion {
            Motion::North(_) => tall,
            Motion::South(_) => tall,
            Motion::East(_) => wide,
            Motion::West(_) => wide,
            Motion::NorthEast(n) => n == 0 || (tall && wide),
            Motion::NorthWest(n) => n == 0 || (tall && wide),
            Motion::SouthEast(n) => n == 0 || (tall && wide),
            Motion::SouthWest(n) => n == 0 || (tall && wide),
        };
        if admitted {
            Some(self.perform_motion(loc, motion))
        } else {
            None
        }
    }

    /// Whether `coordinate` has `n` places left below `size`.
    fn room_ahead(coordinate: usize, n: usize, size: usize) -> (r: bool)
        ensures
            r == (coordinate + n <= size - 1),
    {
        size >= 1 && n <= size - 1 && coordinate <= size - 1 - n
    }

    /// Whether `loc` has room for `motion`.
    pub fn valid_motion(&self, loc: [usize; 2], motion: Motion) -> (r: bool)
        ensures
            r == self.has_room((loc[0], loc[1]), motion),
    {
        match motion {
            Motion::North(n) => GridWorld::room_ahead(loc[1], n, self.height()),
            Motion::South(n) => loc[1] >= n,
            Motion::East(n) => GridWorld::room_ahead(loc[0], n, self.width()),
            Motion::West(n) => loc[0] >= n,
            Motion::NorthEast(n) => GridWorld::room_ahead(loc[1], n, self.height())
                && GridWorld::room_ahead(loc[0], n, self.width()),
            Motion::NorthWest(n) => GridWorld::room_ahead(loc[1], n, self.height()) && loc[0] >= n,
            Motion::SouthEast(n) => loc[1] >= n && GridWorld::room_ahead(loc[0], n, self.width()),
            Motion::SouthWest(n) => loc[1] >= n && loc[0] >= n,
        }
    }
}

} // verus!
