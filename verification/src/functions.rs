use crate::config::{CELL_SIZE, HEIGHT, LATTICE_HEIGHT, WIDTH};
use vstd::prelude::*;

verus! {

/// The cell coordinate of a fine coordinate: the quotient by the cell size,
/// rounded toward zero.
pub open spec fn grid_coordinate(fine: int) -> int {
    if fine >= 0 {
        fine / (CELL_SIZE as int)
    } else {
        -((-fine) / (CELL_SIZE as int))
    }
}

/// Whether `(x, y)` is a cell of the grid.
pub open spec fn in_grid(x: int, y: int) -> bool {
    0 <= x < WIDTH && 0 <= y < HEIGHT
}

/// Whether `(x, y)` is an entry of the pheromone lattice, which has two rows
/// for each row of cells.
pub open spec fn in_lattice(x: int, y: int) -> bool {
    0 <= x < WIDTH && 0 <= y < LATTICE_HEIGHT
}

/// Whether two cells are neighbours along one axis.
pub open spec fn adjacent(x1: int, y1: int, x2: int, y2: int) -> bool {
    ||| x1 == x2 && (y1 - y2 == 1 || y2 - y1 == 1)
    ||| y1 == y2 && (x1 - x2 == 1 || x2 - x1 == 1)
}

/// The lattice entry of the link between two cells. A vertical link lies on
/// an odd row, a horizontal link on an even row under its left cell. Cells
/// that are not neighbours have no link.
pub open spec fn link_to_lattice(x1: int, y1: int, x2: int, y2: int) -> Option<(int, int)> {
    if !adjacent(x1, y1, x2, y2) {
        None
    } else if x1 == x2 {
        Some((x1, y1 + y2))
    } else {
        Some((if x1 <= x2 { x1 } else { x2 }, 2 * y1))
    }
}

/// The two cells that a lattice entry is read back to: on an odd row the
/// cells above and below, on an even row the cell of that column and the one
/// to its left. Entries outside the lattice, and those of column 0 on an even
/// row, stand for no link.
pub open spec fn lattice_to_link(x: int, y: int) -> Option<(int, int, int, int)> {
    if !in_lattice(x, y) {
        None
    } else if y % 2 == 0 {
        if x == 0 {
            None
        } else {
            Some((x - 1, y / 2, x, y / 2))
        }
    } else {
        Some((x, y / 2, x, y / 2 + 1))
    }
}

/// Whether the cells `(ax, ay)`, `(bx, by)` are the cells `(x1, y1)`,
/// `(x2, y2)` in either order.
pub open spec fn same_pair(
    ax: int, ay: int, bx: int, by: int,
    x1: int, y1: int, x2: int, y2: int,
) -> bool {
    ||| ax == x1 && ay == y1 && bx == x2 && by == y2
    ||| ax == x2 && ay == y2 && bx == x1 && by == y1
}

/// Finds the lattice entry that holds the pheromone of the link between two
/// cells. Where the cells have a link, the row of its entry must be a number
/// that the result can hold.
pub fn board_to_pheromones(x1: i32, y1: i32, x2: i32, y2: i32) -> (link: Option<(i32, i32)>)
    requires
        link_to_lattice(x1 as int, y1 as int, x2 as int, y2 as int) matches Some((x, y))
            ==> i32::MIN <= y <= i32::MAX,
    ensures
        match link_to_lattice(x1 as int, y1 as int, x2 as int, y2 as int) {
            Some((x, y)) => link == Some((x as i32, y as i32)) && x == x as i32 && y == y as i32,
            None => link is None,
        },
{
    if x1 == x2 {
        if y1 < y2 && y1 + 1 == y2 || y2 < y1 && y2 + 1 == y1 {
            return Some((x1, y1 + y2));
        }
        return None;
    }
    if y1 == y2 {
        if x1 < x2 && x1 + 1 == x2 {
            return Some((x1, 2 * y1));
        }
        if x2 < x1 && x2 + 1 == x1 {
            return Some((x2, 2 * y1));
        }
    }
    None
}

/// Reads a lattice entry back to the two cells of its link.
pub fn pheromones_to_board(x: i32, y: i32) -> (cells: Option<(i32, i32, i32, i32)>)
    ensures
        match lattice_to_link(x as int, y as int) {
            Some((ax, ay, bx, by)) => cells == Some((ax as i32, ay as i32, bx as i32, by as i32))
                && ax == ax as i32 && ay == ay as i32 && bx == bx as i32 && by == by as i32,
            None => cells is None,
        },
{
    if x < 0 || y < 0 || x >= WIDTH as i32 || y >= LATTICE_HEIGHT as i32 {
        return None;
    }
    if y % 2 == 0 {
        // a horizontal link, which needs a cell to the left
        if x == 0 {
            return None;
        }
        return Some((x - 1, y / 2, x, y / 2));
    }
    Some((x, y / 2, x, (y / 2) + 1))
}

/// A vertical pair of neighbouring grid cells, taken to the lattice and
/// back, comes out as the same two cells.
pub proof fn lemma_vertical_link_round_trip(x1: int, y1: int, x2: int, y2: int)
    requires
        in_grid(x1, y1),
        in_grid(x2, y2),
        adjacent(x1, y1, x2, y2),
        x1 == x2,
    ensures
        ({
            &&& link_to_lattice(x1, y1, x2, y2) matches Some((x, y))
            &&& in_lattice(x, y)
            &&& lattice_to_link(x, y) matches Some((ax, ay, bx, by))
            &&& same_pair(ax, ay, bx, by, x1, y1, x2, y2)
        }),
{
}

/// A lattice entry on an odd row, taken to its two cells and back, comes
/// out as the same entry.
pub proof fn lemma_vertical_entry_round_trip(x: int, y: int)
    requires
        in_lattice(x, y),
        y % 2 == 1,
    ensures
        ({
            &&& lattice_to_link(x, y) matches Some((ax, ay, bx, by))
            &&& link_to_lattice(ax, ay, bx, by) == Some((x, y))
        }),
{
}

/// A horizontal pair of neighbouring grid cells comes back from the lattice
/// one column to the left: as the left cell of the pair and the cell before
/// it, or as nothing when the pair starts in column 0.
pub proof fn lemma_horizontal_link_shifts(x1: int, y1: int, x2: int, y2: int)
    requires
        in_grid(x1, y1),
        in_grid(x2, y2),
        adjacent(x1, y1, x2, y2),
        y1 == y2,
    ensures
        ({
            &&& link_to_lattice(x1, y1, x2, y2) matches Some((x, y))
            &&& in_lattice(x, y)
            &&& lattice_to_link(x, y) == (if x == 0 {
                None
            } else {
                Some((x - 1, y1, x, y1))
            })
        }),
{
}

/// The lattice entry of the link between the cells of two positions, where
/// the cells are neighbours and the lattice has such an entry.
pub open spec fn link_between(a: Position, b: Position) -> Option<(int, int)> {
    match link_to_lattice(a.cell().0, a.cell().1, b.cell().0, b.cell().1) {
        Some((x, y)) => if in_lattice(x, y) {
            Some((x, y))
        } else {
            None
        },
        None => None,
    }
}

/// Finds the lattice entry of the link between the cells of two positions.
pub fn link_of(a: &Position, b: &Position) -> (link: Option<(i32, i32)>)
    ensures
        match link_between(*a, *b) {
            Some((x, y)) => link == Some((x as i32, y as i32)) && x == x as i32 && y == y as i32,
            None => link is None,
        },
{
    match board_to_pheromones(a.get_x_grid(), a.get_y_grid(), b.get_x_grid(), b.get_y_grid()) {
        Some((x, y)) => {
            if x < 0 || y < 0 || x >= WIDTH as i32 || y >= LATTICE_HEIGHT as i32 {
                None
            } else {
                Some((x, y))
            }
        },
        None => None,
    }
}

/// The point half way between the corners of the two cells that a lattice
/// entry is read back to, each coordinate rounded down.
pub open spec fn midpoint(x: int, y: int) -> Option<Position> {
    match lattice_to_link(x, y) {
        Some((ax, ay, bx, by)) => Some(
            Position {
                x: ((ax * CELL_SIZE + bx * CELL_SIZE) / 2) as i32,
                y: ((ay * CELL_SIZE + by * CELL_SIZE) / 2) as i32,
            },
        ),
        None => None,
    }
}

/// Finds where to show the pheromone of a lattice entry: half way between
/// the two cells that the entry is read back to.
pub fn link_midpoint(x: i32, y: i32) -> (point: Option<Position>)
    ensures
        point == midpoint(x as int, y as int),
{
    match pheromones_to_board(x, y) {
        Some((x1, y1, x2, y2)) => Some(
            Position {
                x: (x1 * CELL_SIZE + x2 * CELL_SIZE) / 2,
                y: (y1 * CELL_SIZE + y2 * CELL_SIZE) / 2,
            },
        ),
        None => None,
    }
}

/// A place where ants find food, and how many units of it are left.
#[derive(Clone, Copy)]
pub struct FoodSource {
    pub position: Position,
    pub amount: usize,
}

/// A point in fine coordinates. Two positions are equal when both
/// coordinates are, whether or not they share a cell.
#[derive(Clone, Copy, Debug, PartialEq, Eq, Hash, Structural)]
pub struct Position {
    pub x: i32,
    pub y: i32,
}

impl Position {
    /// The cell that holds this position.
    pub open spec fn cell(self) -> (int, int) {
        (grid_coordinate(self.x as int), grid_coordinate(self.y as int))
    }

    pub fn get_x_grid(&self) -> (column: i32)
        ensures
            column == grid_coordinate(self.x as int),
            column == self.cell().0,
    {
        self.x / CELL_SIZE
    }

    pub fn get_y_grid(&self) -> (row: i32)
        ensures
            row == grid_coordinate(self.y as int),
            row == self.cell().1,
    {
        self.y / CELL_SIZE
    }
}

/// Whether ticks advance the simulation.
#[derive(Clone, Copy, Debug, PartialEq, Eq, Structural)]
pub enum GameState {
    Playing,
    Paused,
}

} // verus!
