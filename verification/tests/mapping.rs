use ant_simulation::config::{HEIGHT, LATTICE_HEIGHT, WIDTH};
use ant_simulation::functions::{
    board_to_pheromones, link_midpoint, link_of, pheromones_to_board, Position,
};

#[test]
fn vertical_link_lies_on_the_odd_row_between_its_cells() {
    assert_eq!(board_to_pheromones(0, 0, 0, 1), Some((0, 1)));
    assert_eq!(board_to_pheromones(7, 4, 7, 3), Some((7, 7)));
    assert_eq!(board_to_pheromones(179, 118, 179, 119), Some((179, 237)));
}

#[test]
fn horizontal_link_lies_on_the_even_row_under_its_left_cell() {
    assert_eq!(board_to_pheromones(3, 4, 4, 4), Some((3, 8)));
    assert_eq!(board_to_pheromones(4, 4, 3, 4), Some((3, 8)));
    assert_eq!(board_to_pheromones(0, 0, 1, 0), Some((0, 0)));
}

#[test]
fn cells_that_are_no_neighbours_have_no_link() {
    assert_eq!(board_to_pheromones(5, 5, 5, 5), None);
    assert_eq!(board_to_pheromones(5, 5, 5, 7), None);
    assert_eq!(board_to_pheromones(5, 5, 7, 5), None);
    assert_eq!(board_to_pheromones(5, 5, 6, 6), None);
    assert_eq!(board_to_pheromones(0, 0, 100, 100), None);
}

#[test]
fn lattice_entry_reads_back_to_two_cells() {
    assert_eq!(pheromones_to_board(1, 0), Some((0, 0, 1, 0)));
    assert_eq!(pheromones_to_board(5, 8), Some((4, 4, 5, 4)));
    assert_eq!(pheromones_to_board(2, 3), Some((2, 1, 2, 2)));
    assert_eq!(pheromones_to_board(0, 1), Some((0, 0, 0, 1)));
    assert_eq!(pheromones_to_board(179, 239), Some((179, 119, 179, 120)));
}

#[test]
fn column_zero_on_an_even_row_has_no_left_neighbour() {
    assert_eq!(pheromones_to_board(0, 0), None);
    assert_eq!(pheromones_to_board(0, 2), None);
    assert_eq!(pheromones_to_board(0, 238), None);
}

#[test]
fn entries_outside_the_lattice_read_back_to_nothing() {
    assert_eq!(pheromones_to_board(-1, 1), None);
    assert_eq!(pheromones_to_board(1, -1), None);
    assert_eq!(pheromones_to_board(180, 1), None);
    assert_eq!(pheromones_to_board(1, 240), None);
    assert_eq!(pheromones_to_board(i32::MIN, i32::MIN), None);
    assert_eq!(pheromones_to_board(i32::MAX, i32::MAX), None);
}

#[test]
fn every_vertical_link_of_the_grid_comes_back_as_its_own_cells() {
    for x in 0..WIDTH as i32 {
        for y in 0..HEIGHT as i32 - 1 {
            let (lx, ly) = board_to_pheromones(x, y, x, y + 1).unwrap();
            assert_eq!(pheromones_to_board(lx, ly), Some((x, y, x, y + 1)));
            let (rx, ry) = board_to_pheromones(x, y + 1, x, y).unwrap();
            assert_eq!((rx, ry), (lx, ly));
        }
    }
}

#[test]
fn every_odd_lattice_row_comes_back_as_its_own_entry() {
    for x in 0..WIDTH as i32 {
        for y in 0..LATTICE_HEIGHT as i32 {
            if y % 2 == 1 {
                let (ax, ay, bx, by) = pheromones_to_board(x, y).unwrap();
                if by < 0x4000_0000 {
                    assert_eq!(board_to_pheromones(ax, ay, bx, by), Some((x, y)));
                }
            }
        }
    }
}

#[test]
fn horizontal_link_comes_back_one_column_to_the_left() {
    let (lx, ly) = board_to_pheromones(3, 0, 4, 0).unwrap();
    assert_eq!((lx, ly), (3, 0));
    assert_eq!(pheromones_to_board(lx, ly), Some((2, 0, 3, 0)));
    let (lx, ly) = board_to_pheromones(0, 9, 1, 9).unwrap();
    assert_eq!(pheromones_to_board(lx, ly), None);
}

#[test]
fn cell_of_a_position_is_the_quotient_rounded_toward_zero() {
    assert_eq!(Position { x: 0, y: 0 }.get_x_grid(), 0);
    assert_eq!(Position { x: 4, y: 5 }.get_x_grid(), 0);
    assert_eq!(Position { x: 4, y: 5 }.get_y_grid(), 1);
    assert_eq!(Position { x: 12, y: 899 }.get_x_grid(), 2);
    assert_eq!(Position { x: 12, y: 599 }.get_y_grid(), 119);
    assert_eq!(Position { x: -4, y: -5 }.get_x_grid(), 0);
    assert_eq!(Position { x: -4, y: -5 }.get_y_grid(), -1);
    assert_eq!(Position { x: -7, y: -11 }.get_x_grid(), -1);
    assert_eq!(Position { x: -7, y: -11 }.get_y_grid(), -2);
    assert_eq!(Position { x: i32::MAX, y: i32::MIN }.get_x_grid(), 429496729);
    assert_eq!(Position { x: i32::MAX, y: i32::MIN }.get_y_grid(), -429496729);
}

#[test]
fn positions_in_one_cell_are_equal_only_with_equal_coordinates() {
    let a = Position { x: 11, y: 12 };
    let b = Position { x: 12, y: 12 };
    assert_eq!(a.get_x_grid(), b.get_x_grid());
    assert_eq!(a.get_y_grid(), b.get_y_grid());
    assert_ne!(a, b);
    assert_eq!(a, Position { x: 11, y: 12 });
}

#[test]
fn link_of_two_positions_is_the_link_of_their_cells() {
    let a = Position { x: 27, y: 13 };
    let b = Position { x: 30, y: 14 };
    assert_eq!(link_of(&a, &b), Some((5, 4)));
    assert_eq!(link_of(&b, &a), Some((5, 4)));
    let c = Position { x: 26, y: 19 };
    assert_eq!(link_of(&a, &c), Some((5, 5)));
    assert_eq!(link_of(&a, &a), None);
    assert_eq!(link_of(&a, &Position { x: 40, y: 13 }), None);
}

#[test]
fn link_that_leaves_the_lattice_is_no_link() {
    let outside = Position { x: -5, y: 0 };
    let inside = Position { x: 0, y: 0 };
    assert_eq!(board_to_pheromones(-1, 0, 0, 0), Some((-1, 0)));
    assert_eq!(link_of(&outside, &inside), None);
    let above = Position { x: 0, y: -5 };
    assert_eq!(link_of(&above, &inside), None);
    let last = Position { x: 899, y: 599 };
    let below = Position { x: 899, y: 600 };
    assert_eq!(link_of(&last, &below), Some((179, 239)));
    let right = Position { x: 900, y: 599 };
    assert_eq!(link_of(&last, &right), Some((179, 238)));
    let further = Position { x: 905, y: 599 };
    assert_eq!(link_of(&right, &further), None);
}

#[test]
fn midpoint_of_a_link_lies_between_the_corners_of_its_cells() {
    assert_eq!(link_midpoint(2, 3), Some(Position { x: 10, y: 7 }));
    assert_eq!(link_midpoint(5, 8), Some(Position { x: 22, y: 20 }));
    assert_eq!(link_midpoint(0, 0), None);
    assert_eq!(link_midpoint(-3, 1), None);
}
