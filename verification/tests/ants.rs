use ant_simulation::ants::{Ant, Appearance};
use ant_simulation::config::{ANT_SOIL_LIMIT, HEIGHT, WIDTH};
use ant_simulation::functions::{FoodSource, Position};
use ant_simulation::terrarium::Terrarium;

const NEST: Position = Position { x: 0, y: 0 };

fn at(x: i32, y: i32) -> Position {
    Position { x, y }
}

fn lone_ant(direction: i32) -> (Terrarium, Ant) {
    (Terrarium::empty(NEST), Ant::starting_at(&NEST, NEST, direction))
}

#[test]
fn new_ant_stands_where_it_was_put() {
    let nest = at(450, 300);
    let ant = Ant::starting_at(&nest, at(447, 302), 123);
    assert_eq!(ant.position(), at(447, 302));
    assert_eq!(ant.nest_position(), nest);
    assert_eq!(ant.direction(), 123);
    assert!(!ant.returning());
    assert!(!ant.carrying_food());
    assert_eq!(ant.soil_carried(), 0);
    assert!(ant.path_positions().is_empty());
    assert_eq!(ant.appearance(), Appearance::Normal);
    for x in 0..WIDTH as i32 {
        for y in 0..HEIGHT as i32 {
            assert!(!ant.has_visited(x, y));
        }
    }
}

#[test]
fn random_ant_starts_near_its_nest() {
    let nest = at(450, 300);
    let mut places = Vec::new();
    for _ in 0..200 {
        let ant = Ant::new(&nest);
        assert_eq!(ant.nest_position(), nest);
        assert!((ant.position().x - 450).abs() <= 5);
        assert!((ant.position().y - 300).abs() <= 5);
        assert!(0 <= ant.direction() && ant.direction() < 360);
        assert!(!ant.returning());
        assert!(!ant.carrying_food());
        assert_eq!(ant.soil_carried(), 0);
        assert!(ant.path_positions().is_empty());
        if !places.contains(&ant.position()) {
            places.push(ant.position());
        }
    }
    assert!(places.len() > 1);
}

#[test]
fn first_step_follows_a_heading_along_an_axis() {
    let headings = [(0, at(51, 50)), (90, at(50, 51)), (180, at(49, 50)), (270, at(50, 49))];
    for (direction, target) in headings {
        let mut terrarium = Terrarium::empty(NEST);
        let mut ant = Ant::starting_at(&NEST, at(50, 50), direction);
        ant.update_with(&mut terrarium, 0);
        assert_eq!(ant.position(), target);
        assert_eq!(ant.path_positions(), &vec![target]);
        assert!(ant.has_visited(10, 10) || ant.has_visited(9, 10) || ant.has_visited(10, 9));
        assert!(!terrarium.tunnels.contains(10, 10));
        assert_eq!(ant.soil_carried(), 0);
    }
}

#[test]
fn first_step_along_another_heading_covers_no_whole_unit() {
    for direction in [1, 45, 89, 91, 179, 200, 269, 271, 359, 360, -90, 450] {
        let mut terrarium = Terrarium::empty(NEST);
        let mut ant = Ant::starting_at(&NEST, at(52, 53), direction);
        ant.update_with(&mut terrarium, 99);
        assert_eq!(ant.position(), at(52, 53));
        assert_eq!(ant.path_positions(), &vec![at(52, 53)]);
        assert!(ant.has_visited(10, 10));
        assert!(!ant.returning());
    }
}

#[test]
fn first_step_stops_at_the_largest_coordinate() {
    let mut terrarium = Terrarium::empty(NEST);
    let mut ant = Ant::starting_at(&NEST, at(i32::MAX, i32::MIN), 0);
    ant.update_with(&mut terrarium, 0);
    assert_eq!(ant.position(), at(i32::MAX, i32::MIN));
    let mut ant = Ant::starting_at(&NEST, at(i32::MAX, i32::MIN), 270);
    ant.update_with(&mut terrarium, 0);
    assert_eq!(ant.position(), at(i32::MAX, i32::MIN));
    let mut ant = Ant::starting_at(&NEST, at(i32::MAX, i32::MIN), 180);
    ant.update_with(&mut terrarium, 0);
    assert_eq!(ant.position(), at(i32::MAX - 1, i32::MIN));
}

#[test]
fn first_step_outside_the_grid_marks_nothing() {
    let mut terrarium = Terrarium::empty(NEST);
    let mut ant = Ant::starting_at(&NEST, at(-20, 3), 45);
    ant.update_with(&mut terrarium, 0);
    assert_eq!(ant.path_positions(), &vec![at(-20, 3)]);
    for x in 0..WIDTH as i32 {
        for y in 0..HEIGHT as i32 {
            assert!(!ant.has_visited(x, y));
        }
    }
}

#[test]
fn sample_decides_between_two_undug_neighbours() {
    let (mut terrarium, mut ant) = lone_ant(45);
    ant.update_with(&mut terrarium, 0);
    ant.update_with(&mut terrarium, 0x8000_0000);
    assert_eq!(ant.position(), at(5, 0));
    assert!(terrarium.tunnels.contains(1, 0));
    assert!(!terrarium.tunnels.contains(0, 1));
    assert_eq!(ant.soil_carried(), 1);
    assert_eq!(ant.path_positions(), &vec![at(0, 0), at(5, 0)]);
    assert!(ant.has_visited(0, 0));
    assert!(ant.has_visited(1, 0));

    let (mut terrarium, mut ant) = lone_ant(45);
    ant.update_with(&mut terrarium, 0);
    ant.update_with(&mut terrarium, 0x8000_0001);
    assert_eq!(ant.position(), at(0, 5));
    assert!(terrarium.tunnels.contains(0, 1));
    assert!(!terrarium.tunnels.contains(1, 0));
    assert_eq!(ant.soil_carried(), 1);
}

#[test]
fn tunnel_is_preferred_to_soil_by_the_square_of_the_digging_cost() {
    let last_for_tunnel = ((10_000u64 << 32) / 10_001) as u32;
    for (sample, target) in [(last_for_tunnel, at(5, 0)), (last_for_tunnel + 1, at(0, 5))] {
        let (mut terrarium, mut ant) = lone_ant(45);
        terrarium.tunnels.mark(1, 0);
        ant.update_with(&mut terrarium, 0);
        ant.update_with(&mut terrarium, sample);
        assert_eq!(ant.position(), target);
    }
}

#[test]
fn stepping_into_a_tunnel_adds_no_soil() {
    let (mut terrarium, mut ant) = lone_ant(45);
    terrarium.tunnels.mark(1, 0);
    ant.update_with(&mut terrarium, 0);
    ant.update_with(&mut terrarium, 0);
    assert_eq!(ant.position(), at(5, 0));
    assert_eq!(ant.soil_carried(), 0);
    ant.update_with(&mut terrarium, 0);
    assert_eq!(ant.position(), at(10, 0));
    assert_eq!(ant.soil_carried(), 1);
    assert!(terrarium.tunnels.contains(2, 0));
}

#[test]
fn pheromone_draws_the_ant_by_its_seventh_power() {
    // the link to the right holds 2, the link down 1: 128 against 1
    let last_for_right = ((128u64 << 32) / 129) as u32;
    for (sample, target) in [(last_for_right, at(5, 0)), (last_for_right + 1, at(0, 5))] {
        let (mut terrarium, mut ant) = lone_ant(45);
        terrarium.pheromones.deposit(0, 0, 1);
        ant.update_with(&mut terrarium, 0);
        ant.update_with(&mut terrarium, sample);
        assert_eq!(ant.position(), target);
    }
}

#[test]
fn ant_never_steps_on_a_cell_it_has_visited() {
    let (mut terrarium, mut ant) = lone_ant(45);
    let mut sample: u32 = 1;
    let mut seen: Vec<(i32, i32)> = Vec::new();
    for _ in 0..90 {
        let before = ant.position();
        let length = ant.path_positions().len();
        sample = sample.wrapping_mul(1664525).wrapping_add(1013904223);
        ant.update_with(&mut terrarium, sample);
        if ant.path_positions().len() == length + 1 && length > 0 {
            let cell = (ant.position().get_x_grid(), ant.position().get_y_grid());
            assert!(!seen.contains(&cell));
            assert_ne!(cell, (before.get_x_grid(), before.get_y_grid()));
        }
        let cell = (ant.position().get_x_grid(), ant.position().get_y_grid());
        if !seen.contains(&cell) {
            seen.push(cell);
        }
        for (x, y) in &seen {
            assert!(ant.has_visited(*x, *y));
        }
    }
    assert!(seen.len() > 10);
}

#[test]
fn ant_winds_its_way_through_unvisited_cells() {
    let nest = at(450, 300);
    let mut terrarium = Terrarium::empty(nest);
    let mut ant = Ant::starting_at(&nest, at(0, 0), 45);
    ant.update_with(&mut terrarium, 0);
    ant.update_with(&mut terrarium, 0);
    assert_eq!(ant.position(), at(5, 0));
    ant.update_with(&mut terrarium, u32::MAX);
    assert_eq!(ant.position(), at(5, 5));
    ant.update_with(&mut terrarium, 0);
    assert_eq!(ant.position(), at(0, 5));
    assert_eq!(ant.path_positions(), &vec![at(0, 0), at(5, 0), at(5, 5), at(0, 5)]);
    // from (0, 1) the ant can only go down
    ant.update_with(&mut terrarium, 0);
    assert_eq!(ant.position(), at(0, 10));
    ant.update_with(&mut terrarium, 0);
    assert_eq!(ant.position(), at(5, 10));
    ant.update_with(&mut terrarium, 0);
    assert_eq!(ant.position(), at(10, 10));
    ant.update_with(&mut terrarium, 0x5555_5556);
    assert_eq!(ant.position(), at(10, 5));
    ant.update_with(&mut terrarium, u32::MAX);
    assert_eq!(ant.position(), at(10, 0));
    ant.update_with(&mut terrarium, 0);
    assert_eq!(ant.position(), at(15, 0));
    assert!(!ant.returning());
    let dug_before = ant.soil_carried();
    assert_eq!(dug_before, 9);
}

#[test]
fn enclosed_ant_backtracks_and_keeps_exploring() {
    let nest = at(450, 300);
    let mut terrarium = Terrarium::empty(nest);
    let mut ant = Ant::starting_at(&nest, at(5, 0), 45);
    // (1,0), then (0,0), whose other neighbour (0,1) is made unreachable
    // only by having been visited
    ant.update_with(&mut terrarium, 0);
    ant.update_with(&mut terrarium, u32::MAX);
    assert_eq!(ant.position(), at(5, 5));
    ant.update_with(&mut terrarium, 0);
    assert_eq!(ant.position(), at(0, 5));
    ant.update_with(&mut terrarium, 0);
    assert_eq!(ant.position(), at(0, 0));
    assert_eq!(ant.path_positions(), &vec![at(5, 0), at(5, 5), at(0, 5), at(0, 0)]);
    // every neighbour of (0, 0) is visited
    ant.update_with(&mut terrarium, 0);
    assert_eq!(ant.position(), at(0, 5));
    assert_eq!(ant.path_positions(), &vec![at(5, 0), at(5, 5)]);
    assert!(!ant.returning());
    assert!(ant.has_visited(0, 0));
    assert_eq!(ant.soil_carried(), 3);
    // from (0, 1) the ant goes on to (0, 2)
    ant.update_with(&mut terrarium, 0);
    assert_eq!(ant.position(), at(0, 10));
    assert_eq!(ant.path_positions(), &vec![at(5, 0), at(5, 5), at(0, 10)]);
}

#[test]
fn ant_turns_back_in_the_tick_in_which_it_is_full() {
    let (mut terrarium, mut ant) = lone_ant(45);
    ant.update_with(&mut terrarium, 0);
    for dug in 1..=ANT_SOIL_LIMIT {
        assert!(!ant.returning());
        assert_eq!(ant.appearance(), Appearance::Normal);
        ant.update_with(&mut terrarium, 0);
        assert_eq!(ant.soil_carried(), dug);
        assert_eq!(ant.position(), at(5 * dug, 0));
        assert_eq!(ant.returning(), dug == ANT_SOIL_LIMIT);
    }
    assert!(ant.returning());
    assert!(!ant.carrying_food());
    assert_eq!(ant.soil_carried(), 100);
    assert_eq!(ant.appearance(), Appearance::SoilFull);
    assert_eq!(ant.position(), at(500, 0));
}

#[test]
fn full_ant_walks_back_the_way_it_came_and_starts_afresh() {
    let (mut terrarium, mut ant) = lone_ant(45);
    for _ in 0..=ANT_SOIL_LIMIT {
        ant.update_with(&mut terrarium, 0);
    }
    assert!(ant.returning());
    for cell in (6..100).rev() {
        ant.update_with(&mut terrarium, u32::MAX);
        assert_eq!(ant.position(), at(5 * cell, 0));
        assert!(ant.returning());
        assert_eq!(ant.soil_carried(), 100);
    }
    ant.update_with(&mut terrarium, u32::MAX);
    assert_eq!(ant.position(), NEST);
    assert!(!ant.returning());
    assert!(!ant.carrying_food());
    assert_eq!(ant.soil_carried(), 0);
    assert!(ant.path_positions().is_empty());
    assert!(!ant.has_visited(3, 0));
    assert_eq!(ant.appearance(), Appearance::Normal);
    assert_eq!(terrarium.food_amount, 0);
    for x in 0..WIDTH as i32 {
        assert_eq!(terrarium.pheromones.read(x, 0), Some(1));
    }
    for x in 1..=100 {
        assert!(terrarium.tunnels.contains(x, 0));
    }
    assert!(!terrarium.tunnels.contains(0, 0));
    assert!(!terrarium.tunnels.contains(101, 0));
}

#[test]
fn returning_ant_with_nothing_to_go_back_to_stays() {
    let nest = at(450, 300);
    let mut terrarium = Terrarium::empty(nest);
    let mut ant = Ant::starting_at(&nest, at(0, 0), 45);
    for _ in 0..=ANT_SOIL_LIMIT {
        ant.update_with(&mut terrarium, 0);
    }
    assert!(ant.returning());
    for _ in 0..100 {
        ant.update_with(&mut terrarium, 0);
    }
    assert_eq!(ant.position(), at(0, 0));
    assert!(ant.path_positions().is_empty());
    for _ in 0..5 {
        ant.update_with(&mut terrarium, 0);
        assert_eq!(ant.position(), at(0, 0));
        assert!(ant.returning());
        assert_eq!(ant.soil_carried(), 100);
    }
}

#[test]
fn ant_takes_one_unit_of_food_and_turns_back() {
    let (mut terrarium, mut ant) = lone_ant(45);
    terrarium.food_sources.push(FoodSource { position: at(100, 0), amount: 7 });
    for _ in 0..15 {
        ant.update_with(&mut terrarium, 0);
        assert!(!ant.carrying_food());
        assert_eq!(terrarium.food_sources[0].amount, 7);
    }
    assert_eq!(ant.position(), at(70, 0));
    ant.update_with(&mut terrarium, 0);
    assert_eq!(ant.position(), at(75, 0));
    assert!(ant.carrying_food());
    assert!(ant.returning());
    assert_eq!(ant.appearance(), Appearance::CarryingFood);
    assert_eq!(terrarium.food_sources[0].amount, 6);
    assert_eq!(terrarium.food_sources[0].position, at(100, 0));
    assert!(ant.path_positions().is_empty());
    assert!(!ant.has_visited(15, 0));
    assert!(!ant.has_visited(14, 0));
    assert_eq!(ant.soil_carried(), 15);
    assert_eq!(terrarium.food_amount, 0);
}

#[test]
fn ant_with_food_keeps_to_the_tunnels() {
    let (mut terrarium, mut ant) = lone_ant(45);
    terrarium.food_sources.push(FoodSource { position: at(100, 0), amount: 7 });
    for _ in 0..16 {
        ant.update_with(&mut terrarium, 0);
    }
    assert!(ant.carrying_food());
    ant.update_with(&mut terrarium, u32::MAX);
    assert_eq!(ant.position(), at(75, 0));
    assert_eq!(ant.path_positions(), &vec![at(75, 0)]);
    for cell in (6..15).rev() {
        ant.update_with(&mut terrarium, u32::MAX);
        assert_eq!(ant.position(), at(5 * cell, 0));
        assert!(ant.carrying_food());
    }
    assert_eq!(ant.soil_carried(), 15);
    assert_eq!(terrarium.food_sources[0].amount, 6);
    for x in 0..WIDTH as i32 {
        for y in 1..HEIGHT as i32 {
            assert!(!terrarium.tunnels.contains(x, y));
        }
    }
    assert!(!terrarium.tunnels.contains(16, 0));
}

#[test]
fn ant_with_food_and_no_tunnel_ahead_waits() {
    let nest = at(450, 300);
    let mut terrarium = Terrarium::empty(nest);
    terrarium.food_sources.push(FoodSource { position: at(20, 20), amount: 2 });
    let mut ant = Ant::starting_at(&nest, at(20, 20), 45);
    ant.update_with(&mut terrarium, 0);
    assert!(!ant.carrying_food());
    ant.update_with(&mut terrarium, 0);
    assert_eq!(ant.position(), at(15, 20));
    assert!(ant.carrying_food());
    // the only tunnel is the cell that the ant stands on
    ant.update_with(&mut terrarium, 0);
    assert_eq!(ant.path_positions(), &vec![at(15, 20)]);
    ant.update_with(&mut terrarium, 0);
    assert_eq!(ant.position(), at(15, 20));
    assert!(ant.path_positions().is_empty());
    ant.update_with(&mut terrarium, 0);
    assert_eq!(ant.position(), at(15, 20));
    assert_eq!(ant.path_positions(), &vec![at(15, 20)]);
    assert!(ant.carrying_food());
    assert_eq!(terrarium.food_sources[0].amount, 1);
}

#[test]
fn food_next_to_the_nest_is_brought_home_at_once() {
    let (mut terrarium, mut ant) = lone_ant(45);
    terrarium.food_sources.push(FoodSource { position: at(45, 0), amount: 3 });
    ant.update_with(&mut terrarium, 0);
    assert_eq!(terrarium.food_amount, 0);
    for step in 1..=3 {
        ant.update_with(&mut terrarium, 0);
        assert_eq!(ant.position(), at(5 * step, 0));
        assert_eq!(terrarium.food_amount, 0);
    }
    ant.update_with(&mut terrarium, 0);
    assert_eq!(terrarium.food_sources[0].amount, 2);
    assert_eq!(terrarium.food_amount, 1);
    assert_eq!(ant.position(), NEST);
    assert!(!ant.carrying_food());
    assert!(!ant.returning());
    assert_eq!(ant.soil_carried(), 0);
    for x in 0..WIDTH as i32 {
        assert_eq!(terrarium.pheromones.read(x, 0), Some(1));
    }
}

#[test]
fn trail_of_twenty_links_gets_a_twentieth_of_the_intensity_on_each() {
    let (mut terrarium, mut ant) = lone_ant(45);
    terrarium.food_sources.push(FoodSource { position: at(150, 0), amount: 50 });
    for _ in 0..26 {
        ant.update_with(&mut terrarium, 0);
    }
    assert_eq!(ant.position(), at(125, 0));
    assert!(ant.carrying_food());
    for _ in 0..20 {
        assert_eq!(terrarium.food_amount, 0);
        ant.update_with(&mut terrarium, 0);
        for x in 0..WIDTH as i32 {
            assert_eq!(terrarium.pheromones.read(x, 0), Some(1));
        }
    }
    assert_eq!(ant.position(), at(30, 0));
    ant.update_with(&mut terrarium, 0);
    assert_eq!(ant.position(), NEST);
    assert_eq!(terrarium.food_amount, 1);
    let mut laid = 0;
    for x in 0..WIDTH as i32 {
        for y in 0..2 * HEIGHT as i32 {
            let level = terrarium.pheromones.read(x, y).unwrap();
            if y == 0 && 5 <= x && x < 25 {
                assert_eq!(level, 1001);
            } else {
                assert_eq!(level, 1);
            }
            laid += level - 1;
        }
    }
    assert_eq!(laid, 20000);
    assert_eq!(terrarium.food_sources[0].amount, 49);
}

#[test]
fn short_trail_is_filled_up_to_the_maximum() {
    let (mut terrarium, mut ant) = lone_ant(45);
    terrarium.food_sources.push(FoodSource { position: at(65, 0), amount: 50 });
    for _ in 0..9 {
        ant.update_with(&mut terrarium, 0);
    }
    assert_eq!(ant.position(), at(40, 0));
    assert!(ant.carrying_food());
    for _ in 0..4 {
        ant.update_with(&mut terrarium, 0);
    }
    assert_eq!(ant.position(), NEST);
    assert_eq!(terrarium.food_amount, 1);
    // three links share the intensity: 6666 each, far over the maximum
    for x in 0..WIDTH as i32 {
        let level = terrarium.pheromones.read(x, 0).unwrap();
        if 5 <= x && x < 8 {
            assert_eq!(level, 2000);
        } else {
            assert_eq!(level, 1);
        }
    }
}

#[test]
fn ant_looks_by_what_it_carries() {
    let (mut terrarium, mut ant) = lone_ant(45);
    assert_eq!(ant.appearance(), Appearance::Normal);
    terrarium.food_sources.push(FoodSource { position: at(600, 0), amount: 1 });
    for _ in 0..=ANT_SOIL_LIMIT {
        ant.update_with(&mut terrarium, 0);
    }
    assert_eq!(ant.soil_carried(), 100);
    assert_eq!(ant.appearance(), Appearance::SoilFull);
}

#[test]
fn ant_that_finds_food_with_its_last_dig_carries_food() {
    let (mut terrarium, mut ant) = lone_ant(45);
    terrarium.food_sources.push(FoodSource { position: at(525, 0), amount: 1 });
    for _ in 0..=ANT_SOIL_LIMIT {
        ant.update_with(&mut terrarium, 0);
    }
    assert_eq!(ant.position(), at(500, 0));
    assert_eq!(ant.soil_carried(), 100);
    assert!(ant.returning());
    assert!(ant.carrying_food());
    assert_eq!(ant.appearance(), Appearance::CarryingFood);
    assert_eq!(terrarium.food_sources[0].amount, 0);
}

#[test]
fn random_walk_keeps_the_ant_in_the_grid_and_in_order() {
    let nest = at(450, 300);
    let mut terrarium = Terrarium::empty(nest);
    let mut ant = Ant::starting_at(&nest, nest, 45);
    for _ in 0..300 {
        let soil = ant.soil_carried();
        ant.update(&mut terrarium);
        let after = ant.position();
        assert!(0 <= after.get_x_grid() && after.get_x_grid() < WIDTH as i32);
        assert!(0 <= after.get_y_grid() && after.get_y_grid() < HEIGHT as i32);
        assert!(ant.soil_carried() <= ANT_SOIL_LIMIT);
        assert!(ant.soil_carried() == soil || ant.soil_carried() == soil + 1 || after == nest);
        assert!(!ant.carrying_food());
        assert_eq!(ant.returning(), ant.soil_carried() == ANT_SOIL_LIMIT);
    }
}

#[test]
fn ant_without_a_link_to_its_only_neighbour_holds_its_position() {
    let nest = at(450, 300);
    let mut terrarium = Terrarium::empty(nest);
    // the cell of the ant lies left of the grid, so that the link to the
    // one neighbour in the grid is no entry of the lattice
    let mut ant = Ant::starting_at(&nest, at(-5, 0), 45);
    ant.update_with(&mut terrarium, 0);
    assert_eq!(ant.path_positions(), &vec![at(-5, 0)]);
    for sample in [0, 1, 0x8000_0000, u32::MAX] {
        ant.update_with(&mut terrarium, sample);
        assert_eq!(ant.position(), at(-5, 0));
        assert_eq!(ant.path_positions(), &vec![at(-5, 0)]);
        assert_eq!(ant.soil_carried(), 0);
        assert!(!ant.returning());
        assert!(!terrarium.tunnels.contains(0, 0));
    }
}

#[test]
fn ant_outside_the_grid_with_no_neighbour_forgets_and_starts_again() {
    let nest = at(450, 300);
    let mut terrarium = Terrarium::empty(nest);
    let mut ant = Ant::starting_at(&nest, at(-50, -50), 0);
    ant.update_with(&mut terrarium, 0);
    assert_eq!(ant.position(), at(-49, -50));
    assert_eq!(ant.path_positions(), &vec![at(-49, -50)]);
    ant.update_with(&mut terrarium, 0);
    assert_eq!(ant.position(), at(-49, -50));
    assert!(ant.path_positions().is_empty());
    ant.update_with(&mut terrarium, 0);
    assert_eq!(ant.position(), at(-48, -50));
    assert_eq!(ant.path_positions(), &vec![at(-48, -50)]);
}
