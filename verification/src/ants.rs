use crate::behaviour::{
    arrived, count_links, counted, crossings, lemma_chosen_is_candidate, lemma_food_is_counted,
    lemma_link_gets_its_share, lemma_options_bounded, lemma_spread_never_lowers,
    lemma_stepped_never_lowers, lemma_stepped_valid, lemma_tunnels_are_kept, moved, scanned,
    shifted, spread_along, stepped, tunnelled, unvisited, weighed, AntState,
};
use crate::choice::{
    heuristic, lemma_desirability_bounds, pairs, power_of, selected, spin, total_weight, Choice,
    MAX_DESIRABILITY, SAMPLE_RANGE,
};
use crate::config::{
    ANT_SOIL_LIMIT, ANT_START_SPREAD, DESIRABILITY_HEURISTICS, DESIRABILITY_PHEROMONES,
    DIGGING_COST, MAX_PHEROMONES, MIN_PHEROMONES, PHEROMONES_INTENSITY, UNLIMITED_FOOD,
};
use crate::functions::{in_grid, in_lattice, link_of, FoodSource, Position};
use crate::grid::CellGrid;
use crate::pheromones::{in_bounds, link_share, raised};
use crate::random::{random_between, random_sample};
use crate::sequences::{lemma_filter_map_push, lemma_filter_members, lemma_filter_push};
use crate::terrarium::Terrarium;
use crate::world::{lemma_first_food, neighbours, taken_from, World};
use vstd::prelude::*;

verus! {

/// How an ant looks.
#[derive(Clone, Copy, Debug, PartialEq, Eq, Structural)]
pub enum Appearance {
    CarryingFood,
    SoilFull,
    Normal,
}

/// One ant of the colony.
pub struct Ant {
    position: Position,
    nest_position: Position,
    path_positions: Vec<Position>,
    returning: bool,
    carrying_food: bool,
    soil_carried: i32,
    visited_fields: CellGrid,
    direction: i32,
}

impl View for Ant {
    type V = AntState;

    closed spec fn view(&self) -> AntState {
        AntState {
            position: self.position,
            nest_position: self.nest_position,
            path_positions: self.path_positions@,
            returning: self.returning,
            carrying_food: self.carrying_food,
            soil_carried: self.soil_carried as int,
            visited: self.visited_fields@,
            direction: self.direction as int,
        }
    }
}

/// A coordinate moved by `by`, where that is a coordinate.
fn shift(coordinate: i32, by: i32) -> (moved: i32)
    ensures
        moved == shifted(coordinate, by as int),
{
    match coordinate.checked_add(by) {
        Some(moved) => moved,
        None => coordinate,
    }
}

impl Ant {
    /// The ant's memory of visited cells has its full size.
    pub closed spec fn sized(&self) -> bool {
        self.visited_fields.wf()
    }

    /// The ant's memory of visited cells has its full size, and its state is
    /// valid.
    pub closed spec fn wf(&self) -> bool {
        &&& self.sized()
        &&& self@.valid()
    }

    /// An ant that is in order has a valid state and a memory of full size.
    pub proof fn lemma_wf_is_valid(&self)
        requires
            self.wf(),
        ensures
            self@.valid(),
            self.sized(),
    {
    }

    /// An ant for the nest at `pos`, put at random within a few fine units
    /// of it and headed at random. The nest must lie far enough from the
    /// largest and smallest coordinates for such a place to exist.
    pub fn new(pos: &Position) -> (ant: Ant)
        requires
            i32::MIN + ANT_START_SPREAD <= pos.x <= i32::MAX - ANT_START_SPREAD,
            i32::MIN + ANT_START_SPREAD <= pos.y <= i32::MAX - ANT_START_SPREAD,
        ensures
            ant.wf(),
            ant@ == AntState::fresh(*pos, ant@.position, ant@.direction),
            -ANT_START_SPREAD <= ant@.position.x - pos.x <= ANT_START_SPREAD,
            -ANT_START_SPREAD <= ant@.position.y - pos.y <= ANT_START_SPREAD,
            0 <= ant@.direction < 360,
    {
        let random_direction = random_between(0, 359);
        let rand_offset_x = random_between(-ANT_START_SPREAD, ANT_START_SPREAD);
        let rand_offset_y = random_between(-ANT_START_SPREAD, ANT_START_SPREAD);
        let starting_position = Position { x: pos.x + rand_offset_x, y: pos.y + rand_offset_y };
        Ant::starting_at(pos, starting_position, random_direction)
    }

    /// An ant for the nest at `nest`, put at `position` with the heading
    /// `direction`, in degrees.
    pub fn starting_at(nest: &Position, position: Position, direction: i32) -> (ant: Ant)
        ensures
            ant.wf(),
            ant@ == AntState::fresh(*nest, position, direction as int),
    {
        Ant {
            position,
            nest_position: *nest,
            path_positions: Vec::new(),
            returning: false,
            carrying_food: false,
            soil_carried: 0,
            visited_fields: CellGrid::new(),
            direction,
        }
    }

    /// Where the ant is.
    pub fn position(&self) -> (position: Position)
        ensures
            position == self@.position,
    {
        self.position
    }

    /// Where the ant's nest is.
    pub fn nest_position(&self) -> (position: Position)
        ensures
            position == self@.nest_position,
    {
        self.nest_position
    }

    /// Whether the ant is on its way back to the nest.
    pub fn returning(&self) -> (returning: bool)
        ensures
            returning == self@.returning,
    {
        self.returning
    }

    /// Whether the ant carries food.
    pub fn carrying_food(&self) -> (carrying: bool)
        ensures
            carrying == self@.carrying_food,
    {
        self.carrying_food
    }

    /// How much soil the ant carries.
    pub fn soil_carried(&self) -> (soil: i32)
        ensures
            soil == self@.soil_carried,
    {
        self.soil_carried
    }

    /// The ant's heading, in degrees.
    pub fn direction(&self) -> (direction: i32)
        ensures
            direction == self@.direction,
    {
        self.direction
    }

    /// The positions that the ant remembers, the latest last.
    pub fn path_positions(&self) -> (path: &Vec<Position>)
        ensures
            path@ == self@.path_positions,
    {
        &self.path_positions
    }

    /// Whether the ant has visited the cell `(x, y)` on this trip.
    pub fn has_visited(&self, x: i32, y: i32) -> (visited: bool)
        requires
            self.wf(),
        ensures
            visited == self@.visited.contains((x as int, y as int)),
    {
        self.visited_fields.contains(x, y)
    }

    /// How the ant looks.
    pub fn appearance(&self) -> (appearance: Appearance)
        ensures
            appearance == self@.appearance(),
    {
        if self.carrying_food {
            Appearance::CarryingFood
        } else if self.soil_carried == ANT_SOIL_LIMIT {
            Appearance::SoilFull
        } else {
            Appearance::Normal
        }
    }

    /// Lets the ant make its move for one tick.
    pub fn update(&mut self, terrarium: &mut Terrarium)
        requires
            old(self).wf(),
            old(terrarium).wf(),
        ensures
            final(self).wf(),
            final(terrarium).wf(),
            final(terrarium).same_colony(old(terrarium)),
            exists|sample: u32|
                {
                    &&& final(self)@ == #[trigger] stepped(
                        old(self)@,
                        old(terrarium).world(),
                        sample,
                    ).0
                    &&& final(terrarium).world() == stepped(
                        old(self)@,
                        old(terrarium).world(),
                        sample,
                    ).1
                },
            final(self)@.valid(),
            final(terrarium).nest == old(terrarium).nest,
            old(terrarium).tunnels@.subset_of(final(terrarium).tunnels@),
            forall|x: int, y: int|
                in_lattice(x, y) ==> MIN_PHEROMONES <= old(terrarium).pheromones@[(x, y)]
                    <= #[trigger] final(terrarium).pheromones@[(x, y)] <= MAX_PHEROMONES,
            old(terrarium).food_amount <= final(terrarium).food_amount,
            final(terrarium).food_amount <= old(terrarium).food_amount + 1,
            old(self)@.carrying_food && !final(self)@.carrying_food
                ==> final(terrarium).food_amount == counted(old(terrarium).food_amount as int),
    {
        let sample = random_sample();
        self.update_with(terrarium, sample);
    }

    /// Lets the ant make its move for one tick, with `sample` to decide
    /// between the cells it can go to.
    pub fn update_with(&mut self, terrarium: &mut Terrarium, sample: u32)
        requires
            old(self).wf(),
            old(terrarium).wf(),
        ensures
            final(self).wf(),
            final(terrarium).wf(),
            final(terrarium).same_colony(old(terrarium)),
            final(self)@ == stepped(old(self)@, old(terrarium).world(), sample).0,
            final(terrarium).world() == stepped(old(self)@, old(terrarium).world(), sample).1,
            final(self)@.valid(),
            final(terrarium).nest == old(terrarium).nest,
            old(terrarium).tunnels@.subset_of(final(terrarium).tunnels@),
            forall|x: int, y: int|
                in_lattice(x, y) ==> MIN_PHEROMONES <= old(terrarium).pheromones@[(x, y)]
                    <= #[trigger] final(terrarium).pheromones@[(x, y)] <= MAX_PHEROMONES,
            old(terrarium).food_amount <= final(terrarium).food_amount,
            final(terrarium).food_amount <= old(terrarium).food_amount + 1,
            old(self)@.carrying_food && !final(self)@.carrying_food
                ==> final(terrarium).food_amount == counted(old(terrarium).food_amount as int),
    {
        let ghost expected = stepped(self@, terrarium.world(), sample).1.pheromones;
        proof {
            lemma_stepped_valid(self@, terrarium.world(), sample);
            lemma_chosen_is_candidate(self@, terrarium.world(), sample);
            terrarium.pheromones.lemma_levels_bounded();
            lemma_options_bounded(self@, terrarium.world());
            lemma_food_is_counted(self@, terrarium.world(), sample);
            lemma_tunnels_are_kept(self@, terrarium.world(), sample);
            lemma_stepped_never_lowers(self@, terrarium.world(), sample);
            assert forall|x: int, y: int| in_lattice(x, y) implies MIN_PHEROMONES
                <= terrarium.pheromones@[(x, y)] <= #[trigger] expected[(x, y)]
                <= MAX_PHEROMONES by {
                assert(terrarium.world().pheromones[(x, y)] <= stepped(
                    self@,
                    terrarium.world(),
                    sample,
                ).1.pheromones[(x, y)]);
            }
        }
        // The ant is just full of soil
        if self.returning && !self.carrying_food {
            self.go_back_one_move();
            self.scan_for_target(terrarium);
            return;
        }
        // The ant starts a trip
        if self.path_positions.len() == 0 {
            self.take_first_step();
            return;
        }
        let fresh = self.find_neighbours(terrarium);
        let neighbors = if self.carrying_food {
            Ant::keep_tunnels(terrarium, &fresh)
        } else {
            fresh
        };
        if neighbors.len() == 0 {
            self.go_back_one_move();
            return;
        }
        let probabilities = self.calculate_probabilities(terrarium, &neighbors);
        if let Some(new_position) = Ant::select_next_position(&probabilities, sample) {
            self.move_and_dig(terrarium, new_position);
            self.mark_visited();
            self.add_path();
        }
        self.scan_for_target(terrarium);
        self.check_if_full();
    }

    /// Goes back to the latest remembered position that is not where the
    /// ant stands.
    pub(crate) fn go_back_one_move(&mut self)
        ensures
            final(self)@ == old(self)@.backtracked(),
            final(self).sized() == old(self).sized(),
    {
        loop
            invariant
                self@.backtracked() == old(self)@.backtracked(),
                self.visited_fields == old(self).visited_fields,
            decreases self.path_positions@.len(),
        {
            match self.path_positions.pop() {
                Some(previous_move) => {
                    if self.position != previous_move {
                        self.position = previous_move;
                        return;
                    }
                },
                None => {
                    return;
                },
            }
        }
    }

    /// Marks the cell as visited so that the ant won't come back here.
    pub(crate) fn mark_visited(&mut self)
        requires
            old(self).sized(),
        ensures
            final(self).sized(),
            final(self)@ == old(self)@.marked(),
    {
        let (grid_x, grid_y) = (self.position.get_x_grid(), self.position.get_y_grid());
        self.visited_fields.mark(grid_x, grid_y);
    }

    /// Adds the current position to the memory.
    pub(crate) fn add_path(&mut self)
        ensures
            final(self)@ == old(self)@.remembered(),
            final(self).sized() == old(self).sized(),
    {
        self.path_positions.push(self.position);
    }

    /// Takes a first step along the heading.
    pub(crate) fn take_first_step(&mut self)
        requires
            old(self).sized(),
        ensures
            final(self).sized(),
            final(self)@ == old(self)@.bootstrapped(),
    {
        let (offset_x, offset_y): (i32, i32) = if self.direction == 0 {
            (1, 0)
        } else if self.direction == 90 {
            (0, 1)
        } else if self.direction == 180 {
            (-1, 0)
        } else if self.direction == 270 {
            (0, -1)
        } else {
            (0, 0)
        };
        self.position.x = shift(self.position.x, offset_x);
        self.position.y = shift(self.position.y, offset_y);
        self.mark_visited();
        self.add_path();
    }

    /// Finds the neighbours that the ant has not visited.
    pub(crate) fn find_neighbours(&self, terrarium: &Terrarium) -> (valid_neighbours: Vec<Position>)
        requires
            self.sized(),
        ensures
            valid_neighbours@ == neighbours(self@.position).filter(unvisited(self@)),
            forall|i: int|
                0 <= i < valid_neighbours@.len() ==> {
                    &&& neighbours(self@.position).contains(#[trigger] valid_neighbours@[i])
                    &&& !self@.visited.contains(valid_neighbours@[i].cell())
                },
            forall|j: int|
                0 <= j < neighbours(self@.position).len() && !self@.visited.contains(
                    neighbours(self@.position)[j].cell(),
                ) ==> valid_neighbours@.contains(#[trigger] neighbours(self@.position)[j]),
    {
        let all_neighbours = terrarium.get_all_neighbors(self.position);
        let mut valid_neighbours: Vec<Position> = Vec::new();
        let mut i: usize = 0;
        assert(all_neighbours@.take(0).filter(unvisited(self@)) =~= Seq::empty()) by {
            reveal(Seq::filter);
        }
        while i < all_neighbours.len()
            invariant
                i <= all_neighbours@.len(),
                self.visited_fields.wf(),
                valid_neighbours@ == all_neighbours@.take(i as int).filter(unvisited(self@)),
            decreases all_neighbours@.len() - i,
        {
            let neighbour = all_neighbours[i];
            proof {
                lemma_filter_push(all_neighbours@.take(i as int), neighbour, unvisited(self@));
                assert(all_neighbours@.take(i + 1) =~= all_neighbours@.take(i as int).push(
                    neighbour,
                ));
            }
            if !self.visited_fields.contains(neighbour.get_x_grid(), neighbour.get_y_grid()) {
                valid_neighbours.push(neighbour);
            }
            i += 1;
        }
        proof {
            assert(all_neighbours@.take(all_neighbours@.len() as int) =~= all_neighbours@);
            lemma_filter_members(all_neighbours@, unvisited(self@));
        }
        valid_neighbours
    }

    /// Keeps the positions that lie in a tunnel.
    pub(crate) fn keep_tunnels(terrarium: &Terrarium, positions: &Vec<Position>) -> (tunnels: Vec<Position>)
        requires
            terrarium.tunnels.wf(),
        ensures
            tunnels@ == positions@.filter(tunnelled(terrarium.world())),
    {
        let mut tunnels: Vec<Position> = Vec::new();
        let mut i: usize = 0;
        assert(positions@.take(0).filter(tunnelled(terrarium.world())) =~= Seq::empty()) by {
            reveal(Seq::filter);
        }
        while i < positions.len()
            invariant
                i <= positions@.len(),
                terrarium.tunnels.wf(),
                tunnels@ == positions@.take(i as int).filter(tunnelled(terrarium.world())),
            decreases positions@.len() - i,
        {
            let position = positions[i];
            proof {
                lemma_filter_push(
                    positions@.take(i as int),
                    position,
                    tunnelled(terrarium.world()),
                );
                assert(positions@.take(i + 1) =~= positions@.take(i as int).push(position));
            }
            if terrarium.is_tunnel(position) {
                tunnels.push(position);
            }
            i += 1;
        }
        proof {
            assert(positions@.take(positions@.len() as int) =~= positions@);
        }
        tunnels
    }

    /// How much a cell attracts by itself.
    pub(crate) fn heuristics(terrarium: &Terrarium, pos: &Position) -> (weight: u32)
        requires
            terrarium.tunnels.wf(),
        ensures
            weight == heuristic(terrarium.world().tunnels.contains(pos.cell())),
    {
        if terrarium.is_tunnel(*pos) {
            DIGGING_COST
        } else {
            1
        }
    }

    /// Gives each of `neighbors` that has a link to the ant's cell its
    /// weight. The chance of a move is its weight over the sum of all.
    pub(crate) fn calculate_probabilities(&self, terrarium: &Terrarium, neighbors: &Vec<Position>) -> (choices:
        Vec<Choice>)
        requires
            terrarium.tunnels.wf(),
            terrarium.pheromones.wf(),
        ensures
            pairs(choices@) == neighbors@.filter_map(weighed(self@, terrarium.world())),
            choices@.len() <= neighbors@.len(),
            forall|i: int|
                0 <= i < choices@.len() ==> 0 < (#[trigger] choices@[i]).desirability
                    <= MAX_DESIRABILITY,
    {
        let mut choices: Vec<Choice> = Vec::new();
        let ghost weigh = weighed(self@, terrarium.world());
        let mut i: usize = 0;
        assert(pairs(choices@) =~= neighbors@.take(0).filter_map(weigh));
        while i < neighbors.len()
            invariant
                i <= neighbors@.len(),
                terrarium.tunnels.wf(),
                terrarium.pheromones.wf(),
                weigh == weighed(self@, terrarium.world()),
                pairs(choices@) == neighbors@.take(i as int).filter_map(weigh),
                choices@.len() <= i,
                forall|j: int|
                    0 <= j < choices@.len() ==> 0 < (#[trigger] choices@[j]).desirability
                        <= MAX_DESIRABILITY,
            decreases neighbors@.len() - i,
        {
            let neighbor = neighbors[i];
            proof {
                lemma_filter_map_push(neighbors@.take(i as int), neighbor, weigh);
                assert(neighbors@.take(i + 1) =~= neighbors@.take(i as int).push(neighbor));
            }
            if let Some((px, py)) = link_of(&self.position, &neighbor) {
                if let Some(pheromone) = terrarium.pheromones.read(px, py) {
                    let heuristic = Ant::heuristics(terrarium, &neighbor);
                    proof {
                        lemma_desirability_bounds(
                            pheromone as nat,
                            terrarium.world().tunnels.contains(neighbor.cell()),
                        );
                    }
                    let desirability = power_of(pheromone as u128, DESIRABILITY_PHEROMONES)
                        * power_of(heuristic as u128, DESIRABILITY_HEURISTICS);
                    let choice = Choice { position: neighbor, desirability };
                    proof {
                        assert(pairs(choices@.push(choice)) =~= pairs(choices@).push(choice@));
                        assert(weigh(neighbor) == Some(choice@));
                    }
                    choices.push(choice);
                }
            }
            i += 1;
        }
        proof {
            assert(neighbors@.take(neighbors@.len() as int) =~= neighbors@);
        }
        choices
    }

    /// Selects the next move by a sample, each choice with a chance in
    /// proportion to its weight. The weights must be small enough for their
    /// sum to be compared with the sample.
    pub fn select_next_position(choices: &Vec<Choice>, sample: u32) -> (target: Option<Position>)
        requires
            total_weight(pairs(choices@)) * SAMPLE_RANGE <= u128::MAX,
        ensures
            target == selected(pairs(choices@), sample),
    {
        match spin(choices, sample) {
            Some(index) => {
                assert(pairs(choices@)[index as int] == choices@[index as int]@);
                Some(choices[index].position)
            },
            None => None,
        }
    }

    /// Moves the ant to `pos` and digs the cell out if it is no tunnel yet.
    pub(crate) fn move_and_dig(&mut self, terrarium: &mut Terrarium, pos: Position)
        requires
            old(terrarium).wf(),
            in_grid(pos.cell().0, pos.cell().1),
            old(self)@.soil_carried < i32::MAX,
        ensures
            final(terrarium).wf(),
            final(terrarium).same_colony(old(terrarium)),
            final(self)@ == moved(old(self)@, old(terrarium).world(), pos).0,
            final(terrarium).world() == moved(old(self)@, old(terrarium).world(), pos).1,
            final(self).sized() == old(self).sized(),
    {
        self.position = pos;
        let (grid_x, grid_y) = (self.position.get_x_grid(), self.position.get_y_grid());
        if !terrarium.tunnels.contains(grid_x, grid_y) {
            terrarium.tunnels.mark(grid_x, grid_y);
            self.soil_carried += 1;
        }
        proof {
            assert(final(terrarium).tunnels@ =~= old(terrarium).tunnels@.insert(pos.cell()));
        }
    }

    /// Looks for food or for the nest, depending on where the ant is headed.
    pub(crate) fn scan_for_target(&mut self, terrarium: &mut Terrarium)
        requires
            old(self).sized(),
            old(terrarium).wf(),
        ensures
            final(self).sized(),
            final(terrarium).wf(),
            final(terrarium).same_colony(old(terrarium)),
            final(self)@ == scanned(old(self)@, old(terrarium).world()).0,
            final(terrarium).world() == scanned(old(self)@, old(terrarium).world()).1,
    {
        proof {
            lemma_first_food(terrarium.food_sources@, self.position, 0);
        }
        match terrarium.scan_for_food(self.position) {
            Some(food) => {
                if !self.returning {
                    self.found_food(food);
                }
            },
            None => {},
        }
        if terrarium.scan_for_nest(self.position) {
            if self.returning {
                self.found_nest(terrarium);
            }
        }
    }

    /// Checks whether the ant should be returning.
    pub(crate) fn check_if_full(&mut self)
        ensures
            final(self)@ == old(self)@.filled(),
            final(self)@ == (AntState {
                returning: old(self)@.returning || old(self)@.soil_carried >= ANT_SOIL_LIMIT,
                ..old(self)@
            }),
            final(self).sized() == old(self).sized(),
    {
        if self.soil_carried >= ANT_SOIL_LIMIT && !self.returning {
            self.returning = true;
        }
    }

    /// Takes one unit of food and turns the ant back toward the nest.
    pub(crate) fn found_food(&mut self, food_source: &mut FoodSource)
        requires
            old(food_source).amount > 0,
        ensures
            final(self).sized(),
            final(self)@ == old(self)@.fed(),
            *final(food_source) == taken_from(*old(food_source)),
            final(food_source).position == old(food_source).position,
            final(food_source).amount == if UNLIMITED_FOOD {
                old(food_source).amount as int
            } else {
                old(food_source).amount - 1
            },
    {
        if UNLIMITED_FOOD == false {
            food_source.amount -= 1;
        }
        self.returning = true;
        self.carrying_food = true;
        self.visited_fields.clear();
        self.path_positions.clear();
    }

    /// Brings the ant home: it leaves its food and a trail of pheromones,
    /// and starts afresh from the nest.
    pub(crate) fn found_nest(&mut self, terrarium: &mut Terrarium)
        requires
            old(terrarium).wf(),
        ensures
            final(self).sized(),
            final(terrarium).wf(),
            final(terrarium).same_colony(old(terrarium)),
            final(self)@ == arrived(old(self)@, old(terrarium).world()).0,
            final(terrarium).world() == arrived(old(self)@, old(terrarium).world()).1,
    {
        if self.carrying_food {
            self.spread_pheromones(terrarium);
            self.carrying_food = false;
            terrarium.add_food();
        }
        self.position = self.nest_position;
        self.returning = false;
        self.soil_carried = 0;
        self.visited_fields.clear();
        self.path_positions.clear();
    }

    /// Counts the links along the path that the ant remembers.
    pub(crate) fn trail_links(&self) -> (links: usize)
        ensures
            links == count_links(self@.path_positions),
    {
        let length = self.path_positions.len();
        if length < 2 {
            return 0;
        }
        let mut links: usize = 0;
        let mut i: usize = 1;
        assert(count_links(self.path_positions@.take(1)) == 0);
        while i < length
            invariant
                1 <= i <= length,
                length == self.path_positions@.len(),
                links < i,
                links == count_links(self.path_positions@.take(i as int)),
            decreases length - i,
        {
            proof {
                assert(self.path_positions@.take(i + 1).drop_last() =~= self.path_positions@.take(
                    i as int,
                ));
            }
            if link_of(&self.path_positions[i], &self.path_positions[i - 1]).is_some() {
                links += 1;
            }
            i += 1;
        }
        proof {
            assert(self.path_positions@.take(length as int) =~= self.path_positions@);
        }
        links
    }

    /// Spreads pheromones over the links of the path that the ant
    /// remembers, and forgets the path.
    pub(crate) fn spread_pheromones(&mut self, terrarium: &mut Terrarium)
        requires
            old(terrarium).wf(),
        ensures
            final(terrarium).wf(),
            final(terrarium).same_colony(old(terrarium)),
            final(terrarium).world() == (World {
                pheromones: spread_along(
                    old(terrarium).world().pheromones,
                    old(self)@.path_positions,
                    link_share(count_links(old(self)@.path_positions)),
                ),
                ..old(terrarium).world()
            }),
            final(self)@ == (AntState { path_positions: Seq::empty(), ..old(self)@ }),
            final(self).sized() == old(self).sized(),
            forall|x: int, y: int|
                in_lattice(x, y) ==> old(terrarium).pheromones@[(x, y)]
                    <= #[trigger] final(terrarium).pheromones@[(x, y)] <= MAX_PHEROMONES,
            forall|x: int, y: int|
                in_lattice(x, y) && crossings(old(self)@.path_positions, x, y) == 1
                    ==> #[trigger] final(terrarium).pheromones@[(x, y)] == raised(
                    old(terrarium).pheromones@[(x, y)],
                    PHEROMONES_INTENSITY as nat / count_links(old(self)@.path_positions),
                ),
    {
        proof {
            terrarium.pheromones.lemma_levels_bounded();
        }
        let links = self.trail_links();
        let spread_value: u32 = if links == 0 {
            0
        } else {
            (PHEROMONES_INTENSITY as usize / links) as u32
        };
        loop
            invariant
                terrarium.wf(),
                terrarium.same_colony(old(terrarium)),
                terrarium.world() == (World {
                    pheromones: terrarium.world().pheromones,
                    ..old(terrarium).world()
                }),
                self@ == (AntState { path_positions: self@.path_positions, ..old(self)@ }),
                self.visited_fields == old(self).visited_fields,
                in_bounds(old(terrarium).world().pheromones),
                spread_value == link_share(count_links(old(self)@.path_positions)),
                spread_along(
                    terrarium.world().pheromones,
                    self@.path_positions,
                    spread_value as nat,
                ) == spread_along(
                    old(terrarium).world().pheromones,
                    old(self)@.path_positions,
                    spread_value as nat,
                ),
            decreases self.path_positions@.len(),
        {
            let ghost before = self.path_positions@;
            match self.path_positions.pop() {
                Some(pos_1) => {
                    let remaining = self.path_positions.len();
                    proof {
                        assert(before.drop_last() =~= self.path_positions@);
                    }
                    if remaining > 0 {
                        let pos_2 = self.path_positions[remaining - 1];
                        if let Some((px, py)) = link_of(&pos_1, &pos_2) {
                            terrarium.pheromones.deposit(px, py, spread_value);
                        }
                    }
                },
                None => {
                    proof {
                        assert(self@.path_positions =~= Seq::empty());
                        let field = old(terrarium).world().pheromones;
                        let path = old(self)@.path_positions;
                        lemma_spread_never_lowers(field, path, spread_value as nat);
                        assert forall|x: int, y: int|
                            in_lattice(x, y) && crossings(path, x, y) == 1 implies spread_along(
                            field,
                            path,
                            spread_value as nat,
                        )[(x, y)] == raised(
                            field[(x, y)],
                            PHEROMONES_INTENSITY as nat / count_links(path),
                        ) by {
                            lemma_link_gets_its_share(field, path, x, y);
                        }
                    }
                    return;
                },
            }
        }
    }
}

} // verus!
