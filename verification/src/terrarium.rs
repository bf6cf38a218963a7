use crate::ants::Ant;
use crate::behaviour::{lemma_ticked_only_adds, marched, samples_for, ticked, AntState};
use crate::config::{
    ANT_COUNT, ANT_START_SPREAD, CELL_SIZE, FOOD_AMOUNT_PER_SOURCE, FOOD_DETECTION_RANGE,
    FOOD_DISTANCE, FOOD_MARGIN, FOOD_PLACEMENT_ATTEMPTS, FOOD_SOURCES_COUNT, HEIGHT,
    NEST_DETECTION_RANGE, WIDTH,
};
use crate::functions::{FoodSource, GameState, Position};
use crate::grid::CellGrid;
use crate::pheromones::{bare_field, in_bounds, PheromoneField};
use crate::random::{random_between, random_sample};
use crate::sequences::lemma_filter_push;
use crate::world::{
    cell_distance, corner_of, far_from_nest, first_food, gap, grid_corner, has_food, near_nest,
    neighbours, pruned, refreshed, World,
};
use vstd::prelude::*;

verus! {

/// The states of some ants.
pub open spec fn colony_of(ants: Seq<Ant>) -> Seq<AntState> {
    ants.map_values(|ant: Ant| ant@)
}

/// The position of the nest of a new terrarium: the middle of the grid.
pub open spec fn centre() -> Position {
    Position { x: (WIDTH * CELL_SIZE / 2) as i32, y: (HEIGHT * CELL_SIZE / 2) as i32 }
}

/// Whether a food source is one that a new terrarium may hold: a full
/// source at the corner of a cell that keeps clear of the border and of the
/// nest.
pub open spec fn initial_food(nest: Position, source: FoodSource) -> bool {
    &&& source.amount == FOOD_AMOUNT_PER_SOURCE
    &&& far_from_nest(nest, source.position)
    &&& exists|x: int, y: int|
        {
            &&& FOOD_MARGIN <= x < WIDTH - FOOD_MARGIN
            &&& FOOD_MARGIN <= y < HEIGHT - FOOD_MARGIN
            &&& source.position == #[trigger] corner_of(x, y)
        }
}

/// The ground with its tunnels and pheromones, the nest, the food sources
/// and the colony.
pub struct Terrarium {
    pub state: GameState,
    pub nest: Position,
    pub food_amount: i32,
    pub ants: Vec<Ant>,
    pub pheromones: PheromoneField,
    pub tunnels: CellGrid,
    pub food_sources: Vec<FoodSource>,
}

/// The distance between two numbers.
fn gap_of(a: i32, b: i32) -> (distance: i64)
    ensures
        distance == gap(a as int, b as int),
{
    if a >= b {
        a as i64 - b as i64
    } else {
        b as i64 - a as i64
    }
}

/// The distance between the cells of two positions.
fn cell_distance_of(a: &Position, b: &Position) -> (distance: i64)
    ensures
        distance == cell_distance(*a, *b),
{
    gap_of(a.get_x_grid(), b.get_x_grid()) + gap_of(a.get_y_grid(), b.get_y_grid())
}

/// Adds the corner of the cell `(x, y)` to `cells` if it is a cell of the
/// grid.
fn push_grid_corner(cells: &mut Vec<Position>, x: i32, y: i32)
    ensures
        final(cells)@ == old(cells)@ + grid_corner(x as int, y as int),
{
    if x >= 0 && y >= 0 && x < WIDTH as i32 && y < HEIGHT as i32 {
        cells.push(Position { x: x * CELL_SIZE, y: y * CELL_SIZE });
    }
}

impl Terrarium {
    /// Both grids have their full size, and every ant of the colony is in
    /// order.
    pub open spec fn wf(&self) -> bool {
        &&& self.pheromones.wf()
        &&& self.tunnels.wf()
        &&& forall|i: int| 0 <= i < self.ants@.len() ==> (#[trigger] self.ants@[i]).wf()
    }

    /// Whether the colony and the state of the game are those of `before`.
    pub open spec fn same_colony(&self, before: &Terrarium) -> bool {
        &&& self.state == before.state
        &&& self.ants == before.ants
    }

    /// What the ants share.
    pub open spec fn world(&self) -> World {
        World {
            nest: self.nest,
            food_amount: self.food_amount as int,
            tunnels: self.tunnels@,
            pheromones: self.pheromones@,
            food_sources: self.food_sources@,
        }
    }

    /// The states of the ants of the colony.
    pub open spec fn colony(&self) -> Seq<AntState> {
        colony_of(self.ants@)
    }

    /// A terrarium with its nest in the middle, a colony of ants placed at
    /// random around the nest, and `FOOD_SOURCES_COUNT` food sources placed
    /// at random away from it.
    pub fn new() -> (terrarium: Terrarium)
        ensures
            terrarium.wf(),
            terrarium.state == GameState::Playing,
            terrarium.world().nest == centre(),
            terrarium.world().food_amount == 0,
            terrarium.world().tunnels == Set::<(int, int)>::empty(),
            terrarium.world().pheromones == bare_field(),
            terrarium.world().food_sources.len() == FOOD_SOURCES_COUNT,
            forall|i: int|
                0 <= i < terrarium.world().food_sources.len() ==> initial_food(
                    centre(),
                    #[trigger] terrarium.world().food_sources[i],
                ),
            terrarium.colony().len() == ANT_COUNT,
            forall|i: int|
                0 <= i < terrarium.colony().len() ==> {
                    let ant = #[trigger] terrarium.colony()[i];
                    &&& ant == AntState::fresh(centre(), ant.position, ant.direction)
                    &&& -ANT_START_SPREAD <= ant.position.x - centre().x <= ANT_START_SPREAD
                    &&& -ANT_START_SPREAD <= ant.position.y - centre().y <= ANT_START_SPREAD
                    &&& 0 <= ant.direction < 360
                },
    {
        let nest_pos = Position {
            x: WIDTH as i32 * CELL_SIZE / 2,
            y: HEIGHT as i32 * CELL_SIZE / 2,
        };
        let mut terrarium = Terrarium::empty(nest_pos);
        // Generate random food sources
        let mut attempts: usize = 0;
        while terrarium.food_sources.len() < FOOD_SOURCES_COUNT && attempts
            < FOOD_PLACEMENT_ATTEMPTS
            invariant
                terrarium.wf(),
                terrarium.state == GameState::Playing,
                terrarium.nest == nest_pos,
                nest_pos == centre(),
                terrarium.food_amount == 0,
                terrarium.ants@.len() == 0,
                terrarium.tunnels@ == Set::<(int, int)>::empty(),
                terrarium.pheromones@ == bare_field(),
                terrarium.food_sources@.len() <= FOOD_SOURCES_COUNT,
                forall|i: int|
                    0 <= i < terrarium.food_sources@.len() ==> initial_food(
                        centre(),
                        #[trigger] terrarium.food_sources@[i],
                    ),
            decreases FOOD_PLACEMENT_ATTEMPTS - attempts,
        {
            let food_x = random_between(FOOD_MARGIN, WIDTH as i32 - FOOD_MARGIN - 1);
            let food_y = random_between(FOOD_MARGIN, HEIGHT as i32 - FOOD_MARGIN - 1);
            let position = Position { x: food_x * CELL_SIZE, y: food_y * CELL_SIZE };
            assert(position == corner_of(food_x as int, food_y as int));
            terrarium.spawn_food(position);
            attempts += 1;
        }
        // A source that the draws have found no room for goes to the corner
        // of the area, which is far from the nest
        while terrarium.food_sources.len() < FOOD_SOURCES_COUNT
            invariant
                terrarium.wf(),
                terrarium.state == GameState::Playing,
                terrarium.nest == nest_pos,
                nest_pos == centre(),
                terrarium.food_amount == 0,
                terrarium.ants@.len() == 0,
                terrarium.tunnels@ == Set::<(int, int)>::empty(),
                terrarium.pheromones@ == bare_field(),
                terrarium.food_sources@.len() <= FOOD_SOURCES_COUNT,
                forall|i: int|
                    0 <= i < terrarium.food_sources@.len() ==> initial_food(
                        centre(),
                        #[trigger] terrarium.food_sources@[i],
                    ),
            decreases FOOD_SOURCES_COUNT - terrarium.food_sources@.len(),
        {
            let position = Position { x: FOOD_MARGIN * CELL_SIZE, y: FOOD_MARGIN * CELL_SIZE };
            assert(position == corner_of(FOOD_MARGIN as int, FOOD_MARGIN as int));
            terrarium.spawn_food(position);
        }
        // Generate ants
        let mut count: usize = 0;
        while count < ANT_COUNT
            invariant
                count <= ANT_COUNT,
                terrarium.wf(),
                terrarium.state == GameState::Playing,
                terrarium.nest == nest_pos,
                nest_pos == centre(),
                terrarium.food_amount == 0,
                terrarium.tunnels@ == Set::<(int, int)>::empty(),
                terrarium.pheromones@ == bare_field(),
                terrarium.food_sources@.len() == FOOD_SOURCES_COUNT,
                forall|i: int|
                    0 <= i < terrarium.food_sources@.len() ==> initial_food(
                        centre(),
                        #[trigger] terrarium.food_sources@[i],
                    ),
                terrarium.ants@.len() == count,
                forall|i: int|
                    0 <= i < terrarium.ants@.len() ==> {
                        let ant = (#[trigger] terrarium.ants@[i])@;
                        &&& ant == AntState::fresh(centre(), ant.position, ant.direction)
                        &&& -ANT_START_SPREAD <= ant.position.x - centre().x <= ANT_START_SPREAD
                        &&& -ANT_START_SPREAD <= ant.position.y - centre().y <= ANT_START_SPREAD
                        &&& 0 <= ant.direction < 360
                    },
            decreases ANT_COUNT - count,
        {
            let ant = Ant::new(&nest_pos);
            terrarium.ants.push(ant);
            count += 1;
        }
        terrarium
    }

    /// A terrarium around a nest, with no tunnel dug, no pheromone laid, no
    /// food and no ants.
    pub fn empty(nest: Position) -> (terrarium: Terrarium)
        ensures
            terrarium.wf(),
            terrarium.state == GameState::Playing,
            terrarium.ants@.len() == 0,
            terrarium.world().nest == nest,
            terrarium.world().food_amount == 0,
            terrarium.world().tunnels == Set::<(int, int)>::empty(),
            terrarium.world().food_sources == Seq::<FoodSource>::empty(),
            terrarium.world().pheromones == bare_field(),
    {
        Terrarium {
            state: GameState::Playing,
            nest,
            food_amount: 0,
            ants: Vec::new(),
            pheromones: PheromoneField::new(),
            tunnels: CellGrid::new(),
            food_sources: Vec::new(),
        }
    }

    /// The cells of the grid next to the cell of `position`.
    pub fn get_all_neighbors(&self, position: Position) -> (cells: Vec<Position>)
        ensures
            cells@ == neighbours(position),
    {
        let mut cells: Vec<Position> = Vec::new();
        let x = position.get_x_grid();
        let y = position.get_y_grid();
        push_grid_corner(&mut cells, x - 1, y);
        push_grid_corner(&mut cells, x + 1, y);
        push_grid_corner(&mut cells, x, y - 1);
        push_grid_corner(&mut cells, x, y + 1);
        cells
    }

    /// The first food source within reach of `pos` that has food left.
    pub fn scan_for_food(&mut self, pos: Position) -> (found: Option<&mut FoodSource>)
        ensures
            match found {
                Some(source) => {
                    &&& first_food(old(self).food_sources@, pos, 0) matches Some(index)
                    &&& *source == old(self).food_sources@[index]
                    &&& final(self).food_sources@ == old(self).food_sources@.update(
                        index,
                        *final(source),
                    )
                },
                None => {
                    &&& first_food(old(self).food_sources@, pos, 0) is None
                    &&& final(self).food_sources@ == old(self).food_sources@
                },
            },
            final(self).state == old(self).state,
            final(self).nest == old(self).nest,
            final(self).food_amount == old(self).food_amount,
            final(self).ants == old(self).ants,
            final(self).pheromones == old(self).pheromones,
            final(self).tunnels == old(self).tunnels,
    {
        let mut i: usize = 0;
        while i < self.food_sources.len()
            invariant
                i <= self.food_sources@.len(),
                *self == *old(self),
                first_food(self.food_sources@, pos, 0) == first_food(
                    self.food_sources@,
                    pos,
                    i as int,
                ),
            decreases self.food_sources@.len() - i,
        {
            let within = cell_distance_of(&self.food_sources[i].position, &pos)
                <= FOOD_DETECTION_RANGE as i64;
            if within && self.food_sources[i].amount > 0 {
                return Some(&mut self.food_sources[i]);
            }
            i += 1;
        }
        None
    }

    /// Whether `pos` is within reach of the nest.
    pub fn scan_for_nest(&self, pos: Position) -> (near: bool)
        ensures
            near == near_nest(self.nest, pos),
    {
        gap_of(self.nest.x, pos.x) + gap_of(self.nest.y, pos.y) <= NEST_DETECTION_RANGE as i64
    }

    /// Whether the cell of `position` is a tunnel.
    pub fn is_tunnel(&self, position: Position) -> (dug: bool)
        requires
            self.tunnels.wf(),
        ensures
            dug == self.tunnels@.contains(position.cell()),
    {
        self.tunnels.contains(position.get_x_grid(), position.get_y_grid())
    }

    /// Puts a fresh food source at `pos`, unless that is too close to the
    /// nest.
    pub fn spawn_food(&mut self, pos: Position)
        ensures
            final(self).food_sources@ == if far_from_nest(old(self).nest, pos) {
                old(self).food_sources@.push(
                    FoodSource { position: pos, amount: FOOD_AMOUNT_PER_SOURCE },
                )
            } else {
                old(self).food_sources@
            },
            final(self).state == old(self).state,
            final(self).nest == old(self).nest,
            final(self).food_amount == old(self).food_amount,
            final(self).ants == old(self).ants,
            final(self).pheromones == old(self).pheromones,
            final(self).tunnels == old(self).tunnels,
    {
        if cell_distance_of(&self.nest, &pos) > FOOD_DISTANCE as i64 {
            self.food_sources.push(FoodSource { position: pos, amount: FOOD_AMOUNT_PER_SOURCE });
        }
    }

    /// Counts one more unit of food brought to the nest. The count stops at
    /// the largest number it can hold.
    pub fn add_food(&mut self)
        ensures
            final(self).food_amount == if old(self).food_amount < i32::MAX {
                old(self).food_amount + 1
            } else {
                old(self).food_amount as int
            },
            final(self).state == old(self).state,
            final(self).nest == old(self).nest,
            final(self).ants == old(self).ants,
            final(self).pheromones == old(self).pheromones,
            final(self).tunnels == old(self).tunnels,
            final(self).food_sources == old(self).food_sources,
    {
        if self.food_amount < i32::MAX {
            self.food_amount += 1;
        }
    }

    /// Takes away the food sources that are used up.
    pub fn remove_depleted(&mut self)
        ensures
            final(self).food_sources@ == pruned(old(self).food_sources@),
            final(self).state == old(self).state,
            final(self).nest == old(self).nest,
            final(self).food_amount == old(self).food_amount,
            final(self).ants == old(self).ants,
            final(self).pheromones == old(self).pheromones,
            final(self).tunnels == old(self).tunnels,
    {
        let mut kept: Vec<FoodSource> = Vec::new();
        let mut i: usize = 0;
        assert(self.food_sources@.take(0).filter(has_food()) =~= Seq::empty()) by {
            reveal(Seq::filter);
        }
        while i < self.food_sources.len()
            invariant
                i <= self.food_sources@.len(),
                *self == *old(self),
                kept@ == self.food_sources@.take(i as int).filter(has_food()),
            decreases self.food_sources@.len() - i,
        {
            let food = self.food_sources[i];
            proof {
                lemma_filter_push(self.food_sources@.take(i as int), food, has_food());
                assert(self.food_sources@.take(i + 1) =~= self.food_sources@.take(i as int).push(
                    food,
                ));
            }
            if food.amount > 0 {
                kept.push(food);
            }
            i += 1;
        }
        proof {
            assert(self.food_sources@.take(self.food_sources@.len() as int)
                =~= self.food_sources@);
        }
        self.food_sources = kept;
    }

    /// Stops a running simulation, and sets a stopped one going again.
    pub fn toggle_pause(&mut self)
        ensures
            final(self).state == match old(self).state {
                GameState::Playing => GameState::Paused,
                GameState::Paused => GameState::Playing,
            },
            final(self).nest == old(self).nest,
            final(self).food_amount == old(self).food_amount,
            final(self).ants == old(self).ants,
            final(self).pheromones == old(self).pheromones,
            final(self).tunnels == old(self).tunnels,
            final(self).food_sources == old(self).food_sources,
    {
        self.state = match self.state {
            GameState::Playing => GameState::Paused,
            GameState::Paused => GameState::Playing,
        };
    }

    /// Advances the simulation by one tick. While the simulation is stopped
    /// nothing changes.
    pub fn update(&mut self)
        requires
            old(self).wf(),
        ensures
            final(self).wf(),
            final(self).state == old(self).state,
            old(self).state == GameState::Paused ==> final(self).world() == old(self).world()
                && final(self).colony() == old(self).colony(),
            old(self).state == GameState::Playing ==> exists|samples: Seq<u32>|
                {
                    &&& samples.len() == old(self).colony().len()
                    &&& final(self).world() == (#[trigger] ticked(
                        old(self).world(),
                        old(self).colony(),
                        samples,
                    )).0
                    &&& final(self).colony() == ticked(
                        old(self).world(),
                        old(self).colony(),
                        samples,
                    ).1
                },
            final(self).nest == old(self).nest,
            final(self).ants@.len() == old(self).ants@.len(),
            old(self).tunnels@.subset_of(final(self).tunnels@),
            old(self).food_amount <= final(self).food_amount,
            final(self).food_amount <= old(self).food_amount + old(self).ants@.len(),
            in_bounds(final(self).pheromones@),
    {
        proof {
            self.pheromones.lemma_levels_bounded();
        }
        match self.state {
            GameState::Playing => {
                let mut samples: Vec<u32> = Vec::new();
                let mut i: usize = 0;
                while i < self.ants.len()
                    invariant
                        i <= self.ants@.len(),
                        *self == *old(self),
                        samples@.len() == i,
                    decreases self.ants@.len() - i,
                {
                    samples.push(random_sample());
                    i += 1;
                }
                self.update_with(&samples);
                proof {
                    assert(samples_for(samples@, old(self).colony().len()) =~= samples@);
                }
            },
            GameState::Paused => {},
        }
    }

    /// Advances the simulation by one tick, with the samples by which the
    /// ants decide, in the order of the colony. An ant without a sample
    /// decides by the sample 0. While the simulation is stopped nothing
    /// changes.
    pub fn update_with(&mut self, samples: &Vec<u32>)
        requires
            old(self).wf(),
        ensures
            final(self).wf(),
            final(self).state == old(self).state,
            final(self).world() == match old(self).state {
                GameState::Playing => ticked(
                    old(self).world(),
                    old(self).colony(),
                    samples_for(samples@, old(self).colony().len()),
                ).0,
                GameState::Paused => old(self).world(),
            },
            final(self).colony() == match old(self).state {
                GameState::Playing => ticked(
                    old(self).world(),
                    old(self).colony(),
                    samples_for(samples@, old(self).colony().len()),
                ).1,
                GameState::Paused => old(self).colony(),
            },
            final(self).nest == old(self).nest,
            final(self).ants@.len() == old(self).ants@.len(),
            old(self).tunnels@.subset_of(final(self).tunnels@),
            old(self).food_amount <= final(self).food_amount,
            final(self).food_amount <= old(self).food_amount + old(self).ants@.len(),
            in_bounds(final(self).pheromones@),
    {
        proof {
            self.pheromones.lemma_levels_bounded();
            lemma_ticked_only_adds(
                self.world(),
                self.colony(),
                samples_for(samples@, self.colony().len()),
            );
        }
        match self.state {
            GameState::Playing => {
                // Deletes dead food sources
                self.remove_depleted();
                // Update pheromones
                self.pheromones.evaporate_all();
                // Update ants
                let mut ants: Vec<Ant> = Vec::new();
                std::mem::swap(&mut self.ants, &mut ants);
                let ghost start = refreshed(old(self).world());
                let ghost colony = old(self).colony();
                let ghost decisions = samples_for(samples@, colony.len());
                assert(colony_of(ants@) =~= colony);
                let mut i: usize = 0;
                while i < ants.len()
                    invariant
                        i <= ants@.len(),
                        ants@.len() == colony.len(),
                        decisions == samples_for(samples@, colony.len()),
                        self.wf(),
                        self.state == GameState::Playing,
                        self.ants@.len() == 0,
                        forall|j: int| 0 <= j < ants@.len() ==> (#[trigger] ants@[j]).wf(),
                        self.world() == marched(start, colony, decisions, i as int).0,
                        colony_of(ants@) == marched(start, colony, decisions, i as int).1,
                    decreases ants@.len() - i,
                {
                    let ghost before = ants@;
                    let sample = if i < samples.len() {
                        samples[i]
                    } else {
                        0
                    };
                    ants[i].update_with(self, sample);
                    proof {
                        assert(colony_of(ants@) =~= colony_of(before).update(
                            i as int,
                            ants@[i as int]@,
                        ));
                    }
                    i += 1;
                }
                // Ants go back to terrarium
                self.ants = ants;
                proof {
                    self.pheromones.lemma_levels_bounded();
                    assert(self.ants@.len() == colony_of(self.ants@).len());
                }
            },
            GameState::Paused => {},
        }
    }
}

} // verus!
