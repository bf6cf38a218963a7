use crate::ants::Appearance;
use crate::choice::{
    desirability, lemma_desirability_bounds, lemma_first_reaching, lemma_weight_before_bounded,
    lemma_weight_before_grows, roulette, selected, total_weight, weight_before, MAX_DESIRABILITY,
};
use crate::config::{ANT_SOIL_LIMIT, MAX_PHEROMONES, MIN_PHEROMONES, PHEROMONES_INTENSITY};
use crate::functions::{in_grid, in_lattice, link_between, Position};
use crate::pheromones::{
    deposited, in_bounds, lemma_deposit_in_bounds, lemma_evaporation_in_bounds, link_share, raised,
};
use crate::sequences::lemma_filter_map_len;
use crate::world::{first_food, near_nest, neighbours, refreshed, taken_from, World};
use vstd::prelude::*;

verus! {

/// What an ant knows and carries.
#[verifier::ext_equal]
pub struct AntState {
    pub position: Position,
    pub nest_position: Position,
    /// The positions that the ant has stepped on, the latest last.
    pub path_positions: Seq<Position>,
    pub returning: bool,
    pub carrying_food: bool,
    pub soil_carried: int,
    /// The cells that the ant will not step on again on this trip.
    pub visited: Set<(int, int)>,
    /// The heading, in degrees.
    pub direction: int,
}

/// The whole fine units that one step along a heading covers on each axis.
/// Only a heading along an axis covers a whole unit.
pub open spec fn heading_step(direction: int) -> (int, int) {
    if direction == 0 {
        (1, 0)
    } else if direction == 90 {
        (0, 1)
    } else if direction == 180 {
        (-1, 0)
    } else if direction == 270 {
        (0, -1)
    } else {
        (0, 0)
    }
}

/// A coordinate moved by `by`, or left as it is where the result would not
/// be a coordinate.
pub open spec fn shifted(coordinate: i32, by: int) -> i32 {
    if i32::MIN <= coordinate + by <= i32::MAX {
        (coordinate + by) as i32
    } else {
        coordinate
    }
}

impl AntState {
    /// An ant carries no more soil than it can, turns back as soon as it is
    /// full, and heads for the nest while it carries food.
    pub open spec fn valid(self) -> bool {
        &&& 0 <= self.soil_carried <= ANT_SOIL_LIMIT
        &&& self.soil_carried == ANT_SOIL_LIMIT ==> self.returning
        &&& self.carrying_food ==> self.returning
        &&& forall|x: int, y: int| #[trigger] self.visited.contains((x, y)) ==> in_grid(x, y)
    }

    /// An ant that has just been put at `position`, with its nest at
    /// `nest_position`.
    pub open spec fn fresh(nest_position: Position, position: Position, direction: int) -> AntState {
        AntState {
            position,
            nest_position,
            path_positions: Seq::empty(),
            returning: false,
            carrying_food: false,
            soil_carried: 0,
            visited: Set::empty(),
            direction,
        }
    }

    /// The ant after one move back: it drops the positions it remembers
    /// from the latest on, up to and including the first that is not where
    /// it stands, and goes there. With no such position it stays where it
    /// is and remembers nothing.
    pub open spec fn backtracked(self) -> AntState
        decreases self.path_positions.len(),
    {
        if self.path_positions.len() == 0 {
            self
        } else {
            let previous = self.path_positions.last();
            let rest = AntState { path_positions: self.path_positions.drop_last(), ..self };
            if previous != self.position {
                AntState { position: previous, ..rest }
            } else {
                rest.backtracked()
            }
        }
    }

    /// The ant after it has marked the cell it stands on as visited.
    pub open spec fn marked(self) -> AntState {
        let (x, y) = self.position.cell();
        if in_grid(x, y) {
            AntState { visited: self.visited.insert((x, y)), ..self }
        } else {
            self
        }
    }

    /// The ant after it has added its position to those it remembers.
    pub open spec fn remembered(self) -> AntState {
        AntState { path_positions: self.path_positions.push(self.position), ..self }
    }

    /// The ant after a first step, taken along its heading.
    pub open spec fn bootstrapped(self) -> AntState {
        let step = heading_step(self.direction);
        let position = Position {
            x: shifted(self.position.x, step.0),
            y: shifted(self.position.y, step.1),
        };
        AntState { position, ..self }.marked().remembered()
    }

    /// The ant after it has checked its load: a full ant turns back.
    pub open spec fn filled(self) -> AntState {
        if self.soil_carried >= ANT_SOIL_LIMIT && !self.returning {
            AntState { returning: true, ..self }
        } else {
            self
        }
    }

    /// The ant after it has picked up food: it turns back and starts a new
    /// trip.
    pub open spec fn fed(self) -> AntState {
        AntState {
            returning: true,
            carrying_food: true,
            visited: Set::empty(),
            path_positions: Seq::empty(),
            ..self
        }
    }

    /// The ant after it has come home: it stands on its nest again, with
    /// nothing carried and nothing remembered.
    pub open spec fn rested(self) -> AntState {
        AntState {
            position: self.nest_position,
            returning: false,
            carrying_food: false,
            soil_carried: 0,
            visited: Set::empty(),
            path_positions: Seq::empty(),
            ..self
        }
    }

    /// How the ant looks.
    pub open spec fn appearance(self) -> Appearance {
        if self.carrying_food {
            Appearance::CarryingFood
        } else if self.soil_carried == ANT_SOIL_LIMIT {
            Appearance::SoilFull
        } else {
            Appearance::Normal
        }
    }
}

/// The test that a position lies in a cell that the ant has not visited.
pub open spec fn unvisited(ant: AntState) -> spec_fn(Position) -> bool {
    |n: Position| !ant.visited.contains(n.cell())
}

/// The test that a position lies in a tunnel.
pub open spec fn tunnelled(world: World) -> spec_fn(Position) -> bool {
    |n: Position| world.tunnels.contains(n.cell())
}

/// The cells that the ant may move to: the neighbours of its cell that it
/// has not visited, and of these only the tunnels while it carries food.
pub open spec fn candidates(ant: AntState, world: World) -> Seq<Position> {
    let fresh = neighbours(ant.position).filter(unvisited(ant));
    if ant.carrying_food {
        fresh.filter(tunnelled(world))
    } else {
        fresh
    }
}

/// Gives a candidate its weight: the desirability of the move, from the
/// pheromone on the link to the candidate and from whether it is a tunnel.
/// A candidate without a link gets none.
pub open spec fn weighed(ant: AntState, world: World) -> spec_fn(Position) -> Option<(Position, nat)> {
    |n: Position|
        match link_between(ant.position, n) {
            Some(link) => Some((n, desirability(world.pheromones[link], world.tunnels.contains(n.cell())))),
            None => None,
        }
}

/// The candidates that have a link, each with its weight.
pub open spec fn options(ant: AntState, world: World) -> Seq<(Position, nat)> {
    candidates(ant, world).filter_map(weighed(ant, world))
}

/// The cell that the ant selects for its next move.
pub open spec fn chosen(ant: AntState, world: World, sample: u32) -> Option<Position> {
    selected(options(ant, world), sample)
}

/// The ant and the world after the ant has gone to `target` and dug it out
/// if it was not a tunnel.
pub open spec fn moved(ant: AntState, world: World, target: Position) -> (AntState, World) {
    let soil_carried = if world.tunnels.contains(target.cell()) {
        ant.soil_carried
    } else {
        ant.soil_carried + 1
    };
    (
        AntState { position: target, soil_carried, ..ant },
        World { tunnels: world.tunnels.insert(target.cell()), ..world },
    )
}

/// The ant and the world after a move to `target`, which the ant marks as
/// visited and remembers.
pub open spec fn advanced(ant: AntState, world: World, target: Position) -> (AntState, World) {
    let (ant, world) = moved(ant, world, target);
    (ant.marked().remembered(), world)
}

/// The number of links along a path: the pairs of positions that follow
/// each other and have a link between them.
pub open spec fn count_links(path: Seq<Position>) -> nat
    decreases path.len(),
{
    if path.len() < 2 {
        0
    } else {
        let before = count_links(path.drop_last());
        if link_between(path[path.len() - 1], path[path.len() - 2]) is Some {
            before + 1
        } else {
            before
        }
    }
}

/// How many links of a path lie on the lattice entry `(x, y)`.
pub open spec fn crossings(path: Seq<Position>, x: int, y: int) -> nat
    decreases path.len(),
{
    if path.len() < 2 {
        0
    } else {
        let before = crossings(path.drop_last(), x, y);
        if link_between(path[path.len() - 1], path[path.len() - 2]) == Some((x, y)) {
            before + 1
        } else {
            before
        }
    }
}

/// The field after `share` has been deposited on each link of a path, from
/// its end to its start.
pub open spec fn spread_along(field: Map<(int, int), nat>, path: Seq<Position>, share: nat) -> Map<
    (int, int),
    nat,
>
    decreases path.len(),
{
    if path.len() < 2 {
        field
    } else {
        let raised = match link_between(path[path.len() - 1], path[path.len() - 2]) {
            Some((x, y)) => deposited(field, x, y, share),
            None => field,
        };
        spread_along(raised, path.drop_last(), share)
    }
}

/// The count of food in the nest after one more unit has come in.
pub open spec fn counted(food_amount: int) -> int {
    if food_amount < i32::MAX {
        food_amount + 1
    } else {
        food_amount
    }
}

/// The ant and the world after the ant has come home. An ant with food
/// leaves it in the nest and spreads pheromones over the path it remembers,
/// the same share on each link.
pub open spec fn arrived(ant: AntState, world: World) -> (AntState, World) {
    let world = if ant.carrying_food {
        World {
            pheromones: spread_along(
                world.pheromones,
                ant.path_positions,
                link_share(count_links(ant.path_positions)),
            ),
            food_amount: counted(world.food_amount),
            ..world
        }
    } else {
        world
    };
    (ant.rested(), world)
}

/// The ant and the world after the ant has looked for food and for the
/// nest where it stands. An ant on its way out takes food from the first
/// source in reach; an ant on its way back that is near the nest comes home.
pub open spec fn scanned(ant: AntState, world: World) -> (AntState, World) {
    let (ant, world) = match first_food(world.food_sources, ant.position, 0) {
        Some(index) => if !ant.returning {
            (
                ant.fed(),
                World {
                    food_sources: world.food_sources.update(index, taken_from(world.food_sources[index])),
                    ..world
                },
            )
        } else {
            (ant, world)
        },
        None => (ant, world),
    };
    if near_nest(world.nest, ant.position) && ant.returning {
        arrived(ant, world)
    } else {
        (ant, world)
    }
}

/// The ant and the world after one update of the ant.
pub open spec fn stepped(ant: AntState, world: World, sample: u32) -> (AntState, World) {
    if ant.returning && !ant.carrying_food {
        scanned(ant.backtracked(), world)
    } else if ant.path_positions.len() == 0 {
        (ant.bootstrapped(), world)
    } else if candidates(ant, world).len() == 0 {
        (ant.backtracked(), world)
    } else {
        let (ant, world) = match chosen(ant, world, sample) {
            Some(target) => advanced(ant, world, target),
            None => (ant, world),
        };
        let (ant, world) = scanned(ant, world);
        (ant.filled(), world)
    }
}

/// The samples by which `count` ants decide: each ant has the sample at its
/// index, and 0 where there is none.
pub open spec fn samples_for(samples: Seq<u32>, count: nat) -> Seq<u32> {
    Seq::new(
        count,
        |i: int|
            if i < samples.len() {
                samples[i]
            } else {
                0u32
            },
    )
}

/// The world and the colony after the first `count` ants have been updated
/// one after the other, the ant at index `i` with the sample at index `i`.
pub open spec fn marched(world: World, colony: Seq<AntState>, samples: Seq<u32>, count: int) -> (
    World,
    Seq<AntState>,
)
    decreases count,
{
    if count <= 0 {
        (world, colony)
    } else {
        let (world, ants) = marched(world, colony, samples, count - 1);
        let (ant, world) = stepped(ants[count - 1], world, samples[count - 1]);
        (world, ants.update(count - 1, ant))
    }
}

/// The world and the colony after one tick.
pub open spec fn ticked(world: World, colony: Seq<AntState>, samples: Seq<u32>) -> (
    World,
    Seq<AntState>,
) {
    marched(refreshed(world), colony, samples, colony.len() as int)
}

/// One move back changes only where the ant stands and what it remembers.
pub proof fn lemma_backtracked_keeps_load(ant: AntState)
    ensures
        ant.backtracked() == (AntState {
            position: ant.backtracked().position,
            path_positions: ant.backtracked().path_positions,
            ..ant
        }),
        ant.backtracked().path_positions.len() <= ant.path_positions.len(),
        ant.backtracked().path_positions == ant.path_positions.take(
            ant.backtracked().path_positions.len() as int,
        ),
    decreases ant.path_positions.len(),
{
    if ant.path_positions.len() > 0 {
        let rest = ant.path_positions.drop_last();
        if ant.path_positions.last() == ant.position {
            lemma_backtracked_keeps_load(AntState { path_positions: rest, ..ant });
            let kept = ant.backtracked().path_positions.len() as int;
            assert(rest.take(kept) =~= ant.path_positions.take(kept));
        } else {
            assert(rest =~= ant.path_positions.take(rest.len() as int));
        }
    } else {
        assert(ant.path_positions =~= ant.path_positions.take(0));
    }
}

/// A candidate is a neighbouring cell of the grid, given as its corner,
/// that the ant has not visited; for an ant with food it is a tunnel.
pub proof fn lemma_candidate(ant: AntState, world: World, target: Position)
    requires
        candidates(ant, world).contains(target),
    ensures
        neighbours(ant.position).contains(target),
        in_grid(target.cell().0, target.cell().1),
        !ant.visited.contains(target.cell()),
        ant.carrying_food ==> world.tunnels.contains(target.cell()),
{
    let around = neighbours(ant.position);
    let fresh = around.filter(unvisited(ant));
    if ant.carrying_food {
        fresh.lemma_filter_contains_rev(tunnelled(world), target);
        let i = choose|i: int| 0 <= i < candidates(ant, world).len() && candidates(ant, world)[i] == target;
        fresh.lemma_filter_pred(tunnelled(world), i);
    }
    assert(fresh.contains(target));
    around.lemma_filter_contains_rev(unvisited(ant), target);
    let j = choose|j: int| 0 <= j < fresh.len() && fresh[j] == target;
    around.lemma_filter_pred(unvisited(ant), j);
    let k = choose|k: int| 0 <= k < around.len() && around[k] == target;
    assert(around[k] == target);
}

/// Within one trip an ant never selects a cell that it has visited: the
/// cell that it selects is a candidate that has a link to the ant's cell.
pub proof fn lemma_chosen_is_candidate(ant: AntState, world: World, sample: u32)
    ensures
        chosen(ant, world, sample) matches Some(target) ==> {
            &&& candidates(ant, world).contains(target)
            &&& link_between(ant.position, target) is Some
            &&& in_grid(target.cell().0, target.cell().1)
            &&& !ant.visited.contains(target.cell())
            &&& ant.carrying_food ==> world.tunnels.contains(target.cell())
        },
{
    if let Some(index) = roulette(options(ant, world), sample) {
        lemma_first_reaching(options(ant, world), sample, 0);
        let option = options(ant, world)[index];
        assert(options(ant, world).contains(option));
        candidates(ant, world).lemma_filter_map_contains(weighed(ant, world), option);
        let target = choose|t: Position| #[trigger]
            candidates(ant, world).contains(t) && weighed(ant, world)(t) == Some(option);
        assert(target == option.0);
        lemma_candidate(ant, world, target);
    }
}

/// An ant has at most four cells to choose from, and each move has a
/// positive weight that is no more than `MAX_DESIRABILITY`, where no
/// pheromone level is under the minimum or over the maximum.
pub proof fn lemma_options_bounded(ant: AntState, world: World)
    requires
        in_bounds(world.pheromones),
    ensures
        candidates(ant, world).len() <= 4,
        options(ant, world).len() <= 4,
        forall|i: int|
            0 <= i < options(ant, world).len() ==> 0 < (#[trigger] options(ant, world)[i]).1
                <= MAX_DESIRABILITY,
        total_weight(options(ant, world)) <= 4 * MAX_DESIRABILITY,
        options(ant, world).len() > 0 ==> total_weight(options(ant, world)) > 0,
{
    let around = neighbours(ant.position);
    let fresh = around.filter(unvisited(ant));
    around.lemma_filter_len(unvisited(ant));
    fresh.lemma_filter_len(tunnelled(world));
    lemma_filter_map_len(candidates(ant, world), weighed(ant, world));
    assert forall|i: int| 0 <= i < options(ant, world).len() implies 0 < (#[trigger] options(ant, world)[i]).1
        <= MAX_DESIRABILITY by {
        let option = options(ant, world)[i];
        assert(options(ant, world).contains(option));
        candidates(ant, world).lemma_filter_map_contains(weighed(ant, world), option);
        let target = choose|t: Position| #[trigger]
            candidates(ant, world).contains(t) && weighed(ant, world)(t) == Some(option);
        let link = link_between(ant.position, target).unwrap();
        assert(in_lattice(link.0, link.1));
        assert(MIN_PHEROMONES <= world.pheromones[(link.0, link.1)] <= MAX_PHEROMONES);
        lemma_desirability_bounds(world.pheromones[link], world.tunnels.contains(target.cell()));
    }
    lemma_weight_before_bounded(
        options(ant, world),
        options(ant, world).len() as int,
        MAX_DESIRABILITY as nat,
    );
    if options(ant, world).len() > 0 {
        lemma_weight_before_grows(options(ant, world), 1, options(ant, world).len() as int);
        assert(weight_before(options(ant, world), 1) == weight_before(options(ant, world), 0) + options(
            ant,
            world,
        )[0].1);
    }
}

/// An update leaves a valid ant valid.
pub proof fn lemma_stepped_valid(ant: AntState, world: World, sample: u32)
    requires
        ant.valid(),
    ensures
        stepped(ant, world, sample).0.valid(),
{
    lemma_backtracked_keeps_load(ant);
    lemma_chosen_is_candidate(ant, world, sample);
}

/// An ant turns back in the very update in which it is full or finds food,
/// and for no other reason.
pub proof fn lemma_turns_back_when_full(ant: AntState, world: World, sample: u32)
    requires
        ant.valid(),
    ensures
        stepped(ant, world, sample).0.soil_carried == ANT_SOIL_LIMIT ==> stepped(ant, world, sample).0.returning,
        !ant.returning && stepped(ant, world, sample).0.returning ==> {
            ||| stepped(ant, world, sample).0.carrying_food
            ||| stepped(ant, world, sample).0.soil_carried == ANT_SOIL_LIMIT
        },
{
    lemma_backtracked_keeps_load(ant);
    lemma_chosen_is_candidate(ant, world, sample);
}

/// An ant that selects a cell goes there, marks it as visited and remembers
/// it, unless it ends its trip there by finding food or coming home.
pub proof fn lemma_selected_cell_is_marked(ant: AntState, world: World, sample: u32)
    requires
        !(ant.returning && !ant.carrying_food),
        ant.path_positions.len() > 0,
        candidates(ant, world).len() > 0,
        chosen(ant, world, sample) is Some,
    ensures
        ({
            let target = chosen(ant, world, sample).unwrap();
            let after = stepped(ant, world, sample).0;
            ||| {
                &&& after.position == target
                &&& after.visited == ant.visited.insert(target.cell())
                &&& after.path_positions == ant.path_positions.push(target)
            }
            ||| {
                &&& after.visited == Set::<(int, int)>::empty()
                &&& after.path_positions == Seq::<Position>::empty()
            }
        }),
{
    lemma_chosen_is_candidate(ant, world, sample);
}

/// An ant forgets the cells it has visited only when it starts a new trip,
/// and then it forgets its path as well.
pub proof fn lemma_memory_is_reset_together(ant: AntState, world: World, sample: u32)
    ensures
        ({
            let after = stepped(ant, world, sample).0;
            ||| ant.visited.subset_of(after.visited)
            ||| after.visited == Set::<(int, int)>::empty() && after.path_positions
                == Seq::<Position>::empty()
        }),
{
    lemma_backtracked_keeps_load(ant);
}

/// Only an ant that carries food lays pheromones.
pub proof fn lemma_pheromones_kept_without_food(ant: AntState, world: World, sample: u32)
    requires
        !ant.carrying_food,
    ensures
        stepped(ant, world, sample).1.pheromones == world.pheromones,
{
    lemma_backtracked_keeps_load(ant);
}

/// An ant takes up soil only by digging: its load grows by one unit at
/// most, and only when the cell it selects was no tunnel before. No tunnel
/// is ever filled in.
pub proof fn lemma_soil_grows_by_digging(ant: AntState, world: World, sample: u32)
    requires
        ant.valid(),
    ensures
        ({
            let (after, ground) = stepped(ant, world, sample);
            &&& after.soil_carried <= ant.soil_carried + 1
            &&& world.tunnels.subset_of(ground.tunnels)
            &&& after.soil_carried == ant.soil_carried + 1 ==> {
                &&& chosen(ant, world, sample) matches Some(target)
                &&& !world.tunnels.contains(target.cell())
                &&& ground.tunnels == world.tunnels.insert(target.cell())
            }
        }),
{
    lemma_backtracked_keeps_load(ant);
    lemma_chosen_is_candidate(ant, world, sample);
}

/// Spreading pheromones along a path leaves the field within its bounds,
/// whatever the share.
pub proof fn lemma_spread_in_bounds(field: Map<(int, int), nat>, path: Seq<Position>, share: nat)
    requires
        in_bounds(field),
    ensures
        in_bounds(spread_along(field, path, share)),
    decreases path.len(),
{
    if path.len() >= 2 {
        let next = match link_between(path[path.len() - 1], path[path.len() - 2]) {
            Some((x, y)) => {
                lemma_deposit_in_bounds(field, x, y, share);
                deposited(field, x, y, share)
            },
            None => field,
        };
        lemma_spread_in_bounds(next, path.drop_last(), share);
    }
}

/// No update of an ant takes a pheromone level out of its bounds.
pub proof fn lemma_stepped_in_bounds(ant: AntState, world: World, sample: u32)
    requires
        in_bounds(world.pheromones),
    ensures
        in_bounds(stepped(ant, world, sample).1.pheromones),
{
    lemma_spread_in_bounds(
        world.pheromones,
        ant.backtracked().path_positions,
        link_share(count_links(ant.backtracked().path_positions)),
    );
    lemma_spread_in_bounds(world.pheromones, Seq::empty(), link_share(0));
    match chosen(ant, world, sample) {
        Some(target) => {
            let walker = advanced(ant, world, target).0;
            lemma_spread_in_bounds(
                world.pheromones,
                walker.path_positions,
                link_share(count_links(walker.path_positions)),
            );
        },
        None => {
            lemma_spread_in_bounds(
                world.pheromones,
                ant.path_positions,
                link_share(count_links(ant.path_positions)),
            );
        },
    }
}

/// Updating ants one after the other keeps their number, leaves every
/// valid ant valid, and takes no pheromone level out of its bounds.
pub proof fn lemma_marched_in_order(
    world: World,
    colony: Seq<AntState>,
    samples: Seq<u32>,
    count: int,
)
    requires
        count <= colony.len(),
        in_bounds(world.pheromones),
        forall|i: int| 0 <= i < colony.len() ==> (#[trigger] colony[i]).valid(),
    ensures
        marched(world, colony, samples, count).1.len() == colony.len(),
        in_bounds(marched(world, colony, samples, count).0.pheromones),
        forall|i: int|
            0 <= i < colony.len() ==> (#[trigger] marched(world, colony, samples, count).1[i]).valid(),
        forall|i: int|
            count <= i < colony.len() && 0 <= i ==> #[trigger] marched(
                world,
                colony,
                samples,
                count,
            ).1[i] == colony[i],
    decreases count,
{
    if count > 0 {
        lemma_marched_in_order(world, colony, samples, count - 1);
        let (ground, ants) = marched(world, colony, samples, count - 1);
        lemma_stepped_valid(ants[count - 1], ground, samples[count - 1]);
        lemma_stepped_in_bounds(ants[count - 1], ground, samples[count - 1]);
    }
}

/// A tick keeps the number of ants, leaves every valid ant valid, and takes
/// no pheromone level out of its bounds.
pub proof fn lemma_ticked_in_order(world: World, colony: Seq<AntState>, samples: Seq<u32>)
    requires
        in_bounds(world.pheromones),
        forall|i: int| 0 <= i < colony.len() ==> (#[trigger] colony[i]).valid(),
    ensures
        ticked(world, colony, samples).1.len() == colony.len(),
        in_bounds(ticked(world, colony, samples).0.pheromones),
        forall|i: int|
            0 <= i < colony.len() ==> (#[trigger] ticked(world, colony, samples).1[i]).valid(),
{
    lemma_evaporation_in_bounds(world.pheromones);
    lemma_marched_in_order(refreshed(world), colony, samples, colony.len() as int);
}

/// Spreading pheromones along a path gives each lattice entry one share for
/// each link of the path that lies on it, up to the maximum, and leaves the
/// entries on which no link lies as they were.
pub proof fn lemma_spread_raises_each_link(
    field: Map<(int, int), nat>,
    path: Seq<Position>,
    share: nat,
    x: int,
    y: int,
)
    requires
        field.dom().contains((x, y)),
        field[(x, y)] <= MAX_PHEROMONES,
    ensures
        spread_along(field, path, share).dom() == field.dom(),
        spread_along(field, path, share)[(x, y)] == raised(
            field[(x, y)],
            crossings(path, x, y) * share,
        ),
        crossings(path, x, y) <= count_links(path),
    decreases path.len(),
{
    if path.len() >= 2 {
        let rest = path.drop_last();
        let link = link_between(path[path.len() - 1], path[path.len() - 2]);
        let next = match link {
            Some((lx, ly)) => deposited(field, lx, ly, share),
            None => field,
        };
        assert(next.dom() =~= field.dom());
        lemma_spread_raises_each_link(next, rest, share, x, y);
        let fewer = crossings(rest, x, y);
        assert((fewer + 1) * share == fewer * share + share) by (nonlinear_arith);
        assert(fewer * share >= 0) by (nonlinear_arith);
    } else {
        assert(crossings(path, x, y) * share == 0) by (nonlinear_arith)
            requires
                crossings(path, x, y) == 0,
        ;
    }
}

/// Spreading pheromones along a path lowers no level and takes none over
/// the maximum.
pub proof fn lemma_spread_never_lowers(
    field: Map<(int, int), nat>,
    path: Seq<Position>,
    share: nat,
)
    requires
        in_bounds(field),
    ensures
        forall|x: int, y: int|
            in_lattice(x, y) ==> field[(x, y)] <= #[trigger] spread_along(field, path, share)[(
                x,
                y,
            )] <= MAX_PHEROMONES,
{
    assert forall|x: int, y: int| in_lattice(x, y) implies field[(x, y)]
        <= #[trigger] spread_along(field, path, share)[(x, y)] <= MAX_PHEROMONES by {
        assert(field.dom().contains((x, y)));
        assert(MIN_PHEROMONES <= field[(x, y)] <= MAX_PHEROMONES);
        lemma_spread_raises_each_link(field, path, share, x, y);
        assert(crossings(path, x, y) * share >= 0) by (nonlinear_arith);
    }
}

/// A link that a path crosses once receives the intensity divided by the
/// number of links of the path, up to the maximum.
pub proof fn lemma_link_gets_its_share(
    field: Map<(int, int), nat>,
    path: Seq<Position>,
    x: int,
    y: int,
)
    requires
        in_bounds(field),
        in_lattice(x, y),
        crossings(path, x, y) == 1,
    ensures
        count_links(path) >= 1,
        link_share(count_links(path)) == PHEROMONES_INTENSITY as nat / count_links(path),
        spread_along(field, path, link_share(count_links(path)))[(x, y)] == raised(
            field[(x, y)],
            link_share(count_links(path)),
        ),
{
    let share = link_share(count_links(path));
    assert(field.dom().contains((x, y)));
    assert(MIN_PHEROMONES <= field[(x, y)] <= MAX_PHEROMONES);
    lemma_spread_raises_each_link(field, path, share, x, y);
    assert(crossings(path, x, y) * share == share) by (nonlinear_arith)
        requires
            crossings(path, x, y) == 1,
    ;
}

/// After an ant has spread its pheromones, every link of its path holds
/// more than the minimum, unless the path has more links than the intensity
/// has units.
pub proof fn lemma_trail_rises_above_minimum(
    field: Map<(int, int), nat>,
    path: Seq<Position>,
    x: int,
    y: int,
)
    requires
        in_bounds(field),
        in_lattice(x, y),
        crossings(path, x, y) >= 1,
        count_links(path) <= PHEROMONES_INTENSITY,
    ensures
        MIN_PHEROMONES < spread_along(field, path, link_share(count_links(path)))[(x, y)]
            <= MAX_PHEROMONES,
{
    let links = count_links(path);
    let share = link_share(links);
    assert(field.dom().contains((x, y)));
    assert(MIN_PHEROMONES <= field[(x, y)] <= MAX_PHEROMONES);
    lemma_spread_raises_each_link(field, path, share, x, y);
    assert(share >= 1) by {
        vstd::arithmetic::div_mod::lemma_div_is_ordered_by_denominator(
            PHEROMONES_INTENSITY as int,
            links as int,
            PHEROMONES_INTENSITY as int,
        );
    }
    assert(crossings(path, x, y) * share >= 1) by (nonlinear_arith)
        requires
            crossings(path, x, y) >= 1,
            share >= 1,
    ;
}

/// The food in the nest is counted up by one unit when an ant comes home
/// with food, and changes at no other time.
pub proof fn lemma_food_is_counted(ant: AntState, world: World, sample: u32)
    ensures
        ({
            let (after, ground) = stepped(ant, world, sample);
            &&& ground.food_amount == world.food_amount || ground.food_amount == counted(
                world.food_amount,
            )
            &&& ant.carrying_food && !after.carrying_food ==> ground.food_amount == counted(
                world.food_amount,
            )
            &&& ground.nest == world.nest
        }),
        world.food_amount < i32::MAX ==> counted(world.food_amount) == world.food_amount + 1,
{
    lemma_backtracked_keeps_load(ant);
}

/// Every position that the ant remembers, but for the first, lies in a
/// tunnel.
pub open spec fn trail_is_dug(ant: AntState, world: World) -> bool {
    forall|i: int|
        1 <= i < ant.path_positions.len() ==> world.tunnels.contains(
            (#[trigger] ant.path_positions[i]).cell(),
        )
}

/// The cell that an ant selects is a tunnel once the ant has gone there, and
/// the path that an ant remembers stays in the tunnels: an ant that comes
/// home has walked through tunnels all the way.
pub proof fn lemma_trail_stays_dug(ant: AntState, world: World, sample: u32)
    requires
        trail_is_dug(ant, world),
    ensures
        trail_is_dug(stepped(ant, world, sample).0, stepped(ant, world, sample).1),
        world.tunnels.subset_of(stepped(ant, world, sample).1.tunnels),
        !(ant.returning && !ant.carrying_food) && ant.path_positions.len() > 0 && candidates(
            ant,
            world,
        ).len() > 0 ==> (chosen(ant, world, sample) matches Some(target) ==> stepped(
            ant,
            world,
            sample,
        ).1.tunnels.contains(target.cell())),
{
    lemma_backtracked_keeps_load(ant);
    let back = ant.backtracked();
    assert forall|i: int| 1 <= i < back.path_positions.len() implies world.tunnels.contains(
        (#[trigger] back.path_positions[i]).cell(),
    ) by {
        assert(back.path_positions[i] == ant.path_positions[i]);
    }
    assert(trail_is_dug(back, world));
}

/// Tunnels that other ants dig leave the path of an ant in the tunnels.
pub proof fn lemma_trail_is_dug_in_more_tunnels(ant: AntState, world: World, later: World)
    requires
        trail_is_dug(ant, world),
        world.tunnels.subset_of(later.tunnels),
    ensures
        trail_is_dug(ant, later),
{
}

/// No update of an ant lowers a pheromone level.
pub proof fn lemma_stepped_never_lowers(ant: AntState, world: World, sample: u32)
    requires
        in_bounds(world.pheromones),
    ensures
        forall|x: int, y: int|
            in_lattice(x, y) ==> world.pheromones[(x, y)] <= #[trigger] stepped(
                ant,
                world,
                sample,
            ).1.pheromones[(x, y)] <= MAX_PHEROMONES,
{
    lemma_spread_never_lowers(
        world.pheromones,
        ant.backtracked().path_positions,
        link_share(count_links(ant.backtracked().path_positions)),
    );
    lemma_spread_never_lowers(world.pheromones, Seq::empty(), link_share(0));
    match chosen(ant, world, sample) {
        Some(target) => {
            let walker = advanced(ant, world, target).0;
            lemma_spread_never_lowers(
                world.pheromones,
                walker.path_positions,
                link_share(count_links(walker.path_positions)),
            );
        },
        None => {
            lemma_spread_never_lowers(
                world.pheromones,
                ant.path_positions,
                link_share(count_links(ant.path_positions)),
            );
        },
    }
}

/// Updating ants one after the other moves no nest, fills in no tunnel, and
/// counts one unit of food at most for each ant.
pub proof fn lemma_marched_only_adds(
    world: World,
    colony: Seq<AntState>,
    samples: Seq<u32>,
    count: int,
)
    requires
        0 <= count <= colony.len(),
    ensures
        ({
            let (ground, ants) = marched(world, colony, samples, count);
            &&& ants.len() == colony.len()
            &&& ground.nest == world.nest
            &&& world.tunnels.subset_of(ground.tunnels)
            &&& world.food_amount <= ground.food_amount <= world.food_amount + count
        }),
    decreases count,
{
    if count > 0 {
        lemma_marched_only_adds(world, colony, samples, count - 1);
        let (ground, ants) = marched(world, colony, samples, count - 1);
        lemma_food_is_counted(ants[count - 1], ground, samples[count - 1]);
        lemma_tunnels_are_kept(ants[count - 1], ground, samples[count - 1]);
    }
}

/// No update of an ant fills in a tunnel.
pub proof fn lemma_tunnels_are_kept(ant: AntState, world: World, sample: u32)
    ensures
        world.tunnels.subset_of(stepped(ant, world, sample).1.tunnels),
{
    lemma_backtracked_keeps_load(ant);
}

/// A tick moves no nest, fills in no tunnel, and counts one unit of food at
/// most for each ant.
pub proof fn lemma_ticked_only_adds(world: World, colony: Seq<AntState>, samples: Seq<u32>)
    ensures
        ({
            let (ground, ants) = ticked(world, colony, samples);
            &&& ants.len() == colony.len()
            &&& ground.nest == world.nest
            &&& world.tunnels.subset_of(ground.tunnels)
            &&& world.food_amount <= ground.food_amount <= world.food_amount + colony.len()
        }),
{
    lemma_marched_only_adds(refreshed(world), colony, samples, colony.len() as int);
}

/// Updating ants one after the other leaves the path of every ant in the
/// tunnels.
pub proof fn lemma_marched_keeps_trails_dug(
    world: World,
    colony: Seq<AntState>,
    samples: Seq<u32>,
    count: int,
)
    requires
        0 <= count <= colony.len(),
        forall|i: int| 0 <= i < colony.len() ==> trail_is_dug(#[trigger] colony[i], world),
    ensures
        ({
            let (ground, ants) = marched(world, colony, samples, count);
            &&& ants.len() == colony.len()
            &&& forall|i: int| 0 <= i < ants.len() ==> trail_is_dug(#[trigger] ants[i], ground)
        }),
    decreases count,
{
    if count > 0 {
        lemma_marched_keeps_trails_dug(world, colony, samples, count - 1);
        let (ground, ants) = marched(world, colony, samples, count - 1);
        let (walker, later) = stepped(ants[count - 1], ground, samples[count - 1]);
        lemma_trail_stays_dug(ants[count - 1], ground, samples[count - 1]);
        let after = ants.update(count - 1, walker);
        assert forall|i: int| 0 <= i < after.len() implies trail_is_dug(
            #[trigger] after[i],
            later,
        ) by {
            if i != count - 1 {
                lemma_trail_is_dug_in_more_tunnels(ants[i], ground, later);
            }
        }
    }
}

/// A path with a link has a lattice entry on which one of its links lies.
pub proof fn lemma_some_link_is_crossed(path: Seq<Position>) -> (entry: (int, int))
    requires
        count_links(path) >= 1,
    ensures
        in_lattice(entry.0, entry.1),
        crossings(path, entry.0, entry.1) >= 1,
    decreases path.len(),
{
    match link_between(path[path.len() - 1], path[path.len() - 2]) {
        Some((x, y)) => (x, y),
        None => lemma_some_link_is_crossed(path.drop_last()),
    }
}

/// An ant that comes home with food over a path of at least one link, and
/// of no more links than the intensity has units, leaves one more unit of
/// food in the nest and more than the minimum of pheromone on every link of
/// its path.
pub proof fn lemma_homecoming_with_food(ant: AntState, world: World)
    requires
        ant.carrying_food,
        in_bounds(world.pheromones),
        1 <= count_links(ant.path_positions) <= PHEROMONES_INTENSITY,
        world.food_amount < i32::MAX,
    ensures
        arrived(ant, world).1.food_amount == world.food_amount + 1,
        arrived(ant, world).0 == ant.rested(),
        forall|x: int, y: int|
            in_lattice(x, y) && crossings(ant.path_positions, x, y) >= 1 ==> MIN_PHEROMONES
                < #[trigger] arrived(ant, world).1.pheromones[(x, y)] <= MAX_PHEROMONES,
        exists|x: int, y: int|
            in_lattice(x, y) && crossings(ant.path_positions, x, y) >= 1 && MIN_PHEROMONES
                < #[trigger] arrived(ant, world).1.pheromones[(x, y)],
{
    assert forall|x: int, y: int|
        in_lattice(x, y) && crossings(ant.path_positions, x, y) >= 1 implies MIN_PHEROMONES
        < #[trigger] arrived(ant, world).1.pheromones[(x, y)] <= MAX_PHEROMONES by {
        lemma_trail_rises_above_minimum(world.pheromones, ant.path_positions, x, y);
    }
    let entry = lemma_some_link_is_crossed(ant.path_positions);
    assert(MIN_PHEROMONES < arrived(ant, world).1.pheromones[(entry.0, entry.1)]);
}

} // verus!
