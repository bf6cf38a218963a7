use crate::config::{
    CELL_SIZE, FOOD_DETECTION_RANGE, FOOD_DISTANCE, NEST_DETECTION_RANGE, UNLIMITED_FOOD,
};
use crate::functions::{in_grid, FoodSource, Position};
use crate::pheromones::evaporated_field;
use vstd::prelude::*;

verus! {

/// What the ants share: the nest, the food brought to it, the tunnels, the
/// pheromones on the links, and the food sources.
#[verifier::ext_equal]
pub struct World {
    pub nest: Position,
    pub food_amount: int,
    pub tunnels: Set<(int, int)>,
    pub pheromones: Map<(int, int), nat>,
    pub food_sources: Seq<FoodSource>,
}

/// The difference between two numbers, without its sign.
pub open spec fn gap(a: int, b: int) -> int {
    if a >= b {
        a - b
    } else {
        b - a
    }
}

/// The distance between the cells of two positions, counted in steps along
/// the axes.
pub open spec fn cell_distance(a: Position, b: Position) -> int {
    gap(a.cell().0, b.cell().0) + gap(a.cell().1, b.cell().1)
}

/// The distance between two positions in fine units, counted along the axes.
pub open spec fn fine_distance(a: Position, b: Position) -> int {
    gap(a.x as int, b.x as int) + gap(a.y as int, b.y as int)
}

/// The position of the corner of the cell `(x, y)` that has the smallest
/// coordinates.
pub open spec fn corner_of(x: int, y: int) -> Position {
    Position { x: (x * CELL_SIZE) as i32, y: (y * CELL_SIZE) as i32 }
}

/// The corner of the cell `(x, y)` if it is a cell of the grid, and nothing
/// if it is not.
pub open spec fn grid_corner(x: int, y: int) -> Seq<Position> {
    if in_grid(x, y) {
        seq![corner_of(x, y)]
    } else {
        Seq::empty()
    }
}

/// The cells of the grid next to the cell of `position`, each as its
/// corner: first along the columns, then along the rows.
pub open spec fn neighbours(position: Position) -> Seq<Position> {
    let (x, y) = position.cell();
    grid_corner(x - 1, y) + grid_corner(x + 1, y) + grid_corner(x, y - 1) + grid_corner(x, y + 1)
}

/// Whether an ant at `position` can take food from `source`.
pub open spec fn offers_food(source: FoodSource, position: Position) -> bool {
    cell_distance(source.position, position) <= FOOD_DETECTION_RANGE && source.amount > 0
}

/// The first food source from index `from` on that offers food to an ant at
/// `position`.
pub open spec fn first_food(sources: Seq<FoodSource>, position: Position, from: int) -> Option<int>
    decreases sources.len() - from,
{
    if from < 0 || from >= sources.len() {
        None
    } else if offers_food(sources[from], position) {
        Some(from)
    } else {
        first_food(sources, position, from + 1)
    }
}

/// Whether `position` is within reach of the nest.
pub open spec fn near_nest(nest: Position, position: Position) -> bool {
    fine_distance(nest, position) <= NEST_DETECTION_RANGE
}

/// Whether a food source at `position` would lie far enough from the nest.
pub open spec fn far_from_nest(nest: Position, position: Position) -> bool {
    cell_distance(nest, position) > FOOD_DISTANCE
}

/// A food source after an ant has taken food from it.
pub open spec fn taken_from(source: FoodSource) -> FoodSource {
    if UNLIMITED_FOOD {
        source
    } else {
        FoodSource { amount: (source.amount - 1) as usize, ..source }
    }
}

/// The test that a food source has food left.
pub open spec fn has_food() -> spec_fn(FoodSource) -> bool {
    |source: FoodSource| source.amount > 0
}

/// The food sources that have food left, in their order.
pub open spec fn pruned(sources: Seq<FoodSource>) -> Seq<FoodSource> {
    sources.filter(has_food())
}

/// The world at the start of a tick: the food sources that are used up are
/// gone, and the pheromones have evaporated once.
pub open spec fn refreshed(w: World) -> World {
    World {
        food_sources: pruned(w.food_sources),
        pheromones: evaporated_field(w.pheromones),
        ..w
    }
}

/// What `first_food` finds is the index of a source that offers food, and
/// no source between `from` and that index does.
pub proof fn lemma_first_food(sources: Seq<FoodSource>, position: Position, from: int)
    requires
        0 <= from,
    ensures
        match first_food(sources, position, from) {
            Some(index) => {
                &&& from <= index < sources.len()
                &&& offers_food(sources[index], position)
                &&& forall|i: int| from <= i < index ==> !offers_food(sources[i], position)
            },
            None => forall|i: int| from <= i < sources.len() ==> !offers_food(sources[i], position),
        },
    decreases sources.len() - from,
{
    if from < sources.len() && !offers_food(sources[from], position) {
        lemma_first_food(sources, position, from + 1);
    }
}

/// After the pruning a food source is there if and only if it was there
/// before and has food left.
pub proof fn lemma_pruned(sources: Seq<FoodSource>, source: FoodSource)
    ensures
        pruned(sources).contains(source) <==> sources.contains(source) && source.amount > 0,
    decreases sources.len(),
{
    reveal(Seq::filter);
    if sources.len() > 0 {
        let rest = sources.drop_last();
        lemma_pruned(rest, source);
        if sources.contains(source) {
            let i = choose|i: int| 0 <= i < sources.len() && sources[i] == source;
            if i < rest.len() {
                assert(rest[i] == source);
            }
        }
        if rest.contains(source) {
            let i = choose|i: int| 0 <= i < rest.len() && rest[i] == source;
            assert(sources[i] == source);
        }
        if has_food()(sources.last()) {
            let kept = pruned(rest).push(sources.last());
            assert(kept[kept.len() - 1] == sources.last());
            if pruned(rest).contains(source) {
                let i = choose|i: int| 0 <= i < pruned(rest).len() && pruned(rest)[i] == source;
                assert(kept[i] == source);
            }
            if kept.contains(source) {
                let i = choose|i: int| 0 <= i < kept.len() && kept[i] == source;
                if i < pruned(rest).len() {
                    assert(pruned(rest)[i] == source);
                }
            }
        }
    }
}

/// A food source whose last unit has been taken is gone after the pruning.
pub proof fn lemma_emptied_source_is_pruned(sources: Seq<FoodSource>, index: int)
    requires
        0 <= index < sources.len(),
        sources[index].amount == 1,
        !UNLIMITED_FOOD,
    ensures
        taken_from(sources[index]).amount == 0,
        !pruned(sources.update(index, taken_from(sources[index]))).contains(
            taken_from(sources[index]),
        ),
{
    lemma_pruned(sources.update(index, taken_from(sources[index])), taken_from(sources[index]));
}

} // verus!
