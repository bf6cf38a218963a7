use vstd::prelude::*;

verus! {

// GRID
/// Number of cell columns.
pub const WIDTH: usize = 180;

/// Number of cell rows.
pub const HEIGHT: usize = 120;

/// Number of rows of the pheromone lattice: one for the vertical and one for
/// the horizontal links of each row of cells.
pub const LATTICE_HEIGHT: usize = 2 * HEIGHT;

/// Fine coordinate units along one side of a cell.
pub const CELL_SIZE: i32 = 5;

/// Least cell distance between the nest and a food source, exclusive.
pub const FOOD_DISTANCE: i32 = 10;

/// Width in cells of the border that initial food sources keep clear.
pub const FOOD_MARGIN: i32 = 6;

// GAMEPLAY VARIABLES
pub const UNLIMITED_FOOD: bool = false;

pub const ANT_SOIL_LIMIT: i32 = 100;

/// Reach of the nest, in fine units.
pub const NEST_DETECTION_RANGE: i32 = 25;

/// Reach of a food source, in cells.
pub const FOOD_DETECTION_RANGE: i32 = 5;

pub const ANT_COUNT: usize = 100;

pub const FOOD_SOURCES_COUNT: usize = 3;

pub const FOOD_AMOUNT_PER_SOURCE: usize = 50;

/// Largest distance, in fine units and per axis, between the nest and the
/// place where a new ant starts.
pub const ANT_START_SPREAD: i32 = 5;

/// Draws spent on finding room for the initial food sources. Sources that
/// are still without a place after that many draws are put where the margin
/// ends, at the cell `(FOOD_MARGIN, FOOD_MARGIN)`.
pub const FOOD_PLACEMENT_ATTEMPTS: usize = 10000;

// ANT BEHAVIOUR
/// Pheromone laid down by one ant that brings food home, shared among the
/// links it walked.
pub const PHEROMONES_INTENSITY: u32 = 20000;

/// Percentage of a strong trail that is left after one tick.
pub const EVAPORATION_RATE_FAST: u32 = 90;

/// Percentage of a weak trail that is left after one tick.
pub const EVAPORATION_RATE_SLOW: u32 = 99;

/// Exponent of the pheromone level in a move's desirability.
pub const DESIRABILITY_PHEROMONES: u32 = 7;

/// Exponent of the heuristic in a move's desirability.
pub const DESIRABILITY_HEURISTICS: u32 = 2;

pub const MIN_PHEROMONES: u32 = 1;

pub const MAX_PHEROMONES: u32 = 2000;

/// How many times less attractive an undug cell is than a tunnel.
pub const DIGGING_COST: u32 = 100;

} // verus!
