//! An ant colony on a grid: ants dig tunnels, forage, and mark the way between
//! nest and food with pheromones that evaporate over time.
//!
//! `world` and `behaviour` say what the terrarium holds and what an ant does
//! in one tick; `terrarium` and `ants` do it.

pub mod ants;
pub mod behaviour;
pub mod choice;
pub mod config;
pub mod functions;
pub mod grid;
pub mod pheromones;
pub mod random;
pub mod sequences;
pub mod terrarium;
pub mod world;
