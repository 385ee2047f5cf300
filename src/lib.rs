//! Simulation core of a cellular-automaton tower-defense game: the cell
//! rules, the whole-board generation step, pattern placement, the energy
//! economy, the pattern toolbox and the gameplay phase machine.

pub mod cell_rules;
pub mod defense_layer;
pub mod ingame_state_tracker;
pub mod player_energy;
pub mod tile_layer;
pub mod cell_patterns;
pub mod player_health;
pub mod enemy_spawner;
