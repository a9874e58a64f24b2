//! Simulation core of a turn-based, multiplayer traffic-management board game.
//!
//! Players share a city graph, move vehicles under dynamically changing
//! movement costs and access rules, and an orchestrator seat introduces
//! disruptions. The library holds the game-state data model, the
//! movement-cost and turn-rotation algorithms, and the rule-validation
//! pipeline that decides whether a proposed action is legal before it is
//! committed.
#![verifier::loop_isolation(false)]

pub mod cards;
mod clock;
pub mod constants;
pub mod enums;
pub mod game_controller;
pub mod gamestate;
pub mod mock_multiplayer_controller;
pub mod multiplayer_controller;
pub mod node_map;
pub mod player;
mod random;
pub mod rules;
pub mod situation_card_list;
mod text;
