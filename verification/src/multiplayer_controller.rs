//! The interface a multiplayer transport implements to feed the game
//! manager with identifiers, lobbies and inputs.

use vstd::prelude::*;

use crate::gamestate::{GameState, PlayerInput};
use crate::player::NewGameInfo;

verus! {

/// What a transport must offer: how many identifiers it wants, where
/// generated identifiers go, which lobbies it requests, where fresh
/// game states go, and which inputs its players produced.
pub trait MultiplayerController {
    fn get_wanted_amount_of_unique_ids(&mut self) -> i32;

    fn handle_generated_unique_ids(&mut self, new_ids: Vec<i32>);

    fn get_requested_game_lobbies(&mut self) -> &mut Vec<NewGameInfo>;

    fn send_new_game_state_to_players(&mut self, game_state: GameState);

    fn get_player_inputs_for_game(&mut self, game_id: i32) -> &mut Vec<PlayerInput>;
}

} // verus!
