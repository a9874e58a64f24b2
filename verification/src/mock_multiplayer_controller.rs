//! A stand-in transport around the game manager, used to drive games
//! without a network.

use vstd::prelude::*;

use crate::game_controller::GameController;
use crate::gamestate::{GameState, PlayerInput};
use crate::player::NewGameInfo;

verus! {

/// Wraps a [`GameController`] with local buffers for identifiers and
/// the game states it has seen.
pub struct MockMultiplayerController {
    pub game_controller: GameController,
    pub known_game_states: Vec<GameState>,
    pub player_inputs: Vec<PlayerInput>,
    pub unique_ids: Vec<i32>,
}

impl MockMultiplayerController {
    /// A mock transport around the given game manager.
    pub fn new(game_controller: GameController) -> (r: Self)
        ensures
            r.game_controller == game_controller,
            r.known_game_states@.len() == 0,
            r.player_inputs@.len() == 0,
            r.unique_ids@.len() == 0,
    {
        Self {
            game_controller,
            known_game_states: Vec::new(),
            player_inputs: Vec::new(),
            unique_ids: Vec::new(),
        }
    }

    /// Opens one game per request and remembers the created states;
    /// requests the manager refuses are dropped.
    pub fn make_lobbies(&mut self, new_lobbies: Vec<NewGameInfo>)
        ensures
            final(self).known_game_states@.len() >= old(self).known_game_states@.len(),
            forall|k: int|
                0 <= k < old(self).known_game_states@.len()
                    ==> #[trigger] final(self).known_game_states@[k]
                    == old(self).known_game_states@[k],
            final(self).player_inputs@ == old(self).player_inputs@,
            final(self).unique_ids@ == old(self).unique_ids@,
            final(self).game_controller@.unique_ids == old(self).game_controller@.unique_ids,
    {
        let mut i: usize = 0;
        while i < new_lobbies.len()
            invariant
                i <= new_lobbies.len(),
                self.known_game_states@.len() >= old(self).known_game_states@.len(),
                forall|k: int|
                    0 <= k < old(self).known_game_states@.len()
                        ==> #[trigger] self.known_game_states@[k]
                        == old(self).known_game_states@[k],
                self.player_inputs@ == old(self).player_inputs@,
                self.unique_ids@ == old(self).unique_ids@,
                self.game_controller@.unique_ids == old(self).game_controller@.unique_ids,
            decreases new_lobbies.len() - i,
        {
            match self.game_controller.create_new_game(new_lobbies[i].duplicate()) {
                Ok(game) => {
                    self.known_game_states.push(game);
                },
                Err(_) => (),
            }
            i = i + 1;
        }
    }

    /// The game states this transport has seen.
    pub fn get_created_games(&self) -> (r: &Vec<GameState>)
        ensures
            r@ == self.known_game_states@,
    {
        &self.known_game_states
    }

    /// Feeds one input to the manager and refreshes the matching
    /// remembered game state.
    pub fn handle_player_input(&mut self, player_input: PlayerInput)
        ensures
            final(self).unique_ids@ == old(self).unique_ids@,
            final(self).player_inputs@ == old(self).player_inputs@,
            final(self).known_game_states@.len() == old(self).known_game_states@.len(),
            forall|k: int|
                0 <= k < old(self).known_game_states@.len()
                    ==> #[trigger] final(self).known_game_states@[k]@
                    == old(self).known_game_states@[k]@ || final(self).known_game_states@[k]@
                    == (crate::gamestate::GameStateView {
                    players: final(self).known_game_states@[k]@.players,
                    ..old(self).known_game_states@[k]@
                }),
    {
        let game = match self.game_controller.handle_player_input(player_input) {
            Ok(game) => game,
            Err(_) => {
                return;
            },
        };
        self.update_game_state(game);
    }

    /// Draws a fresh identifier from the manager into the local
    /// buffer; a refused draw leaves the buffer unchanged.
    pub fn generate_id(&mut self)
        ensures
            final(self).known_game_states@ == old(self).known_game_states@,
            final(self).player_inputs@ == old(self).player_inputs@,
            final(self).unique_ids@ == old(self).unique_ids@ || (final(self).unique_ids@.len()
                == old(self).unique_ids@.len() + 1 && final(self).unique_ids@ == old(
                self,
            ).unique_ids@.push(final(self).unique_ids@.last())
                && !crate::game_controller::spec_id_registered(
                old(self).game_controller@.unique_ids,
                final(self).unique_ids@.last(),
            ) && crate::game_controller::spec_id_registered(
                final(self).game_controller@.unique_ids,
                final(self).unique_ids@.last(),
            )),
    {
        match self.game_controller.generate_player_id() {
            Ok(id) => {
                self.unique_ids.push(id);
            },
            Err(_) => (),
        }
    }

    /// Hands out the most recently drawn identifier, if any is left.
    pub fn get_unique_id(&mut self) -> (r: Option<i32>)
        ensures
            r is Some <==> old(self).unique_ids@.len() > 0,
            r is Some ==> r->0 == old(self).unique_ids@.last() && final(self).unique_ids@ == old(
                self,
            ).unique_ids@.drop_last(),
            r is None ==> final(self).unique_ids@ == old(self).unique_ids@,
    {
        if self.unique_ids.len() == 0 {
            return None;
        }
        self.unique_ids.pop()
    }

    /// Replaces the roster of the remembered state that shares the
    /// updated game's identity.
    fn update_game_state(&mut self, updated_game: GameState)
        ensures
            final(self).unique_ids@ == old(self).unique_ids@,
            final(self).player_inputs@ == old(self).player_inputs@,
            final(self).known_game_states@.len() == old(self).known_game_states@.len(),
            forall|k: int|
                0 <= k < old(self).known_game_states@.len()
                    ==> #[trigger] final(self).known_game_states@[k]@
                    == if old(self).known_game_states@[k]@.id == updated_game@.id {
                        crate::gamestate::GameStateView {
                            players: updated_game@.players,
                            ..old(self).known_game_states@[k]@
                        }
                    } else {
                        old(self).known_game_states@[k]@
                    },
    {
        let n = self.known_game_states.len();
        let mut i: usize = 0;
        while i < n
            invariant
                i <= n,
                n == self.known_game_states.len(),
                self.unique_ids@ == old(self).unique_ids@,
                self.player_inputs@ == old(self).player_inputs@,
                forall|k: int|
                    0 <= k < i ==> #[trigger] self.known_game_states@[k]@
                        == if old(self).known_game_states@[k]@.id == updated_game@.id {
                            crate::gamestate::GameStateView {
                                players: updated_game@.players,
                                ..old(self).known_game_states@[k]@
                            }
                        } else {
                            old(self).known_game_states@[k]@
                        },
                forall|k: int|
                    i <= k < n ==> #[trigger] self.known_game_states@[k]
                        == old(self).known_game_states@[k],
            decreases n - i,
        {
            let ghost prev = self.known_game_states@;
            let hit = self.known_game_states[i].id == updated_game.id;
            if hit {
                let update = updated_game.duplicate();
                self.known_game_states[i].update_game(update);
            }
            proof {
                assert forall|k: int| 0 <= k < n && k != i implies
                    #[trigger] self.known_game_states@[k] == prev[k] by {}
                if hit {
                    assert(self.known_game_states@[i as int]@
                        == (crate::gamestate::GameStateView {
                        players: updated_game@.players,
                        ..old(self).known_game_states@[i as int]@
                    }));
                }
            }
            i = i + 1;
        }
    }
}

} // verus!
