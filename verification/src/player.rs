//! Players and the request to open a new game.

use vstd::prelude::*;

use crate::cards::{PlayerObjectiveCard, PlayerObjectiveCardView};
use crate::enums::InGameID;

verus! {

/// One participant of a game: identity, seat, position, movement
/// budget, mission, and vehicle mode.
#[derive(Clone, Debug, PartialEq)]
pub struct Player {
    pub connected_game_id: Option<i32>,
    pub in_game_id: InGameID,
    pub unique_id: i32,
    pub name: String,
    pub position_node_id: Option<u8>,
    pub remaining_moves: i16,
    pub objective_card: Option<PlayerObjectiveCard>,
    pub is_bus: bool,
    pub is_train: bool,
}

/// The mathematical value of a [`Player`].
pub ghost struct PlayerView {
    pub connected_game_id: Option<i32>,
    pub in_game_id: InGameID,
    pub unique_id: i32,
    pub name: Seq<char>,
    pub position_node_id: Option<u8>,
    pub remaining_moves: i16,
    pub objective_card: Option<PlayerObjectiveCardView>,
    pub is_bus: bool,
    pub is_train: bool,
}

impl View for Player {
    type V = PlayerView;

    open spec fn view(&self) -> PlayerView {
        PlayerView {
            connected_game_id: self.connected_game_id,
            in_game_id: self.in_game_id,
            unique_id: self.unique_id,
            name: self.name@,
            position_node_id: self.position_node_id,
            remaining_moves: self.remaining_moves,
            objective_card: match self.objective_card {
                Some(c) => Some(c@),
                None => None,
            },
            is_bus: self.is_bus,
            is_train: self.is_train,
        }
    }
}

impl Player {
    /// A freshly connected player: no game, no seat, no position, no
    /// mission, driving an ordinary car.
    pub fn new(unique_id: i32, name: String) -> (r: Self)
        ensures
            r@ == (PlayerView {
                connected_game_id: None,
                in_game_id: InGameID::Undecided,
                unique_id,
                name: name@,
                position_node_id: None,
                remaining_moves: 0,
                objective_card: None,
                is_bus: false,
                is_train: false,
            }),
    {
        Self {
            connected_game_id: None,
            in_game_id: InGameID::Undecided,
            unique_id,
            name,
            position_node_id: None,
            remaining_moves: 0,
            objective_card: None,
            is_bus: false,
            is_train: false,
        }
    }

    /// Turns the player's vehicle into a bus.
    pub fn transform_to_bus(&mut self)
        ensures
            final(self)@ == (PlayerView { is_bus: true, ..old(self)@ }),
    {
        self.is_bus = true;
    }

    /// Turns the player's vehicle back into a car.
    pub fn transform_to_car(&mut self)
        ensures
            final(self)@ == (PlayerView { is_bus: false, ..old(self)@ }),
    {
        self.is_bus = false;
    }

    /// A copy whose mathematical value equals this player's.
    pub fn duplicate(&self) -> (r: Self)
        ensures
            r@ == self@,
    {
        Self {
            connected_game_id: self.connected_game_id,
            in_game_id: self.in_game_id,
            unique_id: self.unique_id,
            name: self.name.clone(),
            position_node_id: self.position_node_id,
            remaining_moves: self.remaining_moves,
            objective_card: match &self.objective_card {
                Some(c) => Some(c.duplicate()),
                None => None,
            },
            is_bus: self.is_bus,
            is_train: self.is_train,
        }
    }
}

/// What a client sends to open a new game: the hosting player and the
/// game's display name.
#[derive(Clone, Debug, PartialEq)]
pub struct NewGameInfo {
    pub host: Player,
    pub name: String,
}

/// The mathematical value of a [`NewGameInfo`].
pub ghost struct NewGameInfoView {
    pub host: PlayerView,
    pub name: Seq<char>,
}

impl View for NewGameInfo {
    type V = NewGameInfoView;

    open spec fn view(&self) -> NewGameInfoView {
        NewGameInfoView { host: self.host@, name: self.name@ }
    }
}

impl NewGameInfo {
    /// A copy whose mathematical value equals this request's.
    pub fn duplicate(&self) -> (r: Self)
        ensures
            r@ == self@,
    {
        Self { host: self.host.duplicate(), name: self.name.clone() }
    }
}

} // verus!
