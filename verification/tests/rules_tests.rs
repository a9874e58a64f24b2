use game_core::enums::{InGameID, PlayerInputType, RestrictionType};
use game_core::game_controller::GameController;
use game_core::gamestate::{GameState, PlayerInput};
use game_core::mock_multiplayer_controller::MockMultiplayerController;
use game_core::node_map::EdgeRestriction;
use game_core::player::{NewGameInfo, Player};
use game_core::rules::{
    can_toggle_bus, can_toggle_train, has_enough_moves, is_edge_modification_action_valid,
    next_node_is_neighbour, GameRuleChecker, ValidationResponse,
};
use game_core::situation_card_list::SituationCardList;

fn active_game_with_player_at(position: u8) -> GameState {
    let mut gs = GameState::new("rules".to_string(), 1);
    gs.situation_card = Some(SituationCardList::get_default_situation_card_by_id(1).unwrap());
    gs.update_node_map_with_situation_card().unwrap();
    gs.is_lobby = false;
    let mut p = Player::new(7, "driver".to_string());
    p.in_game_id = InGameID::PlayerOne;
    p.position_node_id = Some(position);
    p.remaining_moves = 8;
    gs.players.push(p);
    gs
}

fn movement_input(player_id: i32, to: u8) -> PlayerInput {
    PlayerInput {
        player_id,
        game_id: 1,
        input_type: PlayerInputType::Movement,
        related_role: None,
        related_node_id: Some(to),
        district_modifier: None,
        situation_card_id: None,
        edge_modifier: None,
        related_bool: None,
    }
}

fn is_valid<T>(r: &ValidationResponse<T>) -> bool {
    matches!(r, ValidationResponse::Valid)
}

#[test]
fn test_toggle_rules_need_matching_node() {
    // Node 0 is neither a parking spot nor a rail station; node 2 is
    // both.
    let mut gs = active_game_with_player_at(0);
    let mut input = movement_input(7, 0);
    input.input_type = PlayerInputType::SetPlayerBusBool;
    input.related_bool = Some(true);
    assert!(!is_valid(&can_toggle_bus(&gs, &input)));
    assert!(!is_valid(&can_toggle_train(&gs, &input)));

    gs.players[0].position_node_id = Some(2);
    assert!(is_valid(&can_toggle_bus(&gs, &input)));
    assert!(is_valid(&can_toggle_train(&gs, &input)));

    // A train cannot become a bus, nor a bus a train.
    gs.players[0].is_train = true;
    assert!(!is_valid(&can_toggle_bus(&gs, &input)));
    gs.players[0].is_train = false;
    gs.players[0].is_bus = true;
    assert!(!is_valid(&can_toggle_train(&gs, &input)));

    // Without the flag payload neither toggle is allowed.
    gs.players[0].is_bus = false;
    input.related_bool = None;
    assert!(!is_valid(&can_toggle_bus(&gs, &input)));
    assert!(!is_valid(&can_toggle_train(&gs, &input)));
}

#[test]
fn test_enough_moves_rule_counts_the_whole_move() {
    // Entering the city centre of the concert scenario costs four, so
    // three remaining moves are not enough once the move is
    // speculatively applied.
    let mut gs = active_game_with_player_at(9);
    gs.situation_card = Some(SituationCardList::get_default_situation_card_by_id(2).unwrap());
    gs.update_node_map_with_situation_card().unwrap();
    gs.players[0].remaining_moves = 3;
    assert!(!is_valid(&has_enough_moves(&gs, &movement_input(7, 10))));
    gs.players[0].remaining_moves = 4;
    assert!(is_valid(&has_enough_moves(&gs, &movement_input(7, 10))));
    gs.players[0].remaining_moves = 0;
    assert!(!is_valid(&has_enough_moves(&gs, &movement_input(7, 10))));
}

#[test]
fn test_neighbour_rule() {
    let gs = active_game_with_player_at(0);
    assert!(is_valid(&next_node_is_neighbour(&gs, &movement_input(7, 1))));
    assert!(!is_valid(&next_node_is_neighbour(&gs, &movement_input(7, 5))));
}

#[test]
fn test_edge_modification_rule() {
    let mut gs = active_game_with_player_at(0);
    let mut input = movement_input(7, 0);
    input.input_type = PlayerInputType::ModifyEdgeRestrictions;

    // Placing a park & ride road next to a parking spot is allowed;
    // node 2 is a parking spot.
    input.edge_modifier = Some(EdgeRestriction::new(2, 3, RestrictionType::ParkAndRide));
    assert!(is_valid(&is_edge_modification_action_valid(&gs, &input)));

    // Placing one between two plain nodes with no adjacent park & ride
    // road is not.
    input.edge_modifier = Some(EdgeRestriction::new(7, 8, RestrictionType::ParkAndRide));
    assert!(!is_valid(&is_edge_modification_action_valid(&gs, &input)));

    // Creating an absent restriction on an existing road is allowed;
    // creating it twice is not.
    input.edge_modifier = Some(EdgeRestriction::new(0, 1, RestrictionType::Hazard));
    assert!(is_valid(&is_edge_modification_action_valid(&gs, &input)));
    gs.add_edge_restriction(&EdgeRestriction::new(0, 1, RestrictionType::Hazard), true)
        .unwrap();
    assert!(!is_valid(&is_edge_modification_action_valid(&gs, &input)));

    // Deleting the now-present restriction is allowed; deleting one
    // that is not there is refused.
    let mut removal = EdgeRestriction::new(0, 1, RestrictionType::Hazard);
    removal.delete = true;
    input.edge_modifier = Some(removal);
    assert!(is_valid(&is_edge_modification_action_valid(&gs, &input)));

    let mut absent_removal = EdgeRestriction::new(0, 2, RestrictionType::Hazard);
    absent_removal.delete = true;
    input.edge_modifier = Some(absent_removal);
    assert!(!is_valid(&is_edge_modification_action_valid(&gs, &input)));
}

#[test]
fn test_engine_rejects_before_game_start() {
    let checker = GameRuleChecker::new();
    let mut gs = active_game_with_player_at(0);
    gs.is_lobby = true;
    let verdict = checker.is_input_valid(&gs, &movement_input(7, 1));
    assert!(verdict.is_some());
    assert!(verdict.unwrap().contains("not started"));
}

#[test]
fn test_mock_controller_buffers_ids_and_lobbies() {
    let controller = GameController::new(GameRuleChecker::new());
    let mut mock = MockMultiplayerController::new(controller);
    assert!(mock.get_unique_id().is_none());
    mock.generate_id();
    let id = mock.get_unique_id().unwrap();

    let host = Player::new(id, "mock host".to_string());
    mock.make_lobbies(vec![NewGameInfo {
        host,
        name: "mock lobby".to_string(),
    }]);
    assert_eq!(mock.get_created_games().len(), 1);

    // A second lobby for the same host is refused by the manager and
    // silently dropped by the mock.
    let host_again = Player::new(id, "mock host".to_string());
    mock.make_lobbies(vec![NewGameInfo {
        host: host_again,
        name: "second".to_string(),
    }]);
    assert_eq!(mock.get_created_games().len(), 1);
}
