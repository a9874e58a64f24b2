use game_core::enums::{InGameID, PlayerInputType};
use game_core::game_controller::GameController;
use game_core::gamestate::{GameState, PlayerInput};
use game_core::player::{NewGameInfo, Player};
use game_core::rules::GameRuleChecker;

// ========= Helpers ===========

fn make_game_controller() -> GameController {
    GameController::new(GameRuleChecker::new())
}

fn make_random_new_lobbies(
    amount_of_new_games: i32,
    random_players: Vec<Player>,
) -> Vec<NewGameInfo> {
    let mut new_lobbies: Vec<NewGameInfo> = Vec::with_capacity(amount_of_new_games as usize);
    let mut player_index = 0;
    for _ in 0..amount_of_new_games {
        if random_players.is_empty() {
            break;
        }
        let player = random_players.get(player_index).unwrap();
        player_index += 1;
        if player_index == random_players.len() {
            player_index = 0;
        }
        new_lobbies.push(NewGameInfo {
            host: player.clone(),
            name: rand::random::<i32>().to_string(),
        });
    }

    new_lobbies
}

fn make_random_player_list_with_size(
    amount_of_new_players_to_create: i32,
    controller: &mut GameController,
) -> Vec<Player> {
    let mut players: Vec<Player> = Vec::with_capacity(amount_of_new_players_to_create as usize);
    for _ in 0..amount_of_new_players_to_create {
        let mut p: Player = make_random_player_info(controller);
        while players.iter().any(|p1| p1.unique_id == p.unique_id) {
            p = make_random_player_info(controller);
        }
        players.push(p);
    }

    players
}

fn make_random_player_info(controller: &mut GameController) -> Player {
    Player::new(
        get_unique_player_id(controller).unwrap(),
        rand::random::<i32>().to_string(),
    )
}

fn get_unique_player_id(controller: &mut GameController) -> Result<i32, ()> {
    controller.generate_player_id().map_or(Err(()), Ok)
}

pub fn get_all_wanted_unique_player_ids(amount_of_new_ids_to_create: usize) -> bool {
    let mut controller = make_game_controller();

    let mut ids = Vec::with_capacity(amount_of_new_ids_to_create);
    for _ in 0..amount_of_new_ids_to_create {
        match controller.generate_player_id() {
            Ok(id) => {
                if ids.contains(&id) {
                    return false;
                }

                ids.push(id);
            }
            Err(_) => return false,
        }
    }

    true
}

pub fn test_creating_new_games(
    amount_of_new_players_to_create: i32,
    amount_of_new_games: i32,
) -> bool {
    let mut controller = make_game_controller();

    let random_players: Vec<Player> =
        make_random_player_list_with_size(amount_of_new_players_to_create, &mut controller);

    let new_lobbies: Vec<NewGameInfo> =
        make_random_new_lobbies(amount_of_new_games, random_players);

    let mut games_created: Vec<GameState> = Vec::new();

    for new_lobby in &new_lobbies {
        if let Ok(game) = controller.create_new_game(new_lobby.clone()) {
            games_created.push(game)
        }
    }

    if games_created.len()
        != std::cmp::min(
            amount_of_new_players_to_create as usize,
            amount_of_new_games as usize,
        )
    {
        return false;
    }

    let mut actual_games_to_create_from_full_list: Vec<NewGameInfo> = Vec::new();
    for i in 0..new_lobbies.len() {
        if actual_games_to_create_from_full_list
            .iter()
            .any(|lobby| lobby.host.unique_id == new_lobbies.get(i).unwrap().host.unique_id)
        {
            continue;
        }
        actual_games_to_create_from_full_list.push(new_lobbies.get(i).unwrap().clone());
    }

    for lobby in actual_games_to_create_from_full_list {
        if !games_created.iter().any(|game| {
            game.players
                .iter()
                .any(|player| player.unique_id == lobby.host.unique_id)
                && game.name == lobby.name
        }) {
            return false;
        }
    }
    true
}

fn base_input(player_id: i32, game_id: i32, input_type: PlayerInputType) -> PlayerInput {
    PlayerInput {
        player_id,
        game_id,
        input_type,
        related_role: None,
        related_node_id: None,
        district_modifier: None,
        situation_card_id: None,
        edge_modifier: None,
        related_bool: None,
    }
}

// =============== Tests ===============

#[test]
fn test_generation_of_unique_player_ids() {
    assert!(get_all_wanted_unique_player_ids(0));
    assert!(get_all_wanted_unique_player_ids(1));
    assert!(get_all_wanted_unique_player_ids(5));
    assert!(get_all_wanted_unique_player_ids(50));
    assert!(get_all_wanted_unique_player_ids(500));
    assert!(get_all_wanted_unique_player_ids(5000));
}

#[test]
fn test_making_lobbies() {
    assert!(test_creating_new_games(0, 0));
    assert!(test_creating_new_games(0, 1));
    assert!(test_creating_new_games(1, 1));
    assert!(test_creating_new_games(5, 10));
    assert!(test_creating_new_games(100, 110));
    assert!(test_creating_new_games(1000, 1000));
}

#[test]
fn test_full_round_scenario() {
    let mut controller = make_game_controller();
    let p1_id = controller.generate_player_id().unwrap();
    let p2_id = controller.generate_player_id().unwrap();
    let p1 = Player::new(p1_id, "P1".to_string());
    let p2 = Player::new(p2_id, "P2".to_string());

    let game = controller
        .create_new_game(NewGameInfo {
            host: p1.clone(),
            name: "Lobby".to_string(),
        })
        .unwrap();
    let game_id = game.id;
    controller.join_game(game_id, p2.clone()).unwrap();

    let mut role_input = base_input(p1_id, game_id, PlayerInputType::ChangeRole);
    role_input.related_role = Some(InGameID::Orchestrator);
    controller.handle_player_input(role_input).unwrap();

    let mut role_input2 = base_input(p2_id, game_id, PlayerInputType::ChangeRole);
    role_input2.related_role = Some(InGameID::PlayerOne);
    controller.handle_player_input(role_input2).unwrap();

    let mut card_input = base_input(p1_id, game_id, PlayerInputType::AssignSituationCard);
    card_input.situation_card_id = Some(1);
    controller.handle_player_input(card_input).unwrap();

    let started = controller
        .handle_player_input(base_input(p1_id, game_id, PlayerInputType::StartGame))
        .unwrap();
    assert!(!started.is_lobby);

    let started_p1 = started
        .players
        .iter()
        .find(|p| p.unique_id == p1_id)
        .unwrap();
    assert_eq!(started_p1.remaining_moves, 8);
    assert!(started_p1.objective_card.is_none());

    let started_p2 = started
        .players
        .iter()
        .find(|p| p.unique_id == p2_id)
        .unwrap();
    assert!(started_p2.objective_card.is_some());
    assert_eq!(started_p2.remaining_moves, 8);

    // Movement by the second player while the orchestrator holds the
    // turn is rejected and leaves the stored game unchanged.
    let before = controller.games[0].clone();
    let p2_pos = started_p2.position_node_id.unwrap();
    let p2_target = started.map.edges[p2_pos as usize][0].to;
    let mut early_move = base_input(p2_id, game_id, PlayerInputType::Movement);
    early_move.related_node_id = Some(p2_target);
    let rejection = controller.handle_player_input(early_move);
    assert!(rejection.is_err());
    assert!(rejection.unwrap_err().contains("turn"));
    assert_eq!(controller.games[0], before);

    // A turn rotation from the current player hands the turn to the
    // next seated role and clears the visited districts.
    let rotated = controller
        .handle_player_input(base_input(p1_id, game_id, PlayerInputType::NextTurn))
        .unwrap();
    assert_eq!(rotated.current_players_turn, InGameID::PlayerOne);
    assert!(rotated.accessed_districts.is_empty());

    // Now the same movement input succeeds.
    let mut move_input = base_input(p2_id, game_id, PlayerInputType::Movement);
    move_input.related_node_id = Some(p2_target);
    let moved = controller.handle_player_input(move_input).unwrap();
    let moved_p2 = moved.players.iter().find(|p| p.unique_id == p2_id).unwrap();
    assert_eq!(moved_p2.position_node_id, Some(p2_target));
    assert!(moved_p2.remaining_moves < 8);
}

#[test]
fn test_failed_validation_leaves_game_unchanged() {
    let mut controller = make_game_controller();
    let p1_id = controller.generate_player_id().unwrap();
    let p1 = Player::new(p1_id, "Host".to_string());
    controller
        .create_new_game(NewGameInfo {
            host: p1,
            name: "Quiet".to_string(),
        })
        .unwrap();

    let before = controller.games[0].clone();
    // Starting without an orchestrator seat fails.
    let result =
        controller.handle_player_input(base_input(p1_id, controller.games[0].id, PlayerInputType::StartGame));
    assert!(result.is_err());
    assert_eq!(controller.games[0], before);
}

#[test]
fn test_unknown_game_and_player_errors() {
    let mut controller = make_game_controller();
    let p1_id = controller.generate_player_id().unwrap();

    // Unregistered identifier.
    let unregistered = base_input(p1_id + 1, 99, PlayerInputType::NextTurn);
    assert!(controller.handle_player_input(unregistered).is_err());

    // Registered identifier, unknown game.
    let unknown_game = base_input(p1_id, 424_242, PlayerInputType::NextTurn);
    assert!(controller.handle_player_input(unknown_game).is_err());

    // Unknown game on join.
    let p2 = Player::new(p1_id, "Nobody".to_string());
    assert!(controller.join_game(424_242, p2).is_err());

    // Unknown identifier on check-in.
    assert!(controller
        .update_check_in_and_remove_inactive(p1_id + 1)
        .is_err());
    assert!(controller.update_check_in_and_remove_inactive(p1_id).is_ok());
}

#[test]
fn test_join_game_capacity_and_duplicates() {
    let mut controller = make_game_controller();
    let host_id = controller.generate_player_id().unwrap();
    let host = Player::new(host_id, "Host".to_string());
    let game = controller
        .create_new_game(NewGameInfo {
            host: host.clone(),
            name: "Full".to_string(),
        })
        .unwrap();

    // The host cannot join a second time.
    assert!(controller.join_game(game.id, host.clone()).is_err());

    // Six more players fill the game to its capacity of seven.
    for i in 0..6 {
        let id = controller.generate_player_id().unwrap();
        let p = Player::new(id, format!("P{}", i));
        assert!(controller.join_game(game.id, p).is_ok());
    }
    let late_id = controller.generate_player_id().unwrap();
    let late = Player::new(late_id, "Late".to_string());
    let err = controller.join_game(game.id, late).unwrap_err();
    assert!(err.contains("full"));
}

#[test]
fn test_remove_player_dissolves_empty_game() {
    let mut controller = make_game_controller();
    let host_id = controller.generate_player_id().unwrap();
    let host = Player::new(host_id, "Host".to_string());
    controller
        .create_new_game(NewGameInfo {
            host,
            name: "Shortlived".to_string(),
        })
        .unwrap();
    assert_eq!(controller.get_created_games().len(), 1);
    controller.remove_player_from_game(host_id);
    assert_eq!(controller.get_created_games().len(), 0);
}

#[test]
fn test_lobby_listing() {
    let mut controller = make_game_controller();
    for name in ["Lobby1", "Lobby2", "Lobby3"] {
        let id = controller.generate_player_id().unwrap();
        let p = Player::new(id, name.to_string());
        controller
            .create_new_game(NewGameInfo {
                host: p,
                name: name.to_string(),
            })
            .unwrap();
    }
    assert_eq!(controller.get_all_lobbies().len(), 3);
    assert_eq!(controller.get_amount_of_created_player_ids(), 3);
}

#[test]
fn test_objective_cards_dealt_distinct_from_pool() {
    let mut controller = make_game_controller();
    let host_id = controller.generate_player_id().unwrap();
    let host = Player::new(host_id, "Host".to_string());
    let game = controller
        .create_new_game(NewGameInfo {
            host,
            name: "Dealt".to_string(),
        })
        .unwrap();
    let game_id = game.id;

    let mut role = base_input(host_id, game_id, PlayerInputType::ChangeRole);
    role.related_role = Some(InGameID::Orchestrator);
    controller.handle_player_input(role).unwrap();

    let seats = [
        InGameID::PlayerOne,
        InGameID::PlayerTwo,
        InGameID::PlayerThree,
        InGameID::PlayerFour,
        InGameID::PlayerFive,
        InGameID::PlayerSix,
    ];
    let mut member_ids = Vec::new();
    for seat in seats {
        let id = controller.generate_player_id().unwrap();
        member_ids.push(id);
        let p = Player::new(id, format!("{:?}", seat));
        controller.join_game(game_id, p).unwrap();
        let mut role = base_input(id, game_id, PlayerInputType::ChangeRole);
        role.related_role = Some(seat);
        controller.handle_player_input(role).unwrap();
    }

    let mut card_input = base_input(host_id, game_id, PlayerInputType::AssignSituationCard);
    card_input.situation_card_id = Some(1);
    controller.handle_player_input(card_input).unwrap();
    let started = controller
        .handle_player_input(base_input(host_id, game_id, PlayerInputType::StartGame))
        .unwrap();

    let pool = game_core::situation_card_list::SituationCardList::get_default_situation_card_by_id(1)
        .unwrap()
        .objective_cards;
    let mut seen = Vec::new();
    for id in member_ids {
        let p = started.players.iter().find(|p| p.unique_id == id).unwrap();
        let card = p.objective_card.clone().unwrap();
        assert!(pool.iter().any(|c| *c == card
            || (c.pick_up_node_id == card.pick_up_node_id
                && c.drop_off_node_id == card.drop_off_node_id
                && c.start_node_id == card.start_node_id)));
        assert!(p.position_node_id == Some(card.start_node_id));
        assert!(!seen.contains(&(card.start_node_id, card.pick_up_node_id, card.drop_off_node_id)));
        seen.push((card.start_node_id, card.pick_up_node_id, card.drop_off_node_id));
    }
}

#[test]
fn test_undo_removes_pending_action() {
    let mut controller = make_game_controller();
    let p1_id = controller.generate_player_id().unwrap();
    let p2_id = controller.generate_player_id().unwrap();
    let p1 = Player::new(p1_id, "P1".to_string());
    let p2 = Player::new(p2_id, "P2".to_string());
    let game = controller
        .create_new_game(NewGameInfo {
            host: p1,
            name: "Undoable".to_string(),
        })
        .unwrap();
    let game_id = game.id;
    controller.join_game(game_id, p2).unwrap();

    let mut role = base_input(p1_id, game_id, PlayerInputType::ChangeRole);
    role.related_role = Some(InGameID::Orchestrator);
    controller.handle_player_input(role).unwrap();
    let mut role2 = base_input(p2_id, game_id, PlayerInputType::ChangeRole);
    role2.related_role = Some(InGameID::PlayerOne);
    controller.handle_player_input(role2).unwrap();
    let mut card = base_input(p1_id, game_id, PlayerInputType::AssignSituationCard);
    card.situation_card_id = Some(1);
    controller.handle_player_input(card).unwrap();
    controller
        .handle_player_input(base_input(p1_id, game_id, PlayerInputType::StartGame))
        .unwrap();
    controller
        .handle_player_input(base_input(p1_id, game_id, PlayerInputType::NextTurn))
        .unwrap();

    let snapshot = controller.games[0].clone();
    let p2_pos = snapshot
        .players
        .iter()
        .find(|p| p.unique_id == p2_id)
        .unwrap()
        .position_node_id
        .unwrap();
    let target = snapshot.map.edges[p2_pos as usize][0].to;
    let mut mv = base_input(p2_id, game_id, PlayerInputType::Movement);
    mv.related_node_id = Some(target);
    controller.handle_player_input(mv).unwrap();
    assert_eq!(controller.games[0].actions.len(), 1);

    controller
        .handle_player_input(base_input(p2_id, game_id, PlayerInputType::UndoAction))
        .unwrap();
    assert_eq!(controller.games[0].actions.len(), 0);

    // Undoing with nothing pending fails.
    assert!(controller
        .handle_player_input(base_input(p2_id, game_id, PlayerInputType::UndoAction))
        .is_err());
}
