use game_core::cards::CostTuple;
use game_core::enums::{District, InGameID, RestrictionType, Traffic, DistrictModifierType};
use game_core::gamestate::{DistrictModifier, GameState};
use game_core::node_map::{EdgeRestriction, NodeMap};
use game_core::player::Player;
use game_core::situation_card_list::SituationCardList;

fn seated_player(id: i32, role: InGameID, position: Option<u8>) -> Player {
    let mut p = Player::new(id, format!("player {}", id));
    p.in_game_id = role;
    p.position_node_id = position;
    p.remaining_moves = 8;
    p
}

#[test]
fn test_traffic_movement_costs() {
    assert_eq!(Traffic::LevelOne.get_movement_cost(), 0);
    assert_eq!(Traffic::LevelTwo.get_movement_cost(), 0);
    assert_eq!(Traffic::LevelThree.get_movement_cost(), 1);
    assert_eq!(Traffic::LevelFour.get_movement_cost(), 2);
    assert_eq!(Traffic::LevelFive.get_movement_cost(), 4);
    assert_eq!(Traffic::LevelFour.increased(), Traffic::LevelFive);
    assert_eq!(Traffic::LevelFive.increased(), Traffic::LevelFive);
}

#[test]
fn test_situation_card_catalogue_lookup() {
    for id in 1..=5u8 {
        let card = SituationCardList::get_default_situation_card_by_id(id).unwrap();
        assert_eq!(card.card_id, id);
        assert_eq!(card.costs.len(), 6);
        assert_eq!(card.objective_cards.len(), 6);
    }
    assert!(SituationCardList::get_default_situation_card_by_id(0).is_err());
    assert!(SituationCardList::get_default_situation_card_by_id(6).is_err());
}

#[test]
fn test_default_map_shape() {
    let map = NodeMap::new_default();
    assert_eq!(map.nodes.len(), 29);
    assert_eq!(map.edges.len(), 29);
    for (i, node) in map.nodes.iter().enumerate() {
        assert_eq!(node.id as usize, i);
    }
    // The ring road between I6 and I7 exists in both directions.
    assert!(map.edges[19].iter().any(|e| e.to == 20));
    assert!(map.edges[20].iter().any(|e| e.to == 19));
}

#[test]
fn test_first_and_second_district_entry_costs() {
    // The concert scenario raises the city centre to its highest
    // traffic level, whose base movement cost is four.
    let mut gs = GameState::new("costs".to_string(), 1);
    gs.situation_card = Some(SituationCardList::get_default_situation_card_by_id(2).unwrap());
    gs.update_node_map_with_situation_card().unwrap();
    gs.is_lobby = false;
    gs.players.push(seated_player(7, InGameID::PlayerOne, Some(9)));

    // First entry into the city centre: the floor of the district base
    // cost (4) and the edge cost (1) is 4.
    gs.move_player_with_id(7, 10).unwrap();
    let p = gs.get_player_with_unique_id(7).unwrap();
    assert_eq!(p.position_node_id, Some(10));
    assert_eq!(p.remaining_moves, 8 - 4);

    // A second move within the same district costs only the edge's own
    // cost of 1.
    gs.move_player_with_id(7, 11).unwrap();
    let p = gs.get_player_with_unique_id(7).unwrap();
    assert_eq!(p.remaining_moves, 8 - 4 - 1);
}

#[test]
fn test_non_adjacent_movement_is_rejected() {
    let mut gs = GameState::new("adjacency".to_string(), 1);
    gs.situation_card = Some(SituationCardList::get_default_situation_card_by_id(1).unwrap());
    gs.update_node_map_with_situation_card().unwrap();
    gs.is_lobby = false;
    gs.players.push(seated_player(7, InGameID::PlayerOne, Some(0)));

    // Node 5 is not adjacent to node 0.
    assert!(gs.map.edges[0].iter().all(|e| e.to != 5));
    let before_moves = gs.get_player_with_unique_id(7).unwrap().remaining_moves;
    assert!(gs.move_player_with_id(7, 5).is_err());
    let p = gs.get_player_with_unique_id(7).unwrap();
    assert_eq!(p.position_node_id, Some(0));
    assert_eq!(p.remaining_moves, before_moves);
}

#[test]
fn test_edge_restriction_symmetry() {
    let mut gs = GameState::new("symmetry".to_string(), 1);
    let restriction = EdgeRestriction::new(2, 3, RestrictionType::Electric);
    gs.add_edge_restriction(&restriction, true).unwrap();

    let forward = gs.map.edges[2].iter().find(|e| e.to == 3).unwrap();
    let backward = gs.map.edges[3].iter().find(|e| e.to == 2).unwrap();
    assert_eq!(forward.restriction, Some(RestrictionType::Electric));
    assert_eq!(backward.restriction, Some(RestrictionType::Electric));
    assert!(!forward.blocked);
    assert!(!backward.blocked);
}

#[test]
fn test_one_way_restriction_blocks_single_direction() {
    let mut gs = GameState::new("one way".to_string(), 1);
    let restriction = EdgeRestriction::new(19, 20, RestrictionType::OneWay);
    gs.add_edge_restriction(&restriction, true).unwrap();

    let forward = gs.map.edges[19].iter().find(|e| e.to == 20).unwrap();
    let backward = gs.map.edges[20].iter().find(|e| e.to == 19).unwrap();
    assert_eq!(forward.restriction, Some(RestrictionType::OneWay));
    assert!(forward.blocked);
    assert_eq!(backward.restriction, None);
    assert!(!backward.blocked);

    // The blocked direction refuses movement, the open one allows it.
    gs.is_lobby = false;
    gs.players.push(seated_player(7, InGameID::PlayerOne, Some(19)));
    assert!(gs.move_player_with_id(7, 20).is_err());
    gs.players[0].position_node_id = Some(20);
    assert!(gs.move_player_with_id(7, 19).is_ok());
}

#[test]
fn test_restriction_removal_restores_both_directions() {
    let mut gs = GameState::new("removal".to_string(), 1);
    let restriction = EdgeRestriction::new(2, 3, RestrictionType::Hazard);
    gs.add_edge_restriction(&restriction, true).unwrap();
    assert_eq!(gs.edge_restrictions.len(), 1);
    gs.remove_restriction_from_edge(&restriction).unwrap();
    assert_eq!(gs.edge_restrictions.len(), 0);
    assert!(gs.map.edges[2]
        .iter()
        .find(|e| e.to == 3)
        .unwrap()
        .restriction
        .is_none());
    assert!(gs.map.edges[3]
        .iter()
        .find(|e| e.to == 2)
        .unwrap()
        .restriction
        .is_none());
}

#[test]
fn test_start_game_requirements() {
    // Fewer than two players.
    let mut gs = GameState::new("small".to_string(), 1);
    gs.situation_card = Some(SituationCardList::get_default_situation_card_by_id(1).unwrap());
    let mut host = Player::new(1, "host".to_string());
    host.in_game_id = InGameID::Orchestrator;
    gs.players.push(host);
    assert!(gs.start_game().is_err());

    // No orchestrator.
    let mut gs = GameState::new("headless".to_string(), 1);
    gs.situation_card = Some(SituationCardList::get_default_situation_card_by_id(1).unwrap());
    gs.players.push(seated_player(1, InGameID::PlayerOne, None));
    gs.players.push(seated_player(2, InGameID::PlayerTwo, None));
    assert!(gs.start_game().is_err());

    // No situation card.
    let mut gs = GameState::new("cardless".to_string(), 1);
    gs.players.push(seated_player(1, InGameID::Orchestrator, None));
    gs.players.push(seated_player(2, InGameID::PlayerOne, None));
    assert!(gs.start_game().is_err());

    // An undecided seat.
    let mut gs = GameState::new("undecided".to_string(), 1);
    gs.situation_card = Some(SituationCardList::get_default_situation_card_by_id(1).unwrap());
    gs.players.push(seated_player(1, InGameID::Orchestrator, None));
    gs.players.push(seated_player(2, InGameID::Undecided, None));
    assert!(gs.start_game().is_err());

    // A complete lobby starts, with missions for everyone but the
    // orchestrator and the starting budget for all.
    let mut gs = GameState::new("ready".to_string(), 1);
    gs.situation_card = Some(SituationCardList::get_default_situation_card_by_id(1).unwrap());
    gs.players.push(seated_player(1, InGameID::Orchestrator, None));
    gs.players.push(seated_player(2, InGameID::PlayerOne, None));
    gs.players[0].remaining_moves = 0;
    gs.players[1].remaining_moves = 0;
    assert!(gs.start_game().is_ok());
    assert!(!gs.is_lobby);
    assert_eq!(gs.players[0].remaining_moves, 8);
    assert_eq!(gs.players[1].remaining_moves, 8);
    assert!(gs.players[0].objective_card.is_none());
    let card = gs.players[1].objective_card.clone().unwrap();
    assert_eq!(gs.players[1].position_node_id, Some(card.start_node_id));
}

#[test]
fn test_district_modifier_cap() {
    let mut gs = GameState::new("capped".to_string(), 1);
    gs.situation_card = Some(SituationCardList::get_default_situation_card_by_id(1).unwrap());
    let modifier = DistrictModifier {
        district: District::CityCentre,
        modifier: DistrictModifierType::Access,
        vehicle_type: Some(RestrictionType::Electric),
        associated_movement_value: None,
        associated_money_value: None,
        delete: false,
    };
    assert!(gs.add_district_modifier(modifier).is_ok());
    assert!(gs.add_district_modifier(modifier).is_ok());
    let err = gs.add_district_modifier(modifier).unwrap_err();
    assert!(err.contains("Cannot add more modifiers"));
    assert_eq!(gs.district_modifiers.len(), 2);
}

#[test]
fn test_access_modifier_recomputes_traffic() {
    let mut gs = GameState::new("traffic".to_string(), 1);
    gs.situation_card = Some(SituationCardList::get_default_situation_card_by_id(2).unwrap());
    gs.update_node_map_with_situation_card().unwrap();

    // An electric-only access modifier rebuilds the city centre's
    // traffic from the lowest level, raised once: two steps for the
    // electric type, less the single discounted step.
    let modifier = DistrictModifier {
        district: District::CityCentre,
        modifier: DistrictModifierType::Access,
        vehicle_type: Some(RestrictionType::Electric),
        associated_movement_value: None,
        associated_money_value: None,
        delete: false,
    };
    gs.add_district_modifier(modifier).unwrap();
    let costs = &gs.situation_card.as_ref().unwrap().costs;
    let city = costs
        .iter()
        .find(|c: &&CostTuple| c.neighbourhood == District::CityCentre)
        .unwrap();
    assert_eq!(city.traffic, Traffic::LevelTwo);

    // Removing the modifier restores the scenario's original level.
    let mut removal = modifier;
    removal.delete = true;
    gs.remove_district_modifier(removal).unwrap();
    let costs = &gs.situation_card.as_ref().unwrap().costs;
    let city = costs
        .iter()
        .find(|c: &&CostTuple| c.neighbourhood == District::CityCentre)
        .unwrap();
    assert_eq!(city.traffic, Traffic::LevelFive);
}

#[test]
fn test_turn_rotation_skips_unseated_roles() {
    let mut gs = GameState::new("rotation".to_string(), 1);
    gs.is_lobby = false;
    gs.players.push(seated_player(1, InGameID::Orchestrator, None));
    gs.players.push(seated_player(2, InGameID::PlayerThree, None));
    gs.accessed_districts.push(District::Port);

    gs.next_player_turn();
    assert_eq!(gs.current_players_turn, InGameID::PlayerThree);
    assert!(gs.accessed_districts.is_empty());

    // Rotating past the last seated player returns to the orchestrator
    // and flags the round boundary as lobby mode.
    gs.next_player_turn();
    assert_eq!(gs.current_players_turn, InGameID::Orchestrator);
    assert!(gs.is_lobby);
}

#[test]
fn test_assign_player_role_conflicts() {
    let mut gs = GameState::new("roles".to_string(), 1);
    gs.players.push(seated_player(1, InGameID::Orchestrator, None));
    gs.players.push(seated_player(2, InGameID::Undecided, None));
    let err = gs.assign_player_role((2, InGameID::Orchestrator)).unwrap_err();
    assert!(err.contains("already a player with this role"));
    assert!(gs.assign_player_role((2, InGameID::PlayerTwo)).is_ok());
    assert_eq!(gs.players[1].in_game_id, InGameID::PlayerTwo);
    assert!(gs.assign_player_role((3, InGameID::PlayerFour)).is_err());
}

#[test]
fn test_remove_player_promotes_new_orchestrator() {
    let mut gs = GameState::new("promotion".to_string(), 1);
    gs.players.push(seated_player(1, InGameID::Orchestrator, None));
    let mut second = seated_player(2, InGameID::PlayerOne, None);
    second.objective_card = SituationCardList::get_default_situation_card_by_id(1)
        .unwrap()
        .objective_cards
        .pop();
    gs.players.push(second);
    gs.remove_player_with_id(1);
    assert_eq!(gs.players.len(), 1);
    assert_eq!(gs.players[0].in_game_id, InGameID::Orchestrator);
    assert!(gs.players[0].objective_card.is_none());
}

#[test]
fn test_pickup_and_delivery_flags() {
    let mut gs = GameState::new("delivery".to_string(), 1);
    let mut courier = seated_player(5, InGameID::PlayerOne, Some(7));
    let mut card = SituationCardList::get_default_situation_card_by_id(1)
        .unwrap()
        .objective_cards
        .remove(0);
    card.pick_up_node_id = 7;
    card.drop_off_node_id = 8;
    courier.objective_card = Some(card);
    gs.players.push(courier);

    gs.update_objective_status().unwrap();
    let card = gs.players[0].objective_card.clone().unwrap();
    assert!(card.picked_package_up);
    assert!(!card.dropped_package_off);

    gs.players[0].position_node_id = Some(8);
    gs.update_objective_status().unwrap();
    let card = gs.players[0].objective_card.clone().unwrap();
    assert!(card.dropped_package_off);
}

#[test]
fn test_heavy_cargo_requires_heavy_vehicle() {
    let card = game_core::cards::PlayerObjectiveCard::new(
        "Big load".to_string(),
        1,
        2,
        3,
        Vec::new(),
        game_core::enums::TypeEntitiesToTransport::Packages,
        5,
    );
    assert!(card.special_vehicle_types.contains(&RestrictionType::Heavy));
    let light = game_core::cards::PlayerObjectiveCard::new(
        "Small load".to_string(),
        1,
        2,
        3,
        Vec::new(),
        game_core::enums::TypeEntitiesToTransport::Packages,
        4,
    );
    assert!(light.special_vehicle_types.is_empty());
}

#[test]
fn test_scenario_map_adjustments() {
    // The accident scenario blocks the ring road one way from I6 to I7
    // and records the restriction for clients.
    let mut gs = GameState::new("accident".to_string(), 1);
    gs.situation_card = Some(SituationCardList::get_default_situation_card_by_id(4).unwrap());
    gs.update_node_map_with_situation_card().unwrap();
    let forward = gs.map.edges[19].iter().find(|e| e.to == 20).unwrap();
    assert_eq!(forward.restriction, Some(RestrictionType::OneWay));
    assert!(forward.blocked);
    let backward = gs.map.edges[20].iter().find(|e| e.to == 19).unwrap();
    assert!(!backward.blocked);
    assert_eq!(gs.edge_restrictions.len(), 1);
    assert_eq!(gs.edge_restrictions[0].node_one, 19);
    assert_eq!(gs.edge_restrictions[0].node_two, 20);

    // The rush-hour scenario closes the Warehouses and Terminal 1 rail
    // stations and leaves the others open.
    let mut gs = GameState::new("rush hour".to_string(), 1);
    gs.situation_card = Some(SituationCardList::get_default_situation_card_by_id(5).unwrap());
    gs.update_node_map_with_situation_card().unwrap();
    assert!(!gs.map.nodes[24].is_connected_to_rail);
    assert!(!gs.map.nodes[27].is_connected_to_rail);
    assert!(gs.map.nodes[2].is_connected_to_rail);
    assert!(gs.map.nodes[10].is_connected_to_rail);
    assert!(gs.edge_restrictions.is_empty());
}

#[test]
fn test_default_map_rail_and_parking_sets() {
    let map = NodeMap::new_default();
    let rail: Vec<u8> = map
        .nodes
        .iter()
        .filter(|n| n.is_connected_to_rail)
        .map(|n| n.id)
        .collect();
    assert_eq!(rail, vec![2, 10, 24, 27]);
    let parking: Vec<u8> = map
        .nodes
        .iter()
        .filter(|n| n.is_parking_spot)
        .map(|n| n.id)
        .collect();
    assert_eq!(parking, vec![2, 9, 13, 19, 21, 26, 27]);
    // Adjacency is symmetric and unrestricted.
    for (a, list) in map.edges.iter().enumerate() {
        for e in list {
            assert!(map.edges[e.to as usize].iter().any(|back| back.to as usize == a));
            assert_eq!(e.restriction, None);
            assert!(!e.blocked);
            assert!(e.is_modifiable);
            assert_eq!(e.movement_cost, 1);
        }
    }
    // The rail links are exactly 2-10, 10-24 and 24-27.
    let mut rail_links: Vec<(u8, u8)> = Vec::new();
    for (a, list) in map.edges.iter().enumerate() {
        for e in list {
            if e.is_connected_through_rail && (a as u8) < e.to {
                rail_links.push((a as u8, e.to));
            }
        }
    }
    assert_eq!(rail_links, vec![(2, 10), (10, 24), (24, 27)]);
}
