//! The rule-validation pipeline: an ordered list of independent rules,
//! each applicable to a subset of input kinds, evaluated in
//! registration order with a short circuit on the first failure.

use vstd::prelude::*;

use crate::enums::{District, DistrictModifierType, InGameID, PlayerInputType, RestrictionType};
use crate::gamestate::{GameState, GameStateView, PlayerInput, spec_has_player, spec_player,
    spec_move_ok, spec_move_new_remaining, lemma_player, lemma_player_at};
use crate::player::Player;
use crate::node_map::{EdgeRestriction, NeighbourRelationship, NodeMapView, spec_has_edge,
    spec_has_node, spec_node, spec_list_has_edge, spec_list_edge_idx, lemma_list_edge_at};
use crate::cards::PlayerObjectiveCardView;
use crate::player::PlayerView;

verus! {

/// The interface the game controller validates inputs through.
pub trait RuleChecker {
    fn is_input_valid(&self, game: &GameState, input: &PlayerInput) -> Option<String>;
}

/// What one rule decides about an action: it is allowed, or refused
/// with a message.
pub enum ValidationResponse<T> {
    Valid,
    Invalid(T),
}

/// The rules, by name.
#[derive(Clone, Copy, Debug, PartialEq, Eq, Structural)]
pub enum RuleKind {
    HasGameStarted,
    IsPlayersTurn,
    IsOrchestrator,
    HasPosition,
    CanToggleBus,
    CanToggleTrain,
    NextNodeIsNeighbour,
    HasEnoughMoves,
    CanMoveToNode,
    IsEdgeModificationActionValid,
}

/// One registered rule: the input kinds it applies to, and which check
/// it runs.
pub struct Rule {
    pub related_inputs: Vec<PlayerInputType>,
    pub kind: RuleKind,
}

/// The mathematical value of a [`Rule`].
#[verifier::ext_equal]
pub ghost struct RuleView {
    pub related_inputs: Seq<PlayerInputType>,
    pub kind: RuleKind,
}

impl View for Rule {
    type V = RuleView;

    open spec fn view(&self) -> RuleView {
        RuleView { related_inputs: self.related_inputs@, kind: self.kind }
    }
}

// ---------------------------------------------------------------------
// What each rule checks, mathematically.

/// Turn-scoped actions need a started game.
pub open spec fn spec_rule_has_game_started(g: GameStateView) -> bool {
    !g.is_lobby
}

/// In an active game only the player whose turn it is may act, except
/// to leave the game.
pub open spec fn spec_rule_is_players_turn(g: GameStateView, inp: PlayerInput) -> bool {
    ||| g.is_lobby
    ||| inp.input_type == PlayerInputType::LeaveGame
    ||| (spec_has_player(g.players, inp.player_id) && spec_player(
        g.players,
        inp.player_id,
    ).in_game_id == g.current_players_turn)
}

/// Only the orchestrator starts the game or modifies zone rules.
pub open spec fn spec_rule_is_orchestrator(g: GameStateView, inp: PlayerInput) -> bool {
    spec_has_player(g.players, inp.player_id) && spec_player(g.players, inp.player_id).in_game_id
        == InGameID::Orchestrator
}

/// A moving player must stand somewhere.
pub open spec fn spec_rule_has_position(g: GameStateView, inp: PlayerInput) -> bool {
    spec_has_player(g.players, inp.player_id) && spec_player(
        g.players,
        inp.player_id,
    ).position_node_id is Some
}

/// Turning into a bus needs the flag payload, an ordinary car, and a
/// parking spot under the player.
pub open spec fn spec_rule_can_toggle_bus(g: GameStateView, inp: PlayerInput) -> bool {
    &&& spec_has_player(g.players, inp.player_id)
    &&& inp.related_bool is Some
    &&& !spec_player(g.players, inp.player_id).is_train
    &&& spec_player(g.players, inp.player_id).position_node_id is Some
    &&& spec_has_node(g.map.nodes, spec_player(g.players, inp.player_id).position_node_id->0)
    &&& spec_node(
        g.map.nodes,
        spec_player(g.players, inp.player_id).position_node_id->0,
    ).is_parking_spot
}

/// Turning into a train needs the flag payload, an ordinary car, and a
/// rail station under the player.
pub open spec fn spec_rule_can_toggle_train(g: GameStateView, inp: PlayerInput) -> bool {
    &&& spec_has_player(g.players, inp.player_id)
    &&& inp.related_bool is Some
    &&& !spec_player(g.players, inp.player_id).is_bus
    &&& spec_player(g.players, inp.player_id).position_node_id is Some
    &&& spec_has_node(g.map.nodes, spec_player(g.players, inp.player_id).position_node_id->0)
    &&& spec_node(
        g.map.nodes,
        spec_player(g.players, inp.player_id).position_node_id->0,
    ).is_connected_to_rail
}

/// The destination of a movement must be adjacent to the player's
/// position.
pub open spec fn spec_rule_next_node_is_neighbour(g: GameStateView, inp: PlayerInput) -> bool {
    &&& spec_has_player(g.players, inp.player_id)
    &&& spec_player(g.players, inp.player_id).position_node_id is Some
    &&& inp.related_node_id is Some
    &&& (spec_player(g.players, inp.player_id).position_node_id->0 as int) < g.map.edges.len()
    &&& spec_has_edge(
        g.map,
        spec_player(g.players, inp.player_id).position_node_id->0,
        inp.related_node_id->0,
    )
}

/// A movement must leave the player with a non-negative budget after
/// it is speculatively applied.
pub open spec fn spec_rule_has_enough_moves(g: GameStateView, inp: PlayerInput) -> bool {
    &&& spec_has_player(g.players, inp.player_id)
    &&& spec_player(g.players, inp.player_id).remaining_moves != 0
    &&& inp.related_node_id is Some
    &&& spec_move_ok(g, inp.player_id, inp.related_node_id->0)
    &&& spec_move_new_remaining(g, inp.player_id, inp.related_node_id->0) >= 0
}

/// The verdict of scanning the access modifiers for entry into
/// district `d`, starting at position `i` with `seen_mod` recording
/// whether an access modifier for `d` was already passed: entry is
/// denied by the first access modifier without a vehicle type, granted
/// by the first one whose vehicle the mission requires, and otherwise
/// granted exactly when the district has no access modifier at all.
pub open spec fn spec_enter_scan(
    mods: Seq<crate::gamestate::DistrictModifier>,
    d: District,
    card: PlayerObjectiveCardView,
    i: int,
    seen_mod: bool,
) -> bool
    decreases mods.len() - i,
{
    if i < 0 || i >= mods.len() {
        !seen_mod
    } else if mods[i].district != d || mods[i].modifier != DistrictModifierType::Access {
        spec_enter_scan(mods, d, card, i + 1, seen_mod)
    } else if mods[i].vehicle_type is None {
        false
    } else if card.special_vehicle_types.contains(mods[i].vehicle_type->0) {
        true
    } else {
        spec_enter_scan(mods, d, card, i + 1, true)
    }
}

/// A district with an access modifier admits only missions holding the
/// required vehicle type.
pub open spec fn spec_rule_can_enter_district(g: GameStateView, inp: PlayerInput) -> bool {
    &&& spec_has_player(g.players, inp.player_id)
    &&& spec_player(g.players, inp.player_id).objective_card is Some
    &&& spec_player(g.players, inp.player_id).position_node_id is Some
    &&& (spec_player(g.players, inp.player_id).position_node_id->0 as int) < g.map.edges.len()
    &&& inp.related_node_id is Some
    &&& spec_list_has_edge(
        g.map.edges[spec_player(g.players, inp.player_id).position_node_id->0 as int],
        inp.related_node_id->0,
    )
    &&& spec_enter_scan(
        g.district_modifiers,
        crate::gamestate::spec_move_edge(g, inp.player_id, inp.related_node_id->0).neighbourhood,
        spec_player(g.players, inp.player_id).objective_card->0,
        0,
        false,
    )
}

/// Whether the adjacency list holds a park-and-ride record leading to
/// `to`.
pub open spec fn spec_pr_edge_to(list: Seq<NeighbourRelationship>, to: u8) -> bool {
    exists|j: int|
        0 <= j < list.len() && (#[trigger] list[j]).to == to && list[j].restriction == Some(
            RestrictionType::ParkAndRide,
        )
}

/// Whether the adjacency list holds a rail record leading to `to`.
pub open spec fn spec_rail_edge_to(list: Seq<NeighbourRelationship>, to: u8) -> bool {
    exists|j: int|
        0 <= j < list.len() && (#[trigger] list[j]).to == to && list[j].is_connected_through_rail
}

/// A movement must suit the player's vehicle mode: buses ride only
/// park-and-ride roads, trains only rail, and cars need any required
/// vehicle type for restricted roads and access to the district.
pub open spec fn spec_rule_can_move_to_node(g: GameStateView, inp: PlayerInput) -> bool {
    &&& spec_has_player(g.players, inp.player_id)
    &&& spec_player(g.players, inp.player_id).position_node_id is Some
    &&& inp.related_node_id is Some
    &&& {
        let p = spec_player(g.players, inp.player_id);
        let pos = p.position_node_id->0;
        let to = inp.related_node_id->0;
        &&& (pos as int) < g.map.edges.len()
        &&& {
            let list = g.map.edges[pos as int];
            if p.is_bus {
                spec_pr_edge_to(list, to)
            } else if p.is_train {
                spec_rail_edge_to(list, to)
            } else {
                &&& spec_list_has_edge(list, to)
                &&& {
                    let edge = list[spec_list_edge_idx(list, to)];
                    match edge.restriction {
                        Some(restriction) => p.objective_card is Some
                            && p.objective_card->0.special_vehicle_types.contains(restriction),
                        None => spec_rule_can_enter_district(g, inp) && !spec_pr_edge_to(list, to),
                    }
                }
            }
        }
    }
}

/// How many records of the list are park-and-ride records, among the
/// first `upto`.
pub open spec fn spec_pr_count(list: Seq<NeighbourRelationship>, upto: int) -> int
    decreases upto,
{
    if upto <= 0 {
        0
    } else {
        spec_pr_count(list, upto - 1) + if list[upto - 1].restriction == Some(
            RestrictionType::ParkAndRide,
        ) {
            1int
        } else {
            0int
        }
    }
}

/// Removing a park-and-ride road is allowed only while one of its ends
/// keeps at most one other park-and-ride connection; placing one needs
/// a parking spot or an existing park-and-ride road at one end.
pub open spec fn spec_can_modify_park_and_ride(
    nodes: Seq<crate::node_map::NodeView>,
    em: EdgeRestriction,
    list1: Seq<NeighbourRelationship>,
    list2: Seq<NeighbourRelationship>,
) -> bool {
    if em.delete {
        spec_pr_count(list1, list1.len() as int) < 2 || spec_pr_count(list2, list2.len() as int)
            < 2
    } else {
        &&& spec_has_node(nodes, em.node_one)
        &&& spec_has_node(nodes, em.node_two)
        &&& (spec_node(nodes, em.node_one).is_parking_spot || spec_node(
            nodes,
            em.node_two,
        ).is_parking_spot || spec_pr_count(list1, list1.len() as int) > 0 || spec_pr_count(
            list2,
            list2.len() as int,
        ) > 0)
    }
}

/// Removing any other restriction needs it present on the road;
/// placing it needs it absent.
pub open spec fn spec_default_can_modify_edge_restriction(
    em: EdgeRestriction,
    list1: Seq<NeighbourRelationship>,
) -> bool {
    if em.delete {
        exists|j: int|
            0 <= j < list1.len() && (#[trigger] list1[j]).to == em.node_two && list1[j].restriction
                == Some(em.edge_restriction)
    } else {
        forall|j: int|
            0 <= j < list1.len() ==> !((#[trigger] list1[j]).to == em.node_two && list1[
                j
            ].restriction == Some(em.edge_restriction))
    }
}

/// An edge-restriction request must name two connected nodes and meet
/// the placement or removal conditions of its restriction kind.
pub open spec fn spec_rule_is_edge_modification_valid(g: GameStateView, inp: PlayerInput) -> bool {
    &&& inp.edge_modifier is Some
    &&& {
        let em = inp.edge_modifier->0;
        &&& (em.node_one as int) < g.map.edges.len()
        &&& (em.node_two as int) < g.map.edges.len()
        &&& if em.edge_restriction == RestrictionType::ParkAndRide {
            spec_can_modify_park_and_ride(
                g.map.nodes,
                em,
                g.map.edges[em.node_one as int],
                g.map.edges[em.node_two as int],
            )
        } else {
            spec_default_can_modify_edge_restriction(em, g.map.edges[em.node_one as int])
        }
    }
}

/// Which input kinds a rule applies to. A rule listed for every kind
/// applies unconditionally.
pub open spec fn spec_rule_applies(kind: RuleKind, t: PlayerInputType) -> bool {
    match kind {
        RuleKind::HasGameStarted => t == PlayerInputType::Movement || t
            == PlayerInputType::ModifyDistrict || t == PlayerInputType::NextTurn || t
            == PlayerInputType::UndoAction,
        RuleKind::IsPlayersTurn => true,
        RuleKind::IsOrchestrator => t == PlayerInputType::StartGame || t
            == PlayerInputType::ModifyEdgeRestrictions || t == PlayerInputType::ModifyDistrict,
        RuleKind::HasPosition => t == PlayerInputType::Movement,
        RuleKind::CanToggleBus => t == PlayerInputType::SetPlayerBusBool,
        RuleKind::CanToggleTrain => t == PlayerInputType::SetPlayerTrainBool,
        RuleKind::NextNodeIsNeighbour => t == PlayerInputType::Movement,
        RuleKind::HasEnoughMoves => t == PlayerInputType::Movement,
        RuleKind::CanMoveToNode => t == PlayerInputType::Movement,
        RuleKind::IsEdgeModificationActionValid => t == PlayerInputType::ModifyEdgeRestrictions,
    }
}

/// Whether one rule passes on the given game and input.
pub open spec fn spec_rule_passes(kind: RuleKind, g: GameStateView, inp: PlayerInput) -> bool {
    match kind {
        RuleKind::HasGameStarted => spec_rule_has_game_started(g),
        RuleKind::IsPlayersTurn => spec_rule_is_players_turn(g, inp),
        RuleKind::IsOrchestrator => spec_rule_is_orchestrator(g, inp),
        RuleKind::HasPosition => spec_rule_has_position(g, inp),
        RuleKind::CanToggleBus => spec_rule_can_toggle_bus(g, inp),
        RuleKind::CanToggleTrain => spec_rule_can_toggle_train(g, inp),
        RuleKind::NextNodeIsNeighbour => spec_rule_next_node_is_neighbour(g, inp),
        RuleKind::HasEnoughMoves => spec_rule_has_enough_moves(g, inp),
        RuleKind::CanMoveToNode => spec_rule_can_move_to_node(g, inp),
        RuleKind::IsEdgeModificationActionValid => spec_rule_is_edge_modification_valid(g, inp),
    }
}

/// Whether an input is legal: every applicable rule passes.
#[verifier::opaque]
pub open spec fn spec_input_valid(g: GameStateView, inp: PlayerInput) -> bool {
    forall|kind: RuleKind|
        spec_rule_applies(kind, inp.input_type) ==> #[trigger] spec_rule_passes(kind, g, inp)
}

// ---------------------------------------------------------------------
// The rules, executably.

/// Turn-scoped actions need a started game.
pub fn has_game_started(game: &GameState, _player_input: &PlayerInput) -> (r: ValidationResponse<
    String,
>)
    ensures
        r is Valid <==> spec_rule_has_game_started(game@),
{
    if game.is_lobby {
        ValidationResponse::Invalid("The game has not started yet!".to_owned())
    } else {
        ValidationResponse::Valid
    }
}

/// In an active game only the player whose turn it is may act, except
/// to leave the game.
pub fn is_players_turn(game: &GameState, player_input: &PlayerInput) -> (r: ValidationResponse<
    String,
>)
    ensures
        r is Valid <==> spec_rule_is_players_turn(game@, *player_input),
{
    if game.is_lobby || player_input.input_type == PlayerInputType::LeaveGame {
        return ValidationResponse::Valid;
    }
    let player = match game.get_player_with_unique_id(player_input.player_id) {
        Ok(p) => p,
        Err(e) => {
            return ValidationResponse::Invalid(e);
        },
    };
    if !(game.current_players_turn == player.in_game_id) {
        return ValidationResponse::Invalid("It's not the current players turn".to_owned());
    }
    ValidationResponse::Valid
}

/// Only the orchestrator starts the game or modifies zone rules.
pub fn is_orchestrator(game: &GameState, player_input: &PlayerInput) -> (r: ValidationResponse<
    String,
>)
    ensures
        r is Valid <==> spec_rule_is_orchestrator(game@, *player_input),
{
    let player = match game.get_player_with_unique_id(player_input.player_id) {
        Ok(p) => p,
        Err(e) => {
            return ValidationResponse::Invalid(e);
        },
    };
    if !(player.in_game_id == InGameID::Orchestrator) {
        return ValidationResponse::Invalid(
            "The player is not the orchestrator of the game!".to_owned(),
        );
    }
    ValidationResponse::Valid
}

/// A moving player must stand somewhere.
pub fn has_position(game: &GameState, player_input: &PlayerInput) -> (r: ValidationResponse<
    String,
>)
    ensures
        r is Valid <==> spec_rule_has_position(game@, *player_input),
{
    match game.get_player_with_unique_id(player_input.player_id) {
        Ok(p) => {
            if p.position_node_id.is_none() {
                return ValidationResponse::Invalid(
                    "The player does not have a position!".to_owned(),
                );
            }
            ValidationResponse::Valid
        },
        Err(e) => ValidationResponse::Invalid(e),
    }
}

/// A player may hold no negative movement budget.
pub fn has_non_negative_amount_of_moves_left(
    game: &GameState,
    player_input: &PlayerInput,
) -> (r: ValidationResponse<String>)
    ensures
        r is Valid <==> spec_has_player(game@.players, player_input.player_id) && spec_player(
            game@.players,
            player_input.player_id,
        ).remaining_moves >= 0,
{
    let player = match game.get_player_with_unique_id(player_input.player_id) {
        Ok(p) => p,
        Err(e) => {
            return ValidationResponse::Invalid(e);
        },
    };
    if player.remaining_moves < 0 {
        return ValidationResponse::Invalid(
            "The player does not have enough remaining moves!".to_owned(),
        );
    }
    ValidationResponse::Valid
}

/// A movement must leave the player with a non-negative budget after
/// it is speculatively applied to a scratch copy of the game.
pub fn has_enough_moves(game: &GameState, player_input: &PlayerInput) -> (r: ValidationResponse<
    String,
>)
    ensures
        r is Valid <==> spec_rule_has_enough_moves(game@, *player_input),
{
    let player = match game.get_player_with_unique_id(player_input.player_id) {
        Ok(p) => p,
        Err(e) => {
            return ValidationResponse::Invalid(e);
        },
    };
    if player.remaining_moves == 0 {
        return ValidationResponse::Invalid("The player has no remaining moves!".to_owned());
    }
    let related_node_id = match player_input.related_node_id {
        Some(id) => id,
        None => {
            return ValidationResponse::Invalid("There was no node to get cost to!".to_owned());
        },
    };
    let mut game_clone = game.duplicate();
    match game_clone.move_player_with_id(player_input.player_id, related_node_id) {
        Ok(_) => (),
        Err(e) => {
            return ValidationResponse::Invalid(e);
        },
    }
    proof {
        crate::gamestate::lemma_player(game@.players, player_input.player_id);
        let pi = crate::gamestate::spec_player_idx(game@.players, player_input.player_id);
        lemma_player_at(game_clone@.players, player_input.player_id, pi);
    }
    has_non_negative_amount_of_moves_left(&game_clone, player_input)
}

/// The destination of a movement must be adjacent to the player's
/// position.
pub fn next_node_is_neighbour(
    game: &GameState,
    player_input: &PlayerInput,
) -> (r: ValidationResponse<String>)
    ensures
        r is Valid <==> spec_rule_next_node_is_neighbour(game@, *player_input),
{
    let player = match game.get_player_with_unique_id(player_input.player_id) {
        Ok(p) => p,
        Err(e) => {
            return ValidationResponse::Invalid(e);
        },
    };
    let node_id = match player.position_node_id {
        Some(id) => id,
        None => {
            return ValidationResponse::Invalid("The player does not have a position!".to_owned());
        },
    };
    let related_node_id = match player_input.related_node_id {
        Some(id) => id,
        None => {
            return ValidationResponse::Invalid(
                "There was no node to check if it's a neighbour!".to_owned(),
            );
        },
    };
    let are_neighbours = match game.map.are_nodes_neighbours(node_id, related_node_id) {
        Ok(b) => b,
        Err(e) => {
            return ValidationResponse::Invalid(e);
        },
    };
    if !are_neighbours {
        return ValidationResponse::Invalid(
            "The given node is not a neighbour of the player's position!".to_owned(),
        );
    }
    ValidationResponse::Valid
}

/// A district with an access modifier admits only missions holding the
/// required vehicle type.
pub fn can_enter_district(game: &GameState, player_input: &PlayerInput) -> (r: ValidationResponse<
    String,
>)
    ensures
        r is Valid <==> spec_rule_can_enter_district(game@, *player_input),
{
    let ghost g = game@;
    let player = match game.get_player_with_unique_id(player_input.player_id) {
        Ok(p) => p,
        Err(e) => {
            return ValidationResponse::Invalid(e);
        },
    };
    let player_objective_card = match &player.objective_card {
        Some(c) => c,
        None => {
            return ValidationResponse::Invalid(
                "The player does not have an objective card".to_owned(),
            );
        },
    };
    let pos = match player.position_node_id {
        Some(p) => p,
        None => {
            return ValidationResponse::Invalid(
                "The player does not have a valid position and can therefore not move".to_owned(),
            );
        },
    };
    if (pos as usize) >= game.map.edges.len() {
        return ValidationResponse::Invalid(
            "The node the player stands on does not exist".to_owned(),
        );
    }
    let to_node_id = match player_input.related_node_id {
        Some(id) => id,
        None => {
            return ValidationResponse::Invalid(
                "A related node has to be set for player movement".to_owned(),
            );
        },
    };
    let list = &game.map.edges[pos as usize];
    let ei = match GameState::find_edge_index(list, to_node_id) {
        Some(e) => e,
        None => {
            return ValidationResponse::Invalid(
                "There is no neighbouring node with the ID given".to_owned(),
            );
        },
    };
    let district = list[ei].neighbourhood;
    proof {
        assert(list@ == g.map.edges[pos as int]);
        assert(district == crate::gamestate::spec_move_edge(
            g,
            player_input.player_id,
            to_node_id,
        ).neighbourhood);
    }
    let ghost card_view = player@.objective_card->0;
    let n_mods = game.district_modifiers.len();
    let mut seen_mod = false;
    let mut i: usize = 0;
    while i < n_mods
        invariant
            i <= n_mods,
            n_mods == game.district_modifiers.len(),
            card_view == spec_player(g.players, player_input.player_id).objective_card->0,
            player@.objective_card is Some,
            card_view == player@.objective_card->0,
            spec_enter_scan(g.district_modifiers, district, card_view, 0, false)
                == spec_enter_scan(g.district_modifiers, district, card_view, i as int, seen_mod),
        decreases n_mods - i,
    {
        let dm = game.district_modifiers[i];
        if dm.district != district || !(dm.modifier == DistrictModifierType::Access) {
            i = i + 1;
            continue;
        }
        let vehicle_type = match dm.vehicle_type {
            Some(v) => v,
            None => {
                return ValidationResponse::Invalid(
                    "There was no vehicle for access modifier".to_owned(),
                );
            },
        };
        if player_objective_card.requires_vehicle(vehicle_type) {
            return ValidationResponse::Valid;
        }
        seen_mod = true;
        i = i + 1;
    }
    if !seen_mod {
        return ValidationResponse::Valid;
    }
    ValidationResponse::Invalid(
        "The player does not have the required vehicle type to access this district".to_owned(),
    )
}

/// Whether the player's mission touches the given district, from a
/// whole game and player.
pub fn player_has_objective_in_district(
    game: GameState,
    player: Player,
    district: District,
) -> (r: bool)
    ensures
        r == crate::gamestate::spec_player_has_objective_in_district(game@.map, player@, district),
{
    GameState::player_has_objective_in_district(&game.map, &player, district)
}

/// Whether any edge of the adjacency list lies in the district.
pub fn node_is_in_district(
    neighbour_list: Vec<NeighbourRelationship>,
    district: District,
) -> (r: bool)
    ensures
        r == crate::gamestate::spec_list_in_district(neighbour_list@, district),
{
    GameState::node_is_in_district(neighbour_list, district)
}

/// How many records of the list are park-and-ride records.
fn count_park_and_ride(list: &Vec<NeighbourRelationship>) -> (r: usize)
    ensures
        r == spec_pr_count(list@, list@.len() as int),
{
    let mut count: usize = 0;
    let mut i: usize = 0;
    while i < list.len()
        invariant
            i <= list.len(),
            count <= i,
            count == spec_pr_count(list@, i as int),
        decreases list.len() - i,
    {
        let e = list[i];
        let is_pr = match e.restriction {
            Some(RestrictionType::ParkAndRide) => true,
            _ => false,
        };
        if is_pr {
            count = count + 1;
        }
        i = i + 1;
    }
    count
}

/// Removing any non-park-and-ride restriction needs it present on the
/// road; placing it needs it absent.
pub fn default_can_modify_edge_restriction(
    edge_mod: &EdgeRestriction,
    neighbours_one: &Vec<NeighbourRelationship>,
    node_two_id: u8,
) -> (r: ValidationResponse<String>)
    requires
        edge_mod.node_two == node_two_id,
    ensures
        r is Valid <==> spec_default_can_modify_edge_restriction(*edge_mod, neighbours_one@),
{
    let mut i: usize = 0;
    while i < neighbours_one.len()
        invariant
            i <= neighbours_one.len(),
            forall|k: int|
                0 <= k < i ==> !((#[trigger] neighbours_one@[k]).to == node_two_id
                    && neighbours_one@[k].restriction == Some(edge_mod.edge_restriction)),
        decreases neighbours_one.len() - i,
    {
        let e = neighbours_one[i];
        let restriction_matches = match e.restriction {
            Some(rt) => rt == edge_mod.edge_restriction,
            None => false,
        };
        if e.to == node_two_id && restriction_matches {
            proof {
                assert(neighbours_one@[i as int].to == node_two_id && neighbours_one@[
                    i as int
                ].restriction == Some(edge_mod.edge_restriction));
            }
            if edge_mod.delete {
                return ValidationResponse::Valid;
            }
            return ValidationResponse::Invalid(
                "The edge restriction already exists on the edge between the two given nodes".to_owned(),
            );
        }
        i = i + 1;
    }
    if edge_mod.delete {
        return ValidationResponse::Invalid(
            "The edge restriction does not exist on the edge between the two given nodes".to_owned(),
        );
    }
    ValidationResponse::Valid
}

/// Removing a park-and-ride road is allowed only while one of its ends
/// keeps at most one other park-and-ride connection; placing one needs
/// a parking spot or an existing park-and-ride road at one end.
pub fn can_modify_park_and_ride(
    game: &GameState,
    park_and_ride_mod: &EdgeRestriction,
    neighbours_one: &Vec<NeighbourRelationship>,
    neighbours_two: &Vec<NeighbourRelationship>,
) -> (r: ValidationResponse<String>)
    ensures
        r is Valid <==> spec_can_modify_park_and_ride(
            game@.map.nodes,
            *park_and_ride_mod,
            neighbours_one@,
            neighbours_two@,
        ),
{
    if park_and_ride_mod.delete {
        if count_park_and_ride(neighbours_one) < 2 || count_park_and_ride(neighbours_two) < 2 {
            return ValidationResponse::Valid;
        }
        return ValidationResponse::Invalid(
            "A park & ride edge connected to more than one other park & ride edge cannot be deleted".to_owned(),
        );
    }
    let node_one = match game.map.get_node_by_id(park_and_ride_mod.node_one) {
        Ok(n) => n,
        Err(e) => {
            return ValidationResponse::Invalid(e);
        },
    };
    let node_two = match game.map.get_node_by_id(park_and_ride_mod.node_two) {
        Ok(n) => n,
        Err(e) => {
            return ValidationResponse::Invalid(e);
        },
    };
    if node_one.is_parking_spot || node_two.is_parking_spot {
        return ValidationResponse::Valid;
    }
    if count_park_and_ride(neighbours_one) > 0 || count_park_and_ride(neighbours_two) > 0 {
        return ValidationResponse::Valid;
    }
    ValidationResponse::Invalid(
        "A park & ride edge needs an adjacent parking spot or park & ride edge".to_owned(),
    )
}

/// An edge-restriction request must name two connected nodes and meet
/// the placement or removal conditions of its restriction kind.
pub fn is_edge_modification_action_valid(
    game: &GameState,
    player_input: &PlayerInput,
) -> (r: ValidationResponse<String>)
    ensures
        r is Valid <==> spec_rule_is_edge_modification_valid(game@, *player_input),
{
    let edge_mod = match player_input.edge_modifier {
        Some(em) => em,
        None => {
            return ValidationResponse::Invalid(
                "There was no modifier on the edge modifier player input".to_owned(),
            );
        },
    };
    let neighbours_one = match game.map.get_neighbour_relationships_of_node_with_id(
        edge_mod.node_one,
    ) {
        Some(n) => n,
        None => {
            return ValidationResponse::Invalid(
                "The first named node has no neighbours, so it cannot carry restrictions".to_owned(),
            );
        },
    };
    let neighbours_two = match game.map.get_neighbour_relationships_of_node_with_id(
        edge_mod.node_two,
    ) {
        Some(n) => n,
        None => {
            return ValidationResponse::Invalid(
                "The second named node has no neighbours, so it cannot carry restrictions".to_owned(),
            );
        },
    };
    if edge_mod.edge_restriction == RestrictionType::ParkAndRide {
        can_modify_park_and_ride(game, &edge_mod, &neighbours_one, &neighbours_two)
    } else {
        default_can_modify_edge_restriction(&edge_mod, &neighbours_one, edge_mod.node_two)
    }
}

/// Whether the adjacency list holds a park-and-ride record leading to
/// `to`.
fn list_has_pr_edge_to(list: &Vec<NeighbourRelationship>, to: u8) -> (r: bool)
    ensures
        r == spec_pr_edge_to(list@, to),
{
    let mut i: usize = 0;
    while i < list.len()
        invariant
            i <= list.len(),
            forall|k: int|
                0 <= k < i ==> !((#[trigger] list@[k]).to == to && list@[k].restriction == Some(
                    RestrictionType::ParkAndRide,
                )),
        decreases list.len() - i,
    {
        let e = list[i];
        let is_pr = match e.restriction {
            Some(RestrictionType::ParkAndRide) => true,
            _ => false,
        };
        if is_pr && e.to == to {
            proof {
                assert(list@[i as int].to == to && list@[i as int].restriction == Some(
                    RestrictionType::ParkAndRide,
                ));
            }
            return true;
        }
        i = i + 1;
    }
    false
}

/// Whether the adjacency list holds a rail record leading to `to`.
fn list_has_rail_edge_to(list: &Vec<NeighbourRelationship>, to: u8) -> (r: bool)
    ensures
        r == spec_rail_edge_to(list@, to),
{
    let mut i: usize = 0;
    while i < list.len()
        invariant
            i <= list.len(),
            forall|k: int|
                0 <= k < i ==> !((#[trigger] list@[k]).to == to && list@[
                    k
                ].is_connected_through_rail),
        decreases list.len() - i,
    {
        let e = list[i];
        if e.is_connected_through_rail && e.to == to {
            proof {
                assert(list@[i as int].to == to && list@[i as int].is_connected_through_rail);
            }
            return true;
        }
        i = i + 1;
    }
    false
}

/// A movement must suit the player's vehicle mode.
#[verifier::spinoff_prover]
#[verifier::rlimit(100)]
pub fn can_move_to_node(game: &GameState, player_input: &PlayerInput) -> (r: ValidationResponse<
    String,
>)
    ensures
        r is Valid <==> spec_rule_can_move_to_node(game@, *player_input),
{
    let ghost g = game@;
    let player = match game.get_player_with_unique_id(player_input.player_id) {
        Ok(p) => p,
        Err(e) => {
            return ValidationResponse::Invalid(e);
        },
    };
    let player_pos = match player.position_node_id {
        Some(p) => p,
        None => {
            return ValidationResponse::Invalid(
                "The player does not have a position, so the action cannot be checked".to_owned(),
            );
        },
    };
    let to_node_id = match player_input.related_node_id {
        Some(id) => id,
        None => {
            return ValidationResponse::Invalid(
                "There is no related node to the movement input".to_owned(),
            );
        },
    };
    if (player_pos as usize) >= game.map.edges.len() {
        return ValidationResponse::Invalid(
            "The node the player stands on has no neighbours".to_owned(),
        );
    }
    let list = &game.map.edges[player_pos as usize];
    proof {
        assert(list@ == g.map.edges[player_pos as int]);
    }
    if player.is_bus {
        if list_has_pr_edge_to(list, to_node_id) {
            return ValidationResponse::Valid;
        }
        return ValidationResponse::Invalid(
            "The player cannot move here, because the node is not connected by a park & ride edge".to_owned(),
        );
    }
    if player.is_train {
        if list_has_rail_edge_to(list, to_node_id) {
            return ValidationResponse::Valid;
        }
        return ValidationResponse::Invalid(
            "The player cannot move here, because the node is not connected through the railway".to_owned(),
        );
    }
    let ei = match GameState::find_edge_index(list, to_node_id) {
        Some(e) => e,
        None => {
            return ValidationResponse::Invalid(
                "The given node is not a neighbour of the player's position".to_owned(),
            );
        },
    };
    let neighbour_relationship = list[ei];
    if let Some(restriction) = neighbour_relationship.restriction {
        let card_allows = match &player.objective_card {
            Some(c) => c.requires_vehicle(restriction),
            None => {
                return ValidationResponse::Invalid(
                    "The player has no objective card, so access to the restricted edge cannot be checked".to_owned(),
                );
            },
        };
        if !card_allows {
            return ValidationResponse::Invalid(
                "The player does not have access to the restricted edge".to_owned(),
            );
        }
        return ValidationResponse::Valid;
    }
    match can_enter_district(game, player_input) {
        ValidationResponse::Valid => (),
        ValidationResponse::Invalid(e) => {
            return ValidationResponse::Invalid(e);
        },
    }
    if list_has_pr_edge_to(list, to_node_id) {
        return ValidationResponse::Invalid(
            "The player cannot move here, because it's a park & ride edge".to_owned(),
        );
    }
    ValidationResponse::Valid
}

/// Turning into a bus needs the flag payload, an ordinary car, and a
/// parking spot under the player.
pub fn can_toggle_bus(game: &GameState, player_input: &PlayerInput) -> (r: ValidationResponse<
    String,
>)
    ensures
        r is Valid <==> spec_rule_can_toggle_bus(game@, *player_input),
{
    let player = match game.get_player_with_unique_id(player_input.player_id) {
        Ok(p) => p,
        Err(e) => {
            return ValidationResponse::Invalid(e);
        },
    };
    if player_input.related_bool.is_none() {
        return ValidationResponse::Invalid(
            "The related bool was not set, so the bus toggle cannot be checked".to_owned(),
        );
    }
    if player.is_train {
        return ValidationResponse::Invalid("You cannot toggle bus if you are a train!".to_owned());
    }
    let player_pos = match player.position_node_id {
        Some(p) => p,
        None => {
            return ValidationResponse::Invalid(
                "The player does not have a position, so the action cannot be checked".to_owned(),
            );
        },
    };
    let node = match game.map.get_node_by_id(player_pos) {
        Ok(n) => n,
        Err(e) => {
            return ValidationResponse::Invalid(e);
        },
    };
    if !node.is_parking_spot {
        return ValidationResponse::Invalid(
            "You cannot toggle bus if you are not on a parking spot!".to_owned(),
        );
    }
    ValidationResponse::Valid
}

/// Turning into a train needs the flag payload, an ordinary car, and a
/// rail station under the player.
pub fn can_toggle_train(game: &GameState, player_input: &PlayerInput) -> (r: ValidationResponse<
    String,
>)
    ensures
        r is Valid <==> spec_rule_can_toggle_train(game@, *player_input),
{
    let player = match game.get_player_with_unique_id(player_input.player_id) {
        Ok(p) => p,
        Err(e) => {
            return ValidationResponse::Invalid(e);
        },
    };
    if player_input.related_bool.is_none() {
        return ValidationResponse::Invalid(
            "The related bool was not set, so the train toggle cannot be checked".to_owned(),
        );
    }
    if player.is_bus {
        return ValidationResponse::Invalid("You cannot toggle train if you are a bus!".to_owned());
    }
    let player_pos = match player.position_node_id {
        Some(p) => p,
        None => {
            return ValidationResponse::Invalid(
                "The player does not have a position, so the action cannot be checked".to_owned(),
            );
        },
    };
    let node = match game.map.get_node_by_id(player_pos) {
        Ok(n) => n,
        Err(e) => {
            return ValidationResponse::Invalid(e);
        },
    };
    if !node.is_connected_to_rail {
        return ValidationResponse::Invalid(
            "You cannot toggle train if you are not on a train station!".to_owned(),
        );
    }
    ValidationResponse::Valid
}

// ---------------------------------------------------------------------
// The registry.

/// The rule list as registered, in evaluation order.
pub open spec fn spec_default_rules() -> Seq<RuleView> {
    seq![
        RuleView {
            related_inputs: seq![
                PlayerInputType::Movement,
                PlayerInputType::ModifyDistrict,
                PlayerInputType::NextTurn,
                PlayerInputType::UndoAction,
            ],
            kind: RuleKind::HasGameStarted,
        },
        RuleView { related_inputs: seq![PlayerInputType::All], kind: RuleKind::IsPlayersTurn },
        RuleView {
            related_inputs: seq![
                PlayerInputType::StartGame,
                PlayerInputType::ModifyEdgeRestrictions,
                PlayerInputType::ModifyDistrict,
            ],
            kind: RuleKind::IsOrchestrator,
        },
        RuleView { related_inputs: seq![PlayerInputType::Movement], kind: RuleKind::HasPosition },
        RuleView {
            related_inputs: seq![PlayerInputType::SetPlayerBusBool],
            kind: RuleKind::CanToggleBus,
        },
        RuleView {
            related_inputs: seq![PlayerInputType::SetPlayerTrainBool],
            kind: RuleKind::CanToggleTrain,
        },
        RuleView {
            related_inputs: seq![PlayerInputType::Movement],
            kind: RuleKind::NextNodeIsNeighbour,
        },
        RuleView {
            related_inputs: seq![PlayerInputType::Movement],
            kind: RuleKind::HasEnoughMoves,
        },
        RuleView {
            related_inputs: seq![PlayerInputType::Movement],
            kind: RuleKind::CanMoveToNode,
        },
        RuleView {
            related_inputs: seq![PlayerInputType::ModifyEdgeRestrictions],
            kind: RuleKind::IsEdgeModificationActionValid,
        },
    ]
}

proof fn lemma_rule_applicability(i: int, t: PlayerInputType)
    requires
        0 <= i < 10,
    ensures
        ({
            let rv = spec_default_rules()[i];
            (exists|q: int|
                0 <= q < rv.related_inputs.len() && ((#[trigger] rv.related_inputs[q]) == t
                    || rv.related_inputs[q] == PlayerInputType::All)) == spec_rule_applies(
                rv.kind,
                t,
            )
        }),
{
    let rv = spec_default_rules()[i];
    if i == 0 {
        assert(rv.related_inputs.len() == 4);
        assert(rv.related_inputs[0] == PlayerInputType::Movement);
        assert(rv.related_inputs[1] == PlayerInputType::ModifyDistrict);
        assert(rv.related_inputs[2] == PlayerInputType::NextTurn);
        assert(rv.related_inputs[3] == PlayerInputType::UndoAction);
    } else if i == 1 {
        assert(rv.related_inputs.len() == 1);
        assert(rv.related_inputs[0] == PlayerInputType::All);
    } else if i == 2 {
        assert(rv.related_inputs.len() == 3);
        assert(rv.related_inputs[0] == PlayerInputType::StartGame);
        assert(rv.related_inputs[1] == PlayerInputType::ModifyEdgeRestrictions);
        assert(rv.related_inputs[2] == PlayerInputType::ModifyDistrict);
    } else if i == 3 {
        assert(rv.related_inputs.len() == 1);
        assert(rv.related_inputs[0] == PlayerInputType::Movement);
    } else if i == 4 {
        assert(rv.related_inputs.len() == 1);
        assert(rv.related_inputs[0] == PlayerInputType::SetPlayerBusBool);
    } else if i == 5 {
        assert(rv.related_inputs.len() == 1);
        assert(rv.related_inputs[0] == PlayerInputType::SetPlayerTrainBool);
    } else if i == 6 {
        assert(rv.related_inputs.len() == 1);
        assert(rv.related_inputs[0] == PlayerInputType::Movement);
    } else if i == 7 {
        assert(rv.related_inputs.len() == 1);
        assert(rv.related_inputs[0] == PlayerInputType::Movement);
    } else if i == 8 {
        assert(rv.related_inputs.len() == 1);
        assert(rv.related_inputs[0] == PlayerInputType::Movement);
    } else {
        assert(rv.related_inputs.len() == 1);
        assert(rv.related_inputs[0] == PlayerInputType::ModifyEdgeRestrictions);
    }
}

/// The rule engine: holds the registered rules and checks inputs
/// against them in order.
pub struct GameRuleChecker {
    rules: Vec<Rule>,
}

impl GameRuleChecker {
    #[verifier::type_invariant]
    spec fn wf(self) -> bool {
        self.rules@.map_values(|r: Rule| r@) == spec_default_rules()
    }

    /// A rule engine with the default rules registered.
    pub fn new() -> Self {
        Self { rules: Self::get_rules() }
    }

    /// The default rules, in evaluation order.
    fn get_rules() -> (r: Vec<Rule>)
        ensures
            r@.map_values(|rule: Rule| rule@) == spec_default_rules(),
    {
        let mut game_started_inputs: Vec<PlayerInputType> = Vec::new();
        game_started_inputs.push(PlayerInputType::Movement);
        game_started_inputs.push(PlayerInputType::ModifyDistrict);
        game_started_inputs.push(PlayerInputType::NextTurn);
        game_started_inputs.push(PlayerInputType::UndoAction);
        let game_started = Rule {
            related_inputs: game_started_inputs,
            kind: RuleKind::HasGameStarted,
        };

        let mut players_turn_inputs: Vec<PlayerInputType> = Vec::new();
        players_turn_inputs.push(PlayerInputType::All);
        let players_turn = Rule { related_inputs: players_turn_inputs, kind: RuleKind::IsPlayersTurn };

        let mut orchestrator_inputs: Vec<PlayerInputType> = Vec::new();
        orchestrator_inputs.push(PlayerInputType::StartGame);
        orchestrator_inputs.push(PlayerInputType::ModifyEdgeRestrictions);
        orchestrator_inputs.push(PlayerInputType::ModifyDistrict);
        let orchestrator_check = Rule {
            related_inputs: orchestrator_inputs,
            kind: RuleKind::IsOrchestrator,
        };

        let mut position_inputs: Vec<PlayerInputType> = Vec::new();
        position_inputs.push(PlayerInputType::Movement);
        let player_has_position = Rule { related_inputs: position_inputs, kind: RuleKind::HasPosition };

        let mut toggle_bus_inputs: Vec<PlayerInputType> = Vec::new();
        toggle_bus_inputs.push(PlayerInputType::SetPlayerBusBool);
        let toggle_bus = Rule { related_inputs: toggle_bus_inputs, kind: RuleKind::CanToggleBus };

        let mut toggle_train_inputs: Vec<PlayerInputType> = Vec::new();
        toggle_train_inputs.push(PlayerInputType::SetPlayerTrainBool);
        let toggle_train = Rule { related_inputs: toggle_train_inputs, kind: RuleKind::CanToggleTrain };

        let mut next_to_node_inputs: Vec<PlayerInputType> = Vec::new();
        next_to_node_inputs.push(PlayerInputType::Movement);
        let next_to_node = Rule {
            related_inputs: next_to_node_inputs,
            kind: RuleKind::NextNodeIsNeighbour,
        };

        let mut enough_moves_inputs: Vec<PlayerInputType> = Vec::new();
        enough_moves_inputs.push(PlayerInputType::Movement);
        let enough_moves = Rule { related_inputs: enough_moves_inputs, kind: RuleKind::HasEnoughMoves };

        let mut move_to_node_inputs: Vec<PlayerInputType> = Vec::new();
        move_to_node_inputs.push(PlayerInputType::Movement);
        let move_to_node = Rule { related_inputs: move_to_node_inputs, kind: RuleKind::CanMoveToNode };

        let mut edge_restriction_inputs: Vec<PlayerInputType> = Vec::new();
        edge_restriction_inputs.push(PlayerInputType::ModifyEdgeRestrictions);
        let can_modify_edge_restriction = Rule {
            related_inputs: edge_restriction_inputs,
            kind: RuleKind::IsEdgeModificationActionValid,
        };

        let mut rules: Vec<Rule> = Vec::new();
        rules.push(game_started);
        rules.push(players_turn);
        rules.push(orchestrator_check);
        rules.push(player_has_position);
        rules.push(toggle_bus);
        rules.push(toggle_train);
        rules.push(next_to_node);
        rules.push(enough_moves);
        rules.push(move_to_node);
        rules.push(can_modify_edge_restriction);
        proof {
            assert(rules@.map_values(|rule: Rule| rule@) =~~= spec_default_rules());
        }
        rules
    }

    /// Runs one rule.
    fn evaluate_rule(
        kind: RuleKind,
        game: &GameState,
        player_input: &PlayerInput,
    ) -> (r: ValidationResponse<String>)
        ensures
            r is Valid <==> spec_rule_passes(kind, game@, *player_input),
    {
        match kind {
            RuleKind::HasGameStarted => has_game_started(game, player_input),
            RuleKind::IsPlayersTurn => is_players_turn(game, player_input),
            RuleKind::IsOrchestrator => is_orchestrator(game, player_input),
            RuleKind::HasPosition => has_position(game, player_input),
            RuleKind::CanToggleBus => can_toggle_bus(game, player_input),
            RuleKind::CanToggleTrain => can_toggle_train(game, player_input),
            RuleKind::NextNodeIsNeighbour => next_node_is_neighbour(game, player_input),
            RuleKind::HasEnoughMoves => has_enough_moves(game, player_input),
            RuleKind::CanMoveToNode => can_move_to_node(game, player_input),
            RuleKind::IsEdgeModificationActionValid => is_edge_modification_action_valid(
                game,
                player_input,
            ),
        }
    }

    /// Runs every applicable rule in registration order and reports
    /// the first failure, or nothing if the input is legal.
    #[verifier::spinoff_prover]
    #[verifier::rlimit(100)]
    pub fn is_input_valid(&self, game: &GameState, player_input: &PlayerInput) -> (r: Option<
        String,
    >)
        ensures
            r is None <==> spec_input_valid(game@, *player_input),
            r is Some ==> exists|i: int|
                {
                    &&& 0 <= i < 10
                    &&& spec_rule_applies(
                        (#[trigger] spec_default_rules()[i]).kind,
                        player_input.input_type,
                    )
                    &&& !spec_rule_passes(spec_default_rules()[i].kind, game@, *player_input)
                    &&& forall|j: int|
                        0 <= j < i ==> (spec_rule_applies(
                            (#[trigger] spec_default_rules()[j]).kind,
                            player_input.input_type,
                        ) ==> spec_rule_passes(
                            spec_default_rules()[j].kind,
                            game@,
                            *player_input,
                        ))
                },
    {
        proof {
            use_type_invariant(&*self);
            reveal(spec_input_valid);
        }
        let ghost g = game@;
        let ghost inp = *player_input;
        let t = player_input.input_type;
        let n = self.rules.len();
        let mut i: usize = 0;
        while i < n
            invariant
                i <= n,
                n == self.rules.len(),
                inp == *player_input,
                t == inp.input_type,
                g == game@,
                self.rules@.map_values(|r: Rule| r@) == spec_default_rules(),
                forall|k: int|
                    0 <= k < i ==> (spec_rule_applies(
                        (#[trigger] spec_default_rules()[k]).kind,
                        inp.input_type,
                    ) ==> spec_rule_passes(spec_default_rules()[k].kind, g, inp)),
            decreases n - i,
        {
            let rule = &self.rules[i];
            proof {
                assert(self.rules@.map_values(|r: Rule| r@)[i as int] == spec_default_rules()[
                    i as int
                ]);
                assert(rule@ == spec_default_rules()[i as int]);
            }
            let mut applies = false;
            let m = rule.related_inputs.len();
            let mut j: usize = 0;
            while j < m
                invariant
                    j <= m,
                    m == rule.related_inputs.len(),
                    applies == exists|q: int|
                        0 <= q < j && ((#[trigger] rule.related_inputs@[q]) == t
                            || rule.related_inputs@[q] == PlayerInputType::All),
                decreases m - j,
            {
                let elem = rule.related_inputs[j];
                if elem == t || elem == PlayerInputType::All {
                    proof {
                        assert(rule.related_inputs@[j as int] == t || rule.related_inputs@[
                            j as int
                        ] == PlayerInputType::All);
                    }
                    applies = true;
                }
                j = j + 1;
            }
            proof {
                lemma_rule_applicability(i as int, t);
                assert(applies == spec_rule_applies(rule@.kind, t));
            }
            if applies {
                match Self::evaluate_rule(rule.kind, game, player_input) {
                    ValidationResponse::Valid => (),
                    ValidationResponse::Invalid(e) => {
                        proof {
                            assert(spec_rule_applies(rule@.kind, inp.input_type)
                                && !spec_rule_passes(rule@.kind, g, inp));
                            assert(0 <= i < 10 && spec_rule_applies(
                                (#[trigger] spec_default_rules()[i as int]).kind,
                                inp.input_type,
                            ) && !spec_rule_passes(spec_default_rules()[i as int].kind, g, inp)
                                && (forall|j: int|
                                0 <= j < i ==> (spec_rule_applies(
                                    (#[trigger] spec_default_rules()[j]).kind,
                                    inp.input_type,
                                ) ==> spec_rule_passes(spec_default_rules()[j].kind, g, inp))));
                        }
                        return Some(e);
                    },
                }
            }
            i = i + 1;
        }
        proof {
            assert forall|kind: RuleKind|
                spec_rule_applies(kind, inp.input_type) implies #[trigger] spec_rule_passes(
                kind,
                g,
                inp,
            ) by {
                let rules = spec_default_rules();
                assert(rules[0].kind == RuleKind::HasGameStarted);
                assert(rules[1].kind == RuleKind::IsPlayersTurn);
                assert(rules[2].kind == RuleKind::IsOrchestrator);
                assert(rules[3].kind == RuleKind::HasPosition);
                assert(rules[4].kind == RuleKind::CanToggleBus);
                assert(rules[5].kind == RuleKind::CanToggleTrain);
                assert(rules[6].kind == RuleKind::NextNodeIsNeighbour);
                assert(rules[7].kind == RuleKind::HasEnoughMoves);
                assert(rules[8].kind == RuleKind::CanMoveToNode);
                assert(rules[9].kind == RuleKind::IsEdgeModificationActionValid);
            }
        }
        None
    }
}

impl RuleChecker for GameRuleChecker {
    fn is_input_valid(&self, game: &GameState, input: &PlayerInput) -> Option<String> {
        GameRuleChecker::is_input_valid(self, game, input)
    }
}

// ---------------------------------------------------------------------
// Laws of the rule pipeline.

/// Turn exclusivity: while a game is active, an input from a player
/// whose seat does not hold the turn is rejected, unless the player is
/// leaving the game.
pub proof fn lemma_turn_exclusivity(g: GameStateView, inp: PlayerInput)
    requires
        !g.is_lobby,
        inp.input_type != PlayerInputType::LeaveGame,
        spec_has_player(g.players, inp.player_id),
        spec_player(g.players, inp.player_id).in_game_id != g.current_players_turn,
    ensures
        !spec_input_valid(g, inp),
{
    reveal(spec_input_valid);
    assert(spec_rule_applies(RuleKind::IsPlayersTurn, inp.input_type));
    assert(!spec_rule_passes(RuleKind::IsPlayersTurn, g, inp));
}

/// Movement adjacency, rejection half: a movement whose destination is
/// not adjacent to the player's position is rejected.
pub proof fn lemma_non_adjacent_movement_rejected(g: GameStateView, inp: PlayerInput)
    requires
        inp.input_type == PlayerInputType::Movement,
        !(spec_has_player(g.players, inp.player_id) && spec_player(
            g.players,
            inp.player_id,
        ).position_node_id is Some && inp.related_node_id is Some && (spec_player(
            g.players,
            inp.player_id,
        ).position_node_id->0 as int) < g.map.edges.len() && spec_has_edge(
            g.map,
            spec_player(g.players, inp.player_id).position_node_id->0,
            inp.related_node_id->0,
        )),
    ensures
        !spec_input_valid(g, inp),
{
    reveal(spec_input_valid);
    assert(spec_rule_applies(RuleKind::NextNodeIsNeighbour, inp.input_type));
    assert(!spec_rule_passes(RuleKind::NextNodeIsNeighbour, g, inp));
}

/// Movement adjacency, success half: a movement of the game state
/// itself succeeds only onto a node its edge list reaches.
pub proof fn lemma_movement_adjacency(g: GameStateView, pid: i32, to: u8)
    ensures
        spec_move_ok(g, pid, to) ==> spec_has_edge(
            g.map,
            spec_player(g.players, pid).position_node_id->0,
            to,
        ),
{
}

} // verus!
