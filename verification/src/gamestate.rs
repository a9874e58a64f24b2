//! One game's mutable snapshot: roster, turn holder, modifiers,
//! restrictions, pending actions, and its own city map.
//!
//! The operations here enforce structural invariants (capacity, role
//! uniqueness, movement mechanics); cross-cutting legality is the rule
//! engine's job.

use vstd::prelude::*;

use crate::cards::{CostTuple, PlayerObjectiveCard, PlayerObjectiveCardView, SituationCard,
    SituationCardView};
use crate::situation_card_list::spec_catalog_costs;
use crate::constants::{
    MAX_ACCESS_MODIFIER_COUNT, MAX_PLAYER_COUNT, MAX_PRIORITY_MODIFIER_COUNT,
    MAX_TOLL_MODIFIER_COUNT, START_MOVEMENT_AMOUNT,
};
use crate::enums::{District, DistrictModifierType, InGameID, RestrictionType, Traffic,
    spec_in_game_id_next, spec_times_to_increase_traffic_when_access, spec_traffic_increased,
    spec_traffic_increased_times};
use crate::node_map::{EdgeRestriction, NeighbourRelationship, NodeMap, NodeMapView, NodeView,
    spec_costs_applied, spec_district_cost, spec_district_entry_cost, spec_has_district_cost,
    spec_has_edge, spec_has_node, spec_list_has_edge, spec_list_edge_idx, spec_node, spec_map_wf,
    lemma_list_edge_at, lemma_node_at};
use crate::player::{Player, PlayerView};

verus! {

/// A zone-wide rule: its district, its kind, the vehicle type it
/// concerns, and the movement or money values attached to it. The
/// delete flag marks a request to remove an equal modifier.
#[derive(Clone, Copy, Debug, PartialEq, Eq)]
pub struct DistrictModifier {
    pub district: District,
    pub modifier: DistrictModifierType,
    pub vehicle_type: Option<RestrictionType>,
    pub associated_movement_value: Option<i16>,
    pub associated_money_value: Option<i32>,
    pub delete: bool,
}

/// A player request: which player, which game, what kind of input, and
/// the payload fields the kind needs.
#[derive(Clone, Copy, Debug, PartialEq)]
pub struct PlayerInput {
    pub player_id: i32,
    pub game_id: i32,
    pub input_type: crate::enums::PlayerInputType,
    pub related_role: Option<InGameID>,
    pub related_node_id: Option<u8>,
    pub district_modifier: Option<DistrictModifier>,
    pub situation_card_id: Option<u8>,
    pub edge_modifier: Option<EdgeRestriction>,
    pub related_bool: Option<bool>,
}

/// One game's complete state.
#[derive(Clone, Debug, PartialEq)]
pub struct GameState {
    pub id: i32,
    pub name: String,
    pub players: Vec<Player>,
    pub is_lobby: bool,
    pub current_players_turn: InGameID,
    pub district_modifiers: Vec<DistrictModifier>,
    pub actions: Vec<PlayerInput>,
    pub accessed_districts: Vec<District>,
    pub map: NodeMap,
    pub situation_card: Option<SituationCard>,
    pub edge_restrictions: Vec<EdgeRestriction>,
    pub legal_nodes: Vec<u8>,
}

/// The mathematical value of a [`GameState`].
pub ghost struct GameStateView {
    pub id: i32,
    pub name: Seq<char>,
    pub players: Seq<PlayerView>,
    pub is_lobby: bool,
    pub current_players_turn: InGameID,
    pub district_modifiers: Seq<DistrictModifier>,
    pub actions: Seq<PlayerInput>,
    pub accessed_districts: Seq<District>,
    pub map: NodeMapView,
    pub situation_card: Option<SituationCardView>,
    pub edge_restrictions: Seq<EdgeRestriction>,
    pub legal_nodes: Seq<u8>,
}

impl View for GameState {
    type V = GameStateView;

    open spec fn view(&self) -> GameStateView {
        GameStateView {
            id: self.id,
            name: self.name@,
            players: self.players@.map_values(|p: Player| p@),
            is_lobby: self.is_lobby,
            current_players_turn: self.current_players_turn,
            district_modifiers: self.district_modifiers@,
            actions: self.actions@,
            accessed_districts: self.accessed_districts@,
            map: self.map@,
            situation_card: match self.situation_card {
                Some(c) => Some(c@),
                None => None,
            },
            edge_restrictions: self.edge_restrictions@,
            legal_nodes: self.legal_nodes@,
        }
    }
}

// ---------------------------------------------------------------------
// Player lookup.

/// Whether the roster holds a player with the given identifier.
pub open spec fn spec_has_player(players: Seq<PlayerView>, pid: i32) -> bool {
    exists|j: int| 0 <= j < players.len() && (#[trigger] players[j]).unique_id == pid
}

/// The position of the first player with the given identifier;
/// meaningful only under [`spec_has_player`].
pub open spec fn spec_player_idx(players: Seq<PlayerView>, pid: i32) -> int {
    choose|j: int|
        0 <= j < players.len() && (#[trigger] players[j]).unique_id == pid && (forall|k: int|
            0 <= k < j ==> (#[trigger] players[k]).unique_id != pid)
}

/// The first player with the given identifier; meaningful only under
/// [`spec_has_player`].
pub open spec fn spec_player(players: Seq<PlayerView>, pid: i32) -> PlayerView {
    players[spec_player_idx(players, pid)]
}

/// Where `j` is the first player with the identifier, the lookup
/// points at it.
pub proof fn lemma_player_at(players: Seq<PlayerView>, pid: i32, j: int)
    requires
        0 <= j < players.len(),
        players[j].unique_id == pid,
        forall|k: int| 0 <= k < j ==> (#[trigger] players[k]).unique_id != pid,
    ensures
        spec_has_player(players, pid),
        spec_player_idx(players, pid) == j,
        spec_player(players, pid) == players[j],
{
    assert(spec_has_player(players, pid));
    let j2 = spec_player_idx(players, pid);
    assert(0 <= j2 < players.len() && players[j2].unique_id == pid && (forall|k: int|
        0 <= k < j2 ==> (#[trigger] players[k]).unique_id != pid));
    if j2 < j {
        assert(players[j2].unique_id != pid);
    }
    if j < j2 {
        assert(players[j].unique_id != pid);
    }
}

proof fn lemma_player_minimal_exists(players: Seq<PlayerView>, pid: i32, w: int)
    requires
        0 <= w < players.len(),
        players[w].unique_id == pid,
    ensures
        exists|j: int|
            0 <= j < players.len() && (#[trigger] players[j]).unique_id == pid && (forall|k: int|
                0 <= k < j ==> (#[trigger] players[k]).unique_id != pid),
    decreases w,
{
    if forall|k: int| 0 <= k < w ==> (#[trigger] players[k]).unique_id != pid {
        assert(0 <= w < players.len() && players[w].unique_id == pid && (forall|k: int|
            0 <= k < w ==> (#[trigger] players[k]).unique_id != pid));
    } else {
        let k = choose|k: int| 0 <= k < w && (#[trigger] players[k]).unique_id == pid;
        lemma_player_minimal_exists(players, pid, k);
    }
}

/// The lookup's result always points at the first player with the
/// identifier.
pub proof fn lemma_player(players: Seq<PlayerView>, pid: i32)
    ensures
        spec_has_player(players, pid) ==> {
            let j = spec_player_idx(players, pid);
            &&& 0 <= j < players.len()
            &&& players[j].unique_id == pid
            &&& forall|k: int| 0 <= k < j ==> (#[trigger] players[k]).unique_id != pid
        },
{
    if spec_has_player(players, pid) {
        let w = choose|j: int| 0 <= j < players.len() && (#[trigger] players[j]).unique_id == pid;
        lemma_player_minimal_exists(players, pid, w);
    }
}

/// Whether some player of the roster holds the given seat.
pub open spec fn spec_role_occupied(players: Seq<PlayerView>, role: InGameID) -> bool {
    exists|j: int| 0 <= j < players.len() && (#[trigger] players[j]).in_game_id == role
}

// ---------------------------------------------------------------------
// Small helpers.

/// A signed 32-bit value clamped into the 16-bit range, the saturation
/// used for movement budgets.
pub open spec fn spec_clamp_moves(v: int) -> i16 {
    if v > i16::MAX {
        i16::MAX
    } else if v < i16::MIN {
        i16::MIN
    } else {
        v as i16
    }
}

fn clamp_moves(v: i32) -> (r: i16)
    ensures
        r == spec_clamp_moves(v as int),
{
    if v > i16::MAX as i32 {
        i16::MAX
    } else if v < i16::MIN as i32 {
        i16::MIN
    } else {
        v as i16
    }
}

/// Whether a district appears in a list of visited districts.
pub open spec fn spec_districts_contain(districts: Seq<District>, d: District) -> bool {
    exists|j: int| 0 <= j < districts.len() && #[trigger] districts[j] == d
}

fn districts_contain(districts: &Vec<District>, d: District) -> (r: bool)
    ensures
        r == spec_districts_contain(districts@, d),
{
    let mut i: usize = 0;
    while i < districts.len()
        invariant
            i <= districts.len(),
            forall|k: int| 0 <= k < i ==> #[trigger] districts@[k] != d,
        decreases districts.len() - i,
    {
        if districts[i] == d {
            return true;
        }
        i = i + 1;
    }
    false
}

// ---------------------------------------------------------------------
// The movement mechanics, mathematically.

/// Whether any edge of the list lies in the district.
pub open spec fn spec_list_in_district(list: Seq<NeighbourRelationship>, d: District) -> bool {
    exists|j: int| 0 <= j < list.len() && (#[trigger] list[j]).neighbourhood == d
}

/// Whether a mission card has its pickup or drop-off node in the
/// district: both nodes must have adjacency lists, and one of the lists
/// must touch the district.
pub open spec fn spec_card_objective_in_district(
    m: NodeMapView,
    card: PlayerObjectiveCardView,
    d: District,
) -> bool {
    &&& (card.pick_up_node_id as int) < m.edges.len()
    &&& (card.drop_off_node_id as int) < m.edges.len()
    &&& (spec_list_in_district(m.edges[card.pick_up_node_id as int], d) || spec_list_in_district(
        m.edges[card.drop_off_node_id as int],
        d,
    ))
}

/// Whether the player's mission touches the district, as
/// [`spec_card_objective_in_district`] says; a player without a
/// mission touches none.
pub open spec fn spec_player_has_objective_in_district(
    m: NodeMapView,
    p: PlayerView,
    d: District,
) -> bool {
    match p.objective_card {
        None => false,
        Some(c) => spec_card_objective_in_district(m, c, d),
    }
}

/// Every non-toll modifier names a vehicle type; movement needs this
/// to weigh bonuses.
pub open spec fn spec_mods_have_vehicle(mods: Seq<DistrictModifier>) -> bool {
    forall|k: int|
        0 <= k < mods.len() && (#[trigger] mods[k]).modifier != DistrictModifierType::Toll
            ==> mods[k].vehicle_type is Some
}

/// Whether one modifier grants its movement bonus to the holder of the
/// given mission card when entering district `d`: the modifier must
/// concern `d`, not be a toll, and either admit a destination vehicle
/// while the mission touches `d`, or admit a vehicle type the mission
/// requires.
pub open spec fn spec_modifier_gives_bonus(
    m: NodeMapView,
    card: PlayerObjectiveCardView,
    md: DistrictModifier,
    d: District,
) -> bool {
    &&& md.modifier != DistrictModifierType::Toll
    &&& md.district == d
    &&& md.vehicle_type is Some
    &&& ((md.vehicle_type->0 == RestrictionType::Destination && spec_card_objective_in_district(
        m,
        card,
        d,
    )) || card.special_vehicle_types.contains(md.vehicle_type->0))
}

/// The largest movement bonus granted by the first `upto` modifiers,
/// never below zero.
pub open spec fn spec_bonus_upto(
    m: NodeMapView,
    mods: Seq<DistrictModifier>,
    card: PlayerObjectiveCardView,
    d: District,
    upto: int,
) -> i16
    decreases upto,
{
    if upto <= 0 {
        0i16
    } else {
        let prev = spec_bonus_upto(m, mods, card, d, upto - 1);
        let md = mods[upto - 1];
        if spec_modifier_gives_bonus(m, card, md, d) && md.associated_movement_value is Some
            && md.associated_movement_value->0 > prev {
            md.associated_movement_value->0
        } else {
            prev
        }
    }
}

/// The largest movement bonus granted by any active modifier, never
/// below zero.
pub open spec fn spec_bonus(
    m: NodeMapView,
    mods: Seq<DistrictModifier>,
    card: PlayerObjectiveCardView,
    d: District,
) -> i16 {
    spec_bonus_upto(m, mods, card, d, mods.len() as int)
}

/// The edge a movement request would traverse: the first record from
/// the player's position to the destination.
pub open spec fn spec_move_edge(g: GameStateView, pid: i32, to: u8) -> NeighbourRelationship {
    let cur = spec_player(g.players, pid).position_node_id->0;
    g.map.edges[cur as int][spec_list_edge_idx(g.map.edges[cur as int], to)]
}

/// Whether a movement request runs station-to-station: both positions
/// are rail-connected nodes.
pub open spec fn spec_move_rail(g: GameStateView, pid: i32, to: u8) -> bool {
    let cur = spec_player(g.players, pid).position_node_id->0;
    spec_node(g.map.nodes, to).is_connected_to_rail && spec_node(
        g.map.nodes,
        cur,
    ).is_connected_to_rail
}

/// Whether a movement request succeeds: the player exists and stands
/// somewhere, both nodes exist, the edge exists and is not blocked,
/// and the vehicle-mode branch taken accepts the edge.
pub open spec fn spec_move_ok(g: GameStateView, pid: i32, to: u8) -> bool {
    &&& spec_has_player(g.players, pid)
    &&& spec_player(g.players, pid).position_node_id is Some
    &&& spec_has_node(g.map.nodes, spec_player(g.players, pid).position_node_id->0)
    &&& spec_has_node(g.map.nodes, to)
    &&& (spec_player(g.players, pid).position_node_id->0 as int) < g.map.edges.len()
    &&& spec_list_has_edge(
        g.map.edges[spec_player(g.players, pid).position_node_id->0 as int],
        to,
    )
    &&& !spec_move_edge(g, pid, to).blocked
    &&& {
        let p = spec_player(g.players, pid);
        let edge = spec_move_edge(g, pid, to);
        if spec_move_rail(g, pid, to) {
            edge.is_connected_through_rail
        } else if p.is_bus {
            edge.restriction == Some(RestrictionType::ParkAndRide)
        } else if edge.restriction is Some {
            edge.restriction != Some(RestrictionType::ParkAndRide)
        } else if !spec_districts_contain(g.accessed_districts, edge.neighbourhood) {
            &&& spec_has_district_cost(g.map.neighbourhood_cost, edge.neighbourhood)
            &&& (p.objective_card is Some ==> spec_mods_have_vehicle(g.district_modifiers))
        } else {
            true
        }
    }
}

/// The movement budget a successful move leaves: one for rail, bus and
/// restricted moves; the district entry cost less bonuses on first
/// entering a district this turn; the edge's own cost otherwise.
pub open spec fn spec_move_new_remaining(g: GameStateView, pid: i32, to: u8) -> i16 {
    let p = spec_player(g.players, pid);
    let edge = spec_move_edge(g, pid, to);
    if spec_move_rail(g, pid, to) || p.is_bus || edge.restriction is Some {
        spec_clamp_moves(p.remaining_moves - 1)
    } else if !spec_districts_contain(g.accessed_districts, edge.neighbourhood) {
        let entry = crate::node_map::spec_entry_cost(
            spec_district_cost(g.map.neighbourhood_cost, edge.neighbourhood)->0,
            edge.movement_cost,
        );
        let bonus: i16 = if p.objective_card is Some {
            spec_bonus(g.map, g.district_modifiers, p.objective_card->0, edge.neighbourhood)
        } else {
            0i16
        };
        spec_clamp_moves(p.remaining_moves - entry + bonus)
    } else {
        spec_clamp_moves(p.remaining_moves - edge.movement_cost)
    }
}

/// The game after a successful move: the player stands on the
/// destination with the new budget, and a first-entered district is
/// recorded as visited.
pub open spec fn spec_moved_state(g: GameStateView, pid: i32, to: u8) -> GameStateView {
    let pi = spec_player_idx(g.players, pid);
    let p = g.players[pi];
    let edge = spec_move_edge(g, pid, to);
    let first_entry = !spec_move_rail(g, pid, to) && !p.is_bus && edge.restriction is None
        && !spec_districts_contain(g.accessed_districts, edge.neighbourhood);
    GameStateView {
        players: g.players.update(
            pi,
            PlayerView {
                position_node_id: Some(to),
                remaining_moves: spec_move_new_remaining(g, pid, to),
                ..p
            },
        ),
        accessed_districts: if first_entry {
            g.accessed_districts.push(edge.neighbourhood)
        } else {
            g.accessed_districts
        },
        ..g
    }
}

/// The roster without the players holding the given identifier, in
/// the original order.
pub open spec fn spec_remove_player(players: Seq<PlayerView>, pid: i32) -> Seq<PlayerView>
    decreases players.len(),
{
    if players.len() == 0 {
        Seq::empty()
    } else {
        let rest = spec_remove_player(players.drop_last(), pid);
        if players.last().unique_id == pid {
            rest
        } else {
            rest.push(players.last())
        }
    }
}

/// How many of the players from position `i` on do not hold the
/// orchestrator seat.
pub open spec fn spec_non_orchestrator_count_from(players: Seq<PlayerView>, i: int) -> int
    decreases players.len() - i,
{
    if i < 0 || i >= players.len() {
        0
    } else {
        (if players[i].in_game_id == InGameID::Orchestrator {
            0int
        } else {
            1int
        }) + spec_non_orchestrator_count_from(players, i + 1)
    }
}

/// How many players of the roster do not hold the orchestrator seat.
pub open spec fn spec_non_orchestrator_count(players: Seq<PlayerView>) -> int {
    spec_non_orchestrator_count_from(players, 0)
}

/// A count of players is never negative.
pub proof fn lemma_non_orchestrator_count_from_nonneg(players: Seq<PlayerView>, i: int)
    ensures
        spec_non_orchestrator_count_from(players, i) >= 0,
    decreases players.len() - i,
{
    if 0 <= i < players.len() {
        lemma_non_orchestrator_count_from_nonneg(players, i + 1);
    }
}

/// A player's mission after a status sweep: standing on the pickup
/// node picks the cargo up, and standing on the drop-off node with
/// the cargo delivers it.
pub open spec fn spec_objective_updated(p: PlayerView) -> PlayerView {
    let pos = p.position_node_id->0;
    let card = p.objective_card->0;
    let picked = card.picked_package_up || pos == card.pick_up_node_id;
    let dropped = card.dropped_package_off || (pos == card.drop_off_node_id && picked);
    PlayerView {
        objective_card: Some(
            PlayerObjectiveCardView {
                picked_package_up: picked,
                dropped_package_off: dropped,
                ..card
            },
        ),
        ..p
    }
}

/// What dealing missions leaves behind: every non-orchestrator player
/// holds some mission from the scenario's pool and stands at its start
/// node, and nothing else of the game changed.
pub open spec fn spec_cards_assigned(old_g: GameStateView, new_g: GameStateView) -> bool {
    &&& new_g == (GameStateView { players: new_g.players, ..old_g })
    &&& new_g.players.len() == old_g.players.len()
    &&& forall|k: int|
        #![trigger new_g.players[k]]
        0 <= k < old_g.players.len()
            ==> if old_g.players[k].in_game_id == InGameID::Orchestrator {
                new_g.players[k] == old_g.players[k]
            } else {
                &&& new_g.players[k].objective_card is Some
                &&& old_g.situation_card->0.objective_cards.contains(
                    new_g.players[k].objective_card->0,
                )
                &&& new_g.players[k] == (PlayerView {
                    position_node_id: Some(new_g.players[k].objective_card->0.start_node_id),
                    objective_card: new_g.players[k].objective_card,
                    ..old_g.players[k]
                })
            }
}

/// The seat the turn rotation lands on, and whether it stepped onto
/// the orchestrator on the way: starting at `candidate`, the rotation
/// advances until a seat some player holds, giving up on the
/// orchestrator after a thousand steps.
pub open spec fn spec_rotate(
    players: Seq<PlayerView>,
    candidate: InGameID,
    lobby: bool,
    counter: int,
) -> (InGameID, bool)
    decreases 1000 - counter,
{
    if spec_role_occupied(players, candidate) {
        (candidate, lobby)
    } else {
        let c2 = spec_in_game_id_next(candidate);
        let lobby2 = lobby || c2 == InGameID::Orchestrator;
        if counter >= 1000 {
            (InGameID::Orchestrator, lobby2)
        } else {
            spec_rotate(players, c2, lobby2, counter + 1)
        }
    }
}

// ---------------------------------------------------------------------
// District modifiers and traffic recomputation, mathematically.

/// The smaller of two unbounded integers.
pub open spec fn spec_min_int(a: int, b: int) -> int {
    if a <= b {
        a
    } else {
        b
    }
}

/// How many of the first `upto` modifiers share the given kind and
/// district.
pub open spec fn spec_modifier_count_upto(
    mods: Seq<DistrictModifier>,
    modifier: DistrictModifierType,
    district: District,
    upto: int,
) -> int
    decreases upto,
{
    if upto <= 0 {
        0
    } else {
        spec_modifier_count_upto(mods, modifier, district, upto - 1) + if mods[upto - 1].modifier
            == modifier && mods[upto - 1].district == district {
            1int
        } else {
            0int
        }
    }
}

/// How many active modifiers share the given kind and district.
pub open spec fn spec_modifier_count(
    mods: Seq<DistrictModifier>,
    modifier: DistrictModifierType,
    district: District,
) -> int {
    spec_modifier_count_upto(mods, modifier, district, mods.len() as int)
}

/// The cap on modifiers of one kind per district.
pub open spec fn spec_max_modifier_count(modifier: DistrictModifierType) -> int {
    match modifier {
        DistrictModifierType::Access => MAX_ACCESS_MODIFIER_COUNT as int,
        DistrictModifierType::Priority => MAX_PRIORITY_MODIFIER_COUNT as int,
        DistrictModifierType::Toll => MAX_TOLL_MODIFIER_COUNT as int,
    }
}

/// Every access modifier names a vehicle type.
pub open spec fn spec_access_mods_have_vehicle(mods: Seq<DistrictModifier>) -> bool {
    forall|k: int|
        0 <= k < mods.len() && (#[trigger] mods[k]).modifier == DistrictModifierType::Access
            ==> mods[k].vehicle_type is Some
}

proof fn lemma_access_vehicle_push(mods: Seq<DistrictModifier>, dm: DistrictModifier)
    requires
        spec_access_mods_have_vehicle(mods),
        dm.modifier == DistrictModifierType::Access ==> dm.vehicle_type is Some,
    ensures
        spec_access_mods_have_vehicle(mods.push(dm)),
{
    assert forall|k: int|
        0 <= k < mods.push(dm).len() && (#[trigger] mods.push(dm)[k]).modifier
            == DistrictModifierType::Access implies mods.push(dm)[k].vehicle_type is Some by {
        if k < mods.len() {
            assert(mods.push(dm)[k] == mods[k]);
        } else {
            assert(mods.push(dm)[k] == dm);
        }
    }
}

/// Whether any of the first `upto` modifiers is an access modifier for
/// district `d`.
pub open spec fn spec_has_access_mod(mods: Seq<DistrictModifier>, d: District, upto: int) -> bool {
    exists|j: int|
        0 <= j < upto && (#[trigger] mods[j]).modifier == DistrictModifierType::Access
            && mods[j].district == d
}

/// The summed traffic-increase weight of the first `upto` access
/// modifiers for district `d`.
pub open spec fn spec_access_sum(mods: Seq<DistrictModifier>, d: District, upto: int) -> int
    decreases upto,
{
    if upto <= 0 {
        0
    } else {
        spec_access_sum(mods, d, upto - 1) + if mods[upto - 1].modifier
            == DistrictModifierType::Access && mods[upto - 1].district == d && mods[upto
            - 1].vehicle_type is Some {
            spec_times_to_increase_traffic_when_access(mods[upto - 1].vehicle_type->0) as int
        } else {
            0int
        }
    }
}

proof fn lemma_access_sum_nonneg(mods: Seq<DistrictModifier>, d: District, upto: int)
    ensures
        spec_access_sum(mods, d, upto) >= 0,
    decreases upto,
{
    if upto > 0 {
        lemma_access_sum_nonneg(mods, d, upto - 1);
    }
}

/// The traffic level of one cost-table row after the active access
/// modifiers are applied: with an access modifier present the level is
/// rebuilt from the lowest level, raised once less than the summed
/// weights; without one the row keeps its level.
pub open spec fn spec_modified_traffic(mods: Seq<DistrictModifier>, tuple: CostTuple) -> Traffic {
    if spec_has_access_mod(mods, tuple.neighbourhood, mods.len() as int) {
        let sum = spec_access_sum(mods, tuple.neighbourhood, mods.len() as int);
        let steps = if sum <= 0 {
            0
        } else {
            sum - 1
        };
        spec_traffic_increased_times(Traffic::LevelOne, steps as nat)
    } else {
        tuple.traffic
    }
}

/// The scenario's cost table after the active access modifiers are
/// replayed over the catalogue original.
pub open spec fn spec_updated_costs(mods: Seq<DistrictModifier>, id: int) -> Seq<CostTuple> {
    Seq::new(
        6,
        |j: int|
            CostTuple {
                neighbourhood: spec_catalog_costs(id)[j].neighbourhood,
                traffic: spec_modified_traffic(mods, spec_catalog_costs(id)[j]),
            },
    )
}

/// What recomputing the traffic levels leaves behind: the scenario's
/// cost table is replaced by the replayed one, the map's base costs
/// follow it, and nothing else changes.
pub open spec fn spec_traffic_updated(old_g: GameStateView, new_g: GameStateView) -> bool {
    &&& new_g == (GameStateView {
        situation_card: new_g.situation_card,
        map: new_g.map,
        ..old_g
    })
    &&& new_g.situation_card is Some
    &&& new_g.situation_card->0 == (SituationCardView {
        costs: spec_updated_costs(
            old_g.district_modifiers,
            old_g.situation_card->0.card_id as int,
        ),
        ..old_g.situation_card->0
    })
    &&& new_g.map.nodes == old_g.map.nodes
    &&& new_g.map.edges == old_g.map.edges
    &&& forall|d: District|
        #[trigger] spec_district_cost(new_g.map.neighbourhood_cost, d) == spec_costs_applied(
            old_g.map.neighbourhood_cost,
            spec_updated_costs(old_g.district_modifiers, old_g.situation_card->0.card_id as int),
            d,
        )
}

proof fn lemma_traffic_increased_times_flip(t: Traffic, n: nat)
    requires
        n >= 1,
    ensures
        spec_traffic_increased_times(t, n) == spec_traffic_increased(
            spec_traffic_increased_times(t, (n - 1) as nat),
        ),
    decreases n,
{
    if n == 1 {
        assert(spec_traffic_increased_times(t, 1) == spec_traffic_increased_times(
            spec_traffic_increased(t),
            0,
        ));
    } else {
        lemma_traffic_increased_times_flip(spec_traffic_increased(t), (n - 1) as nat);
    }
}

proof fn lemma_traffic_increased_times_caps(t: Traffic, n: nat)
    requires
        n >= 4,
    ensures
        spec_traffic_increased_times(t, n) == Traffic::LevelFive,
    decreases n,
{
    if n == 4 {
        let t1 = spec_traffic_increased(t);
        let t2 = spec_traffic_increased(t1);
        let t3 = spec_traffic_increased(t2);
        let t4 = spec_traffic_increased(t3);
        assert(spec_traffic_increased_times(t, 4) == spec_traffic_increased_times(t1, 3));
        assert(spec_traffic_increased_times(t1, 3) == spec_traffic_increased_times(t2, 2));
        assert(spec_traffic_increased_times(t2, 2) == spec_traffic_increased_times(t3, 1));
        assert(spec_traffic_increased_times(t3, 1) == spec_traffic_increased_times(t4, 0));
        assert(t4 == Traffic::LevelFive);
    } else {
        lemma_traffic_increased_times_caps(spec_traffic_increased(t), (n - 1) as nat);
    }
}

/// Whether the list holds a modifier equal to the given one.
pub open spec fn spec_has_modifier(mods: Seq<DistrictModifier>, target: DistrictModifier) -> bool {
    exists|j: int| 0 <= j < mods.len() && #[trigger] mods[j] == target
}

/// The position of the first modifier equal to the given one;
/// meaningful only under [`spec_has_modifier`].
pub open spec fn spec_modifier_idx(mods: Seq<DistrictModifier>, target: DistrictModifier) -> int {
    choose|j: int|
        0 <= j < mods.len() && #[trigger] mods[j] == target && (forall|k: int|
            0 <= k < j ==> mods[k] != target)
}

proof fn lemma_modifier_at(mods: Seq<DistrictModifier>, target: DistrictModifier, j: int)
    requires
        0 <= j < mods.len(),
        mods[j] == target,
        forall|k: int| 0 <= k < j ==> #[trigger] mods[k] != target,
    ensures
        spec_has_modifier(mods, target),
        spec_modifier_idx(mods, target) == j,
{
    assert(spec_has_modifier(mods, target));
    let j2 = spec_modifier_idx(mods, target);
    assert(0 <= j2 < mods.len() && mods[j2] == target && (forall|k: int|
        0 <= k < j2 ==> #[trigger] mods[k] != target));
    if j2 < j {
        assert(mods[j2] != target);
    }
    if j < j2 {
        assert(mods[j] != target);
    }
}

/// The recorded edge restrictions without those between the two given
/// nodes, in either orientation.
pub open spec fn spec_retained_restrictions(
    list: Seq<EdgeRestriction>,
    n1: u8,
    n2: u8,
) -> Seq<EdgeRestriction>
    decreases list.len(),
{
    if list.len() == 0 {
        Seq::empty()
    } else {
        let rest = spec_retained_restrictions(list.drop_last(), n1, n2);
        let e = list.last();
        if (e.node_one == n1 && e.node_two == n2) || (e.node_one == n2 && e.node_two == n1) {
            rest
        } else {
            rest.push(e)
        }
    }
}

/// Two rosters of equal length and pointwise equal seats hold equally
/// many non-orchestrators.
pub proof fn lemma_non_orchestrator_count_pointwise(a: Seq<PlayerView>, b: Seq<PlayerView>)
    requires
        a.len() == b.len(),
        forall|k: int| 0 <= k < a.len() ==> (#[trigger] a[k]).in_game_id == b[k].in_game_id,
    ensures
        forall|i: int|
            #[trigger] spec_non_orchestrator_count_from(a, i) == spec_non_orchestrator_count_from(
                b,
                i,
            ),
{
    assert forall|i: int| #[trigger] spec_non_orchestrator_count_from(a, i)
        == spec_non_orchestrator_count_from(b, i) by {
        lemma_non_orchestrator_count_pointwise_from(a, b, i);
    }
}

proof fn lemma_non_orchestrator_count_pointwise_from(a: Seq<PlayerView>, b: Seq<PlayerView>, i: int)
    requires
        a.len() == b.len(),
        forall|k: int| 0 <= k < a.len() ==> (#[trigger] a[k]).in_game_id == b[k].in_game_id,
    ensures
        spec_non_orchestrator_count_from(a, i) == spec_non_orchestrator_count_from(b, i),
    decreases a.len() - i,
{
    if 0 <= i < a.len() {
        lemma_non_orchestrator_count_pointwise_from(a, b, i + 1);
    }
}

/// Whether a game can leave the lobby: an orchestrator, at least two
/// players, a catalogued scenario, no undecided seat, and a mission
/// for every non-orchestrator.
pub open spec fn spec_can_start(g: GameStateView) -> bool {
    &&& spec_role_occupied(g.players, InGameID::Orchestrator)
    &&& g.players.len() >= 2
    &&& g.situation_card is Some
    &&& 1 <= g.situation_card->0.card_id <= 5
    &&& forall|k: int|
        0 <= k < g.players.len() ==> (#[trigger] g.players[k]).in_game_id != InGameID::Undecided
    &&& spec_non_orchestrator_count(g.players) <= g.situation_card->0.objective_cards.len()
}

/// Whether two modifiers are equal, field by field.
fn district_modifier_eq(a: &DistrictModifier, b: &DistrictModifier) -> (r: bool)
    ensures
        r == (*a == *b),
{
    let vehicle_eq = match (a.vehicle_type, b.vehicle_type) {
        (None, None) => true,
        (Some(x), Some(y)) => x == y,
        _ => false,
    };
    let movement_eq = match (a.associated_movement_value, b.associated_movement_value) {
        (None, None) => true,
        (Some(x), Some(y)) => x == y,
        _ => false,
    };
    let money_eq = match (a.associated_money_value, b.associated_money_value) {
        (None, None) => true,
        (Some(x), Some(y)) => x == y,
        _ => false,
    };
    a.district == b.district && a.modifier == b.modifier && vehicle_eq && movement_eq && money_eq
        && a.delete == b.delete
}


impl GameState {
    /// A fresh lobby: no players, the orchestrator to act first, the
    /// default map, and no scenario chosen yet.
    pub fn new(name: String, game_id: i32) -> (r: Self)
        ensures
            r@.id == game_id,
            r@.name == name@,
            r@.players.len() == 0,
            r@.is_lobby,
            r@.current_players_turn == InGameID::Orchestrator,
            r@.district_modifiers.len() == 0,
            r@.actions.len() == 0,
            r@.accessed_districts.len() == 0,
            r@.map == crate::node_map::spec_default_map(),
            spec_map_wf(r@.map),
            r@.map.nodes.len() == 29,
            forall|d: District|
                #[trigger] spec_district_cost(r@.map.neighbourhood_cost, d) == Some(1i16),
            r@.situation_card is None,
            r@.edge_restrictions.len() == 0,
            r@.legal_nodes.len() == 0,
    {
        Self {
            id: game_id,
            name,
            players: Vec::new(),
            is_lobby: true,
            actions: Vec::new(),
            current_players_turn: InGameID::Orchestrator,
            district_modifiers: Vec::new(),
            accessed_districts: Vec::new(),
            map: NodeMap::new_default(),
            situation_card: None,
            edge_restrictions: Vec::new(),
            legal_nodes: Vec::new(),
        }
    }

    /// Sets the bus flag of every player with the given identifier.
    pub fn set_player_bus_bool(&mut self, player_id: i32, boolean: bool)
        ensures
            final(self)@ == (GameStateView { players: final(self)@.players, ..old(self)@ }),
            final(self)@.players.len() == old(self)@.players.len(),
            forall|k: int|
                0 <= k < old(self)@.players.len()
                    ==> #[trigger] final(self)@.players[k]
                        == if old(self)@.players[k].unique_id == player_id {
                            PlayerView { is_bus: boolean, ..old(self)@.players[k] }
                        } else {
                            old(self)@.players[k]
                        },
    {
        let n = self.players.len();
        let mut i: usize = 0;
        while i < n
            invariant
                i <= n,
                n == self.players.len(),
                self@ == (GameStateView { players: self@.players, ..old(self)@ }),
                self@.players.len() == old(self)@.players.len(),
                forall|k: int|
                    0 <= k < i ==> #[trigger] self@.players[k]
                        == if old(self)@.players[k].unique_id == player_id {
                            PlayerView { is_bus: boolean, ..old(self)@.players[k] }
                        } else {
                            old(self)@.players[k]
                        },
                forall|k: int|
                    i <= k < n ==> #[trigger] self@.players[k] == old(self)@.players[k],
            decreases n - i,
        {
            let ghost prev = self.players@;
            let ghost prev_view = self@;
            let hit = self.players[i].unique_id == player_id;
            if hit {
                self.players[i].is_bus = boolean;
            }
            proof {
                assert(prev_view.players[i as int] == old(self)@.players[i as int]);
                assert(self@.players[i as int] == self.players@[i as int]@);
                assert forall|k: int| 0 <= k < n && k != i implies
                    #[trigger] self@.players[k] == prev_view.players[k] by {
                    assert(self.players@[k] == prev[k]);
                    assert(prev_view.players[k] == prev[k]@);
                }
                if hit {
                    assert(self@.players[i as int] == (PlayerView {
                        is_bus: boolean,
                        ..old(self)@.players[i as int]
                    }));
                }
            }
            i = i + 1;
        }
    }

    /// Sets the train flag of every player with the given identifier.
    pub fn set_player_train_bool(&mut self, player_id: i32, boolean: bool)
        ensures
            final(self)@ == (GameStateView { players: final(self)@.players, ..old(self)@ }),
            final(self)@.players.len() == old(self)@.players.len(),
            forall|k: int|
                0 <= k < old(self)@.players.len()
                    ==> #[trigger] final(self)@.players[k]
                        == if old(self)@.players[k].unique_id == player_id {
                            PlayerView { is_train: boolean, ..old(self)@.players[k] }
                        } else {
                            old(self)@.players[k]
                        },
    {
        let n = self.players.len();
        let mut i: usize = 0;
        while i < n
            invariant
                i <= n,
                n == self.players.len(),
                self@ == (GameStateView { players: self@.players, ..old(self)@ }),
                self@.players.len() == old(self)@.players.len(),
                forall|k: int|
                    0 <= k < i ==> #[trigger] self@.players[k]
                        == if old(self)@.players[k].unique_id == player_id {
                            PlayerView { is_train: boolean, ..old(self)@.players[k] }
                        } else {
                            old(self)@.players[k]
                        },
                forall|k: int|
                    i <= k < n ==> #[trigger] self@.players[k] == old(self)@.players[k],
            decreases n - i,
        {
            let ghost prev = self.players@;
            let ghost prev_view = self@;
            let hit = self.players[i].unique_id == player_id;
            if hit {
                self.players[i].is_train = boolean;
            }
            proof {
                assert(prev_view.players[i as int] == old(self)@.players[i as int]);
                assert(self@.players[i as int] == self.players@[i as int]@);
                assert forall|k: int| 0 <= k < n && k != i implies
                    #[trigger] self@.players[k] == prev_view.players[k] by {
                    assert(self.players@[k] == prev[k]);
                    assert(prev_view.players[k] == prev[k]@);
                }
                if hit {
                    assert(self@.players[i as int] == (PlayerView {
                        is_train: boolean,
                        ..old(self)@.players[i as int]
                    }));
                }
            }
            i = i + 1;
        }
    }

    /// Whether the roster holds a player with the given identifier.
    pub fn contains_player_with_unique_id(&self, unique_id: i32) -> (r: bool)
        ensures
            r == spec_has_player(self@.players, unique_id),
    {
        let mut i: usize = 0;
        while i < self.players.len()
            invariant
                i <= self.players.len(),
                forall|k: int| 0 <= k < i ==> (#[trigger] self@.players[k]).unique_id != unique_id,
            decreases self.players.len() - i,
        {
            if self.players[i].unique_id == unique_id {
                proof {
                    assert(self@.players[i as int].unique_id == unique_id);
                }
                return true;
            }
            i = i + 1;
        }
        false
    }

    /// Adds a player to the roster with an undecided seat and this
    /// game's identity stamped on; fails on a full roster or an
    /// identifier already present.
    pub fn assign_player_to_game(&mut self, player: Player) -> (r: Result<(), String>)
        ensures
            r is Ok <==> old(self)@.players.len() < MAX_PLAYER_COUNT && !spec_has_player(
                old(self)@.players,
                player@.unique_id,
            ),
            r is Ok ==> final(self)@ == (GameStateView {
                players: old(self)@.players.push(
                    PlayerView {
                        in_game_id: InGameID::Undecided,
                        connected_game_id: Some(old(self)@.id),
                        ..player@
                    },
                ),
                ..old(self)@
            }),
            r is Err ==> final(self)@ == old(self)@,
    {
        if self.players.len() >= MAX_PLAYER_COUNT {
            return Err("The game is full".to_owned());
        }
        if self.contains_player_with_unique_id(player.unique_id) {
            return Err(
                "A player that is already assigned to a game cannot be assigned again".to_owned(),
            );
        }
        let mut player = player;
        player.in_game_id = InGameID::Undecided;
        player.connected_game_id = Some(self.id);
        self.players.push(player);
        proof {
            assert(final(self)@.players =~= old(self)@.players.push(
                PlayerView {
                    in_game_id: InGameID::Undecided,
                    connected_game_id: Some(old(self)@.id),
                    ..player@
                },
            ));
        }
        Ok(())
    }

    /// Replaces this game's roster with the roster of an update.
    pub fn update_game(&mut self, update: Self)
        ensures
            final(self)@ == (GameStateView { players: update@.players, ..old(self)@ }),
    {
        self.players = update.players;
    }

    /// Gives the seat to the player with the given identifier; fails if
    /// another player already holds the seat, unless the seat is
    /// undecided.
    /// Sets the seat of the player at one roster position.
    fn set_role_at(&mut self, j: usize, role: InGameID)
        requires
            (j as int) < old(self)@.players.len(),
        ensures
            final(self)@ == (GameStateView {
                players: old(self)@.players.update(
                    j as int,
                    PlayerView { in_game_id: role, ..old(self)@.players[j as int] },
                ),
                ..old(self)@
            }),
    {
        let ghost prev = self.players@;
        self.players[j].in_game_id = role;
        proof {
            assert(self@.players[j as int] == self.players@[j as int]@);
            assert forall|k: int| 0 <= k < prev.len() && k != j implies
                #[trigger] self@.players[k] == old(self)@.players[k] by {
                assert(self.players@[k] == prev[k]);
                assert(old(self)@.players[k] == prev[k]@);
            }
            assert(self@.players =~= old(self)@.players.update(
                j as int,
                PlayerView { in_game_id: role, ..old(self)@.players[j as int] },
            ));
        }
    }

    pub fn assign_player_role(&mut self, change_info: (i32, InGameID)) -> (r: Result<(), String>)
        ensures
            r is Ok <==> !(change_info.1 != InGameID::Undecided && spec_role_occupied(
                old(self)@.players,
                change_info.1,
            )) && spec_has_player(old(self)@.players, change_info.0),
            r is Ok ==> final(self)@ == (GameStateView {
                players: old(self)@.players.update(
                    spec_player_idx(old(self)@.players, change_info.0),
                    PlayerView {
                        in_game_id: change_info.1,
                        ..spec_player(old(self)@.players, change_info.0)
                    },
                ),
                ..old(self)@
            }),
            r is Err ==> final(self)@ == old(self)@,
    {
        let (related_player_id, change_to_role) = change_info;
        let mut i: usize = 0;
        while i < self.players.len()
            invariant
                i <= self.players.len(),
                forall|k: int|
                    0 <= k < i ==> !((#[trigger] self@.players[k]).in_game_id == change_to_role
                        && change_to_role != InGameID::Undecided),
            decreases self.players.len() - i,
        {
            if self.players[i].in_game_id == change_to_role && change_to_role != InGameID::Undecided
            {
                proof {
                    assert(self@.players[i as int].in_game_id == change_to_role);
                }
                return Err("There is already a player with this role".to_owned());
            }
            i = i + 1;
        }
        let mut j: usize = 0;
        while j < self.players.len()
            invariant
                self@ == old(self)@,
                j <= self.players.len(),
                forall|k: int|
                    0 <= k < j ==> (#[trigger] old(self)@.players[k]).unique_id
                        != related_player_id,
            decreases self.players.len() - j,
        {
            if self.players[j].unique_id == related_player_id {
                self.set_role_at(j, change_to_role);
                proof {
                    lemma_player_at(old(self)@.players, related_player_id, j as int);
                }
                return Ok(());
            }
            j = j + 1;
        }
        Err("There were no players in this game that match the player to update".to_owned())
    }

    /// The player with the given identifier, or an error if the roster
    /// has none.
    pub fn get_player_with_unique_id(&self, player_id: i32) -> (r: Result<Player, String>)
        ensures
            r is Ok <==> spec_has_player(self@.players, player_id),
            r is Ok ==> r->Ok_0@ == spec_player(self@.players, player_id),
    {
        let mut i: usize = 0;
        while i < self.players.len()
            invariant
                i <= self.players.len(),
                forall|k: int| 0 <= k < i ==> (#[trigger] self@.players[k]).unique_id != player_id,
            decreases self.players.len() - i,
        {
            if self.players[i].unique_id == player_id {
                proof {
                    lemma_player_at(self@.players, player_id, i as int);
                }
                return Ok(self.players[i].duplicate());
            }
            i = i + 1;
        }
        Err("There is no player in the game with the given id".to_owned())
    }

    /// The movement budget every player starts a round with.
    pub fn get_starting_player_movement_value() -> (r: i16)
        ensures
            r == START_MOVEMENT_AMOUNT,
    {
        START_MOVEMENT_AMOUNT
    }

    /// Stores the chosen scenario on this game.
    pub fn update_situation_card(&mut self, new_situation_card: SituationCard)
        ensures
            final(self)@ == (GameStateView {
                situation_card: Some(new_situation_card@),
                ..old(self)@
            }),
    {
        self.situation_card = Some(new_situation_card);
    }

    /// Puts every player back to the pre-round state: no position, the
    /// starting movement budget, no mission, driving a car.
    pub fn reset_player_in_game_data(&mut self)
        ensures
            final(self)@ == (GameStateView { players: final(self)@.players, ..old(self)@ }),
            final(self)@.players.len() == old(self)@.players.len(),
            forall|k: int|
                0 <= k < old(self)@.players.len()
                    ==> #[trigger] final(self)@.players[k] == (PlayerView {
                        position_node_id: None,
                        remaining_moves: START_MOVEMENT_AMOUNT,
                        objective_card: None,
                        is_bus: false,
                        is_train: false,
                        ..old(self)@.players[k]
                    }),
    {
        let n = self.players.len();
        let mut i: usize = 0;
        while i < n
            invariant
                i <= n,
                n == self.players.len(),
                self@ == (GameStateView { players: self@.players, ..old(self)@ }),
                self@.players.len() == old(self)@.players.len(),
                forall|k: int|
                    0 <= k < i ==> #[trigger] self@.players[k] == (PlayerView {
                        position_node_id: None,
                        remaining_moves: START_MOVEMENT_AMOUNT,
                        objective_card: None,
                        is_bus: false,
                        is_train: false,
                        ..old(self)@.players[k]
                    }),
                forall|k: int|
                    i <= k < n ==> #[trigger] self@.players[k] == old(self)@.players[k],
            decreases n - i,
        {
            let ghost prev = self.players@;
            let ghost prev_view = self@;
            self.players[i].position_node_id = None;
            self.players[i].remaining_moves = START_MOVEMENT_AMOUNT;
            self.players[i].objective_card = None;
            self.players[i].is_bus = false;
            self.players[i].is_train = false;
            proof {
                assert(prev_view.players[i as int] == old(self)@.players[i as int]);
                assert(self@.players[i as int] == self.players@[i as int]@);
                assert forall|k: int| 0 <= k < n && k != i implies
                    #[trigger] self@.players[k] == prev_view.players[k] by {
                    assert(self.players@[k] == prev[k]);
                    assert(prev_view.players[k] == prev[k]@);
                }
                assert(self@.players[i as int] == (PlayerView {
                    position_node_id: None,
                    remaining_moves: START_MOVEMENT_AMOUNT,
                    objective_card: None,
                    is_bus: false,
                    is_train: false,
                    ..old(self)@.players[i as int]
                }));
            }
            i = i + 1;
        }
    }

    /// Gives every player the starting movement budget.
    pub fn reset_player_movement_values(&mut self)
        ensures
            final(self)@ == (GameStateView { players: final(self)@.players, ..old(self)@ }),
            final(self)@.players.len() == old(self)@.players.len(),
            forall|k: int|
                0 <= k < old(self)@.players.len()
                    ==> #[trigger] final(self)@.players[k] == (PlayerView {
                        remaining_moves: START_MOVEMENT_AMOUNT,
                        ..old(self)@.players[k]
                    }),
    {
        let n = self.players.len();
        let mut i: usize = 0;
        while i < n
            invariant
                i <= n,
                n == self.players.len(),
                self@ == (GameStateView { players: self@.players, ..old(self)@ }),
                self@.players.len() == old(self)@.players.len(),
                forall|k: int|
                    0 <= k < i ==> #[trigger] self@.players[k] == (PlayerView {
                        remaining_moves: START_MOVEMENT_AMOUNT,
                        ..old(self)@.players[k]
                    }),
                forall|k: int|
                    i <= k < n ==> #[trigger] self@.players[k] == old(self)@.players[k],
            decreases n - i,
        {
            let ghost prev = self.players@;
            let ghost prev_view = self@;
            self.players[i].remaining_moves = START_MOVEMENT_AMOUNT;
            proof {
                assert(prev_view.players[i as int] == old(self)@.players[i as int]);
                assert(self@.players[i as int] == self.players@[i as int]@);
                assert forall|k: int| 0 <= k < n && k != i implies
                    #[trigger] self@.players[k] == prev_view.players[k] by {
                    assert(self.players@[k] == prev[k]);
                    assert(prev_view.players[k] == prev[k]@);
                }
                assert(self@.players[i as int] == (PlayerView {
                    remaining_moves: START_MOVEMENT_AMOUNT,
                    ..old(self)@.players[i as int]
                }));
            }
            i = i + 1;
        }
    }

    /// Whether any edge of the given node's adjacency list lies in the
    /// district.
    pub fn node_is_in_district(
        neighbour_list: Vec<NeighbourRelationship>,
        district: District,
    ) -> (r: bool)
        ensures
            r == spec_list_in_district(neighbour_list@, district),
    {
        let mut i: usize = 0;
        while i < neighbour_list.len()
            invariant
                i <= neighbour_list.len(),
                forall|k: int|
                    0 <= k < i ==> (#[trigger] neighbour_list@[k]).neighbourhood != district,
            decreases neighbour_list.len() - i,
        {
            if neighbour_list[i].neighbourhood == district {
                return true;
            }
            i = i + 1;
        }
        false
    }

    /// Whether the player's mission has its pickup or drop-off node in
    /// the given district.
    pub fn player_has_objective_in_district(
        map: &NodeMap,
        player: &Player,
        district: District,
    ) -> (r: bool)
        ensures
            r == spec_player_has_objective_in_district(map@, player@, district),
    {
        let objectivecard = match &player.objective_card {
            Some(c) => c,
            None => {
                return false;
            },
        };
        let pick_up_neighbours = match map.get_neighbour_relationships_of_node_with_id(
            objectivecard.pick_up_node_id,
        ) {
            Some(n) => n,
            None => {
                return false;
            },
        };
        let drop_off_neighbours = match map.get_neighbour_relationships_of_node_with_id(
            objectivecard.drop_off_node_id,
        ) {
            Some(n) => n,
            None => {
                return false;
            },
        };
        Self::node_is_in_district(pick_up_neighbours, district) || Self::node_is_in_district(
            drop_off_neighbours,
            district,
        )
    }

    /// The position of the first player with the given identifier, if
    /// any.
    fn find_player_index(&self, player_id: i32) -> (r: Option<usize>)
        ensures
            r is Some <==> spec_has_player(self@.players, player_id),
            r is Some ==> r->0 as int == spec_player_idx(self@.players, player_id)
                && (r->0 as int) < self@.players.len()
                && self@.players[r->0 as int].unique_id == player_id,
    {
        let mut i: usize = 0;
        while i < self.players.len()
            invariant
                i <= self.players.len(),
                forall|k: int| 0 <= k < i ==> (#[trigger] self@.players[k]).unique_id != player_id,
            decreases self.players.len() - i,
        {
            if self.players[i].unique_id == player_id {
                proof {
                    lemma_player_at(self@.players, player_id, i as int);
                }
                return Some(i);
            }
            i = i + 1;
        }
        None
    }

    /// The position of the first edge record leading to the given
    /// node, if any.
    pub(crate) fn find_edge_index(list: &Vec<NeighbourRelationship>, to: u8) -> (r: Option<usize>)
        ensures
            r is Some <==> spec_list_has_edge(list@, to),
            r is Some ==> (r->0 as int) == spec_list_edge_idx(list@, to) && (r->0 as int)
                < list@.len() && list@[r->0 as int].to == to,
    {
        let mut i: usize = 0;
        while i < list.len()
            invariant
                i <= list.len(),
                forall|k: int| 0 <= k < i ==> (#[trigger] list@[k]).to != to,
            decreases list.len() - i,
        {
            if list[i].to == to {
                proof {
                    lemma_list_edge_at(list@, to, i as int);
                }
                return Some(i);
            }
            i = i + 1;
        }
        None
    }

    /// Moves one player between positions, charging the given flat
    /// cost.
    fn move_player_to_node(player: &mut Player, to_node_id: u8, cost: i16)
        ensures
            final(player)@ == (PlayerView {
                position_node_id: Some(to_node_id),
                remaining_moves: spec_clamp_moves(old(player)@.remaining_moves - cost),
                ..old(player)@
            }),
    {
        player.remaining_moves = clamp_moves(player.remaining_moves as i32 - cost as i32);
        player.position_node_id = Some(to_node_id);
    }

    /// Moves the player at one roster position, charging the given
    /// flat cost.
    fn move_at(&mut self, pi: usize, to_node_id: u8, cost: i16)
        requires
            (pi as int) < old(self)@.players.len(),
        ensures
            final(self)@ == (GameStateView {
                players: old(self)@.players.update(
                    pi as int,
                    PlayerView {
                        position_node_id: Some(to_node_id),
                        remaining_moves: spec_clamp_moves(
                            old(self)@.players[pi as int].remaining_moves - cost,
                        ),
                        ..old(self)@.players[pi as int]
                    },
                ),
                ..old(self)@
            }),
    {
        let ghost prev = self.players@;
        Self::move_player_to_node(&mut self.players[pi], to_node_id, cost);
        proof {
            assert(self@.players[pi as int] == self.players@[pi as int]@);
            assert forall|k: int| 0 <= k < prev.len() && k != pi implies
                #[trigger] self@.players[k] == old(self)@.players[k] by {
                assert(self.players@[k] == prev[k]);
                assert(old(self)@.players[k] == prev[k]@);
            }
            assert(self@.players =~= old(self)@.players.update(
                pi as int,
                PlayerView {
                    position_node_id: Some(to_node_id),
                    remaining_moves: spec_clamp_moves(
                        old(self)@.players[pi as int].remaining_moves - cost,
                    ),
                    ..old(self)@.players[pi as int]
                },
            ));
        }
    }

    /// Moves the player at one roster position, setting the new
    /// movement budget directly.
    fn apply_move_at(&mut self, pi: usize, to_node_id: u8, new_remaining: i16)
        requires
            (pi as int) < old(self)@.players.len(),
        ensures
            final(self)@ == (GameStateView {
                players: old(self)@.players.update(
                    pi as int,
                    PlayerView {
                        position_node_id: Some(to_node_id),
                        remaining_moves: new_remaining,
                        ..old(self)@.players[pi as int]
                    },
                ),
                ..old(self)@
            }),
    {
        let ghost prev = self.players@;
        self.players[pi].position_node_id = Some(to_node_id);
        self.players[pi].remaining_moves = new_remaining;
        proof {
            assert(self@.players[pi as int] == self.players@[pi as int]@);
            assert forall|k: int| 0 <= k < prev.len() && k != pi implies
                #[trigger] self@.players[k] == old(self)@.players[k] by {
                assert(self.players@[k] == prev[k]);
                assert(old(self)@.players[k] == prev[k]@);
            }
            assert(self@.players =~= old(self)@.players.update(
                pi as int,
                PlayerView {
                    position_node_id: Some(to_node_id),
                    remaining_moves: new_remaining,
                    ..old(self)@.players[pi as int]
                },
            ));
        }
    }

    /// Moves the player with the given identifier one edge along the
    /// map, enforcing adjacency, blockage and vehicle-mode mechanics
    /// and charging the movement cost; on any failure the game is left
    /// unchanged.
    #[verifier::spinoff_prover]
    #[verifier::rlimit(100)]
    pub fn move_player_with_id(&mut self, player_id: i32, to_node_id: u8) -> (r: Result<
        (),
        String,
    >)
        ensures
            r is Ok <==> spec_move_ok(old(self)@, player_id, to_node_id),
            r is Ok ==> final(self)@ == spec_moved_state(old(self)@, player_id, to_node_id),
            r is Err ==> final(self)@ == old(self)@,
    {
        let ghost g = self@;
        let pi = match self.find_player_index(player_id) {
            Some(i) => i,
            None => {
                return Err(
                    "There were no players in this game that match the player to update".to_owned(),
                );
            },
        };
        let current_node_id = match self.players[pi].position_node_id {
            Some(id) => id,
            None => {
                return Err("The player is not at any node!".to_owned());
            },
        };
        let current_node = match self.map.get_node_by_id(current_node_id) {
            Ok(n) => n,
            Err(e) => {
                return Err(e);
            },
        };
        let to_node = match self.map.get_node_by_id(to_node_id) {
            Ok(n) => n,
            Err(e) => {
                return Err(e);
            },
        };
        if (current_node_id as usize) >= self.map.edges.len() {
            return Err("There was no adjacency list for the player's position".to_owned());
        }
        let list = &self.map.edges[current_node_id as usize];
        proof {
            assert(list@ == g.map.edges[current_node_id as int]);
        }
        let ei = match Self::find_edge_index(list, to_node_id) {
            Some(e) => e,
            None => {
                return Err(
                    "The node you are trying to go to is not a neighbour of your position".to_owned(),
                );
            },
        };
        let neighbour_relationship = self.map.edges[current_node_id as usize][ei];
        proof {
            assert(neighbour_relationship == spec_move_edge(g, player_id, to_node_id));
        }
        if neighbour_relationship.blocked {
            return Err(
                "The road to the given node has blocked traffic in that direction".to_owned(),
            );
        }
        if to_node.is_connected_to_rail && current_node.is_connected_to_rail {
            if neighbour_relationship.is_connected_through_rail {
                self.move_at(pi, to_node_id, 1);
                proof {
                    assert(final(self)@.players =~= spec_moved_state(g, player_id, to_node_id).players);
                }
                return Ok(());
            }
            return Err(
                "The node you are trying to go to is not a neighbouring train station, so you cannot move to it as a train".to_owned(),
            );
        }
        if self.players[pi].is_bus {
            let edge_restriction = match neighbour_relationship.restriction {
                Some(r) => r,
                None => {
                    return Err(
                        "The road to the given node has no restriction, so you cannot move there as a bus".to_owned(),
                    );
                },
            };
            if edge_restriction != RestrictionType::ParkAndRide {
                return Err(
                    "The road to the given node is not a park & ride road, so you cannot move there as a bus".to_owned(),
                );
            }
            self.move_at(pi, to_node_id, 1);
            proof {
                assert(final(self)@.players =~= spec_moved_state(g, player_id, to_node_id).players);
            }
            return Ok(());
        }
        if let Some(restriction) = neighbour_relationship.restriction {
            if restriction == RestrictionType::ParkAndRide {
                return Err(
                    "The road to the given node is a park & ride road, so you cannot move there unless you are a bus".to_owned(),
                );
            }
            self.move_at(pi, to_node_id, 1);
            proof {
                assert(final(self)@.players =~= spec_moved_state(g, player_id, to_node_id).players);
            }
            return Ok(());
        }
        self.move_into_district(pi, ei, current_node_id, to_node_id, Ghost(player_id))
    }

    /// The district leg of a movement: charges the entry cost and
    /// grants modifier bonuses on first entering a district this turn,
    /// or the edge's own cost on later moves within it.
    #[verifier::spinoff_prover]
    #[verifier::rlimit(100)]
    fn move_into_district(
        &mut self,
        pi: usize,
        ei: usize,
        current_node_id: u8,
        to_node_id: u8,
        player_id: Ghost<i32>,
    ) -> (r: Result<(), String>)
        requires
            spec_has_player(old(self)@.players, player_id@),
            (pi as int) == spec_player_idx(old(self)@.players, player_id@),
            (pi as int) < old(self)@.players.len(),
            old(self)@.players[pi as int].position_node_id == Some(current_node_id),
            spec_has_node(old(self)@.map.nodes, current_node_id),
            spec_has_node(old(self)@.map.nodes, to_node_id),
            (current_node_id as int) < old(self)@.map.edges.len(),
            spec_list_has_edge(old(self)@.map.edges[current_node_id as int], to_node_id),
            (ei as int) == spec_list_edge_idx(
                old(self)@.map.edges[current_node_id as int],
                to_node_id,
            ),
            (ei as int) < old(self)@.map.edges[current_node_id as int].len(),
            !old(self)@.map.edges[current_node_id as int][ei as int].blocked,
            !spec_move_rail(old(self)@, player_id@, to_node_id),
            !old(self)@.players[pi as int].is_bus,
            old(self)@.map.edges[current_node_id as int][ei as int].restriction is None,
        ensures
            r is Ok <==> spec_move_ok(old(self)@, player_id@, to_node_id),
            r is Ok ==> final(self)@ == spec_moved_state(old(self)@, player_id@, to_node_id),
            r is Err ==> final(self)@ == old(self)@,
    {
        let ghost g = self@;
        let neighbour_relationship = self.map.edges[current_node_id as usize][ei];
        proof {
            assert(neighbour_relationship == spec_move_edge(g, player_id@, to_node_id));
        }
        let district = neighbour_relationship.neighbourhood;
        if !districts_contain(&self.accessed_districts, district) {
            let entry_cost = match self.map.first_time_in_district_cost(neighbour_relationship) {
                Ok(cost) => cost,
                Err(e) => {
                    return Err(e);
                },
            };
            let bonus: i16;
            if self.players[pi].objective_card.is_some() {
                bonus = match self.compute_bonus(pi, district) {
                    Ok(b) => b,
                    Err(e) => {
                        return Err(e);
                    },
                };
            } else {
                bonus = 0;
            }
            let new_remaining = clamp_moves(
                self.players[pi].remaining_moves as i32 - entry_cost as i32 + bonus as i32,
            );
            self.accessed_districts.push(district);
            self.apply_move_at(pi, to_node_id, new_remaining);
            proof {
                assert(final(self)@.players =~= spec_moved_state(g, player_id@, to_node_id).players);
                assert(final(self)@.accessed_districts =~= spec_moved_state(
                    g,
                    player_id@,
                    to_node_id,
                ).accessed_districts);
            }
            return Ok(());
        }
        let new_remaining = clamp_moves(
            self.players[pi].remaining_moves as i32 - neighbour_relationship.movement_cost as i32,
        );
        self.apply_move_at(pi, to_node_id, new_remaining);
        proof {
            assert(final(self)@.players =~= spec_moved_state(g, player_id@, to_node_id).players);
        }
        Ok(())
    }

    /// The largest movement bonus the active modifiers grant the
    /// player at one roster position for entering the district; an
    /// error where a non-toll modifier names no vehicle type.
    fn compute_bonus(&self, pi: usize, district: District) -> (r: Result<i16, String>)
        requires
            (pi as int) < self@.players.len(),
            self@.players[pi as int].objective_card is Some,
        ensures
            r is Ok <==> spec_mods_have_vehicle(self@.district_modifiers),
            r is Ok ==> r->Ok_0 == spec_bonus(
                self@.map,
                self@.district_modifiers,
                self@.players[pi as int].objective_card->0,
                district,
            ),
    {
        let ghost g = self@;
        let mut bonus: i16 = 0;
        let n_mods = self.district_modifiers.len();
        let mut m: usize = 0;
        while m < n_mods
            invariant
                m <= n_mods,
                n_mods == self.district_modifiers.len(),
                bonus == spec_bonus_upto(
                    g.map,
                    g.district_modifiers,
                    g.players[pi as int].objective_card->0,
                    district,
                    m as int,
                ),
                forall|k: int|
                    0 <= k < m ==> !((#[trigger] g.district_modifiers[k]).modifier
                        != DistrictModifierType::Toll && g.district_modifiers[k].vehicle_type
                        is None),
            decreases n_mods - m,
        {
            let md = self.district_modifiers[m];
            if md.modifier == DistrictModifierType::Toll {
                m = m + 1;
                continue;
            }
            let vt = match md.vehicle_type {
                Some(v) => v,
                None => {
                    proof {
                        assert(g.district_modifiers[m as int].modifier
                            != DistrictModifierType::Toll && g.district_modifiers[
                            m as int
                        ].vehicle_type is None);
                    }
                    return Err(
                        "The vehicle type can not be determined, and bonus moves can not be applied".to_owned(),
                    );
                },
            };
            if md.district != district {
                m = m + 1;
                continue;
            }
            let has_objective = Self::player_has_objective_in_district(
                &self.map,
                &self.players[pi],
                md.district,
            );
            let card_allows = match &self.players[pi].objective_card {
                Some(c) => c.requires_vehicle(vt),
                None => false,
            };
            let qualifies = (vt == RestrictionType::Destination && has_objective) || card_allows;
            if qualifies {
                if let Some(movement_value) = md.associated_movement_value {
                    if movement_value > bonus {
                        bonus = movement_value;
                    }
                }
            }
            m = m + 1;
        }
        Ok(bonus)
    }

    /// Whether some player of the roster holds the given seat.
    fn has_role(&self, role: InGameID) -> (r: bool)
        ensures
            r == spec_role_occupied(self@.players, role),
    {
        let mut i: usize = 0;
        while i < self.players.len()
            invariant
                i <= self.players.len(),
                forall|k: int| 0 <= k < i ==> (#[trigger] self@.players[k]).in_game_id != role,
            decreases self.players.len() - i,
        {
            if self.players[i].in_game_id == role {
                proof {
                    assert(self@.players[i as int].in_game_id == role);
                }
                return true;
            }
            i = i + 1;
        }
        false
    }

    /// Makes the player at one roster position the orchestrator and
    /// takes the mission away from that seat.
    fn make_orchestrator_at(&mut self, j: usize)
        requires
            (j as int) < old(self)@.players.len(),
        ensures
            final(self)@ == (GameStateView {
                players: old(self)@.players.update(
                    j as int,
                    PlayerView {
                        in_game_id: InGameID::Orchestrator,
                        objective_card: None,
                        ..old(self)@.players[j as int]
                    },
                ),
                ..old(self)@
            }),
    {
        let ghost prev = self.players@;
        self.players[j].in_game_id = InGameID::Orchestrator;
        self.players[j].objective_card = None;
        proof {
            assert(self@.players[j as int] == self.players@[j as int]@);
            assert forall|k: int| 0 <= k < prev.len() && k != j implies
                #[trigger] self@.players[k] == old(self)@.players[k] by {
                assert(self.players@[k] == prev[k]);
                assert(old(self)@.players[k] == prev[k]@);
            }
            assert(self@.players =~= old(self)@.players.update(
                j as int,
                PlayerView {
                    in_game_id: InGameID::Orchestrator,
                    objective_card: None,
                    ..old(self)@.players[j as int]
                },
            ));
        }
    }

    /// Drops every player holding the given identifier from the
    /// roster; if the orchestrator left and players remain, the first
    /// of them takes the orchestrator seat and loses any mission.
    pub fn remove_player_with_id(&mut self, player_id: i32)
        ensures
            final(self)@ == (GameStateView { players: final(self)@.players, ..old(self)@ }),
            ({
                let kept = spec_remove_player(old(self)@.players, player_id);
                final(self)@.players == if spec_role_occupied(kept, InGameID::Orchestrator)
                    || kept.len() == 0 {
                    kept
                } else {
                    kept.update(
                        0,
                        PlayerView {
                            in_game_id: InGameID::Orchestrator,
                            objective_card: None,
                            ..kept[0]
                        },
                    )
                }
            }),
    {
        let ghost g = self@;
        let mut kept: Vec<Player> = Vec::new();
        let mut i: usize = 0;
        while i < self.players.len()
            invariant
                i <= self.players.len(),
                self@ == g,
                kept@.map_values(|p: Player| p@) == spec_remove_player(
                    g.players.subrange(0, i as int),
                    player_id,
                ),
            decreases self.players.len() - i,
        {
            proof {
                assert(g.players.subrange(0, i + 1).drop_last() =~= g.players.subrange(0, i as int));
                assert(g.players.subrange(0, i + 1).last() == g.players[i as int]);
            }
            if self.players[i].unique_id != player_id {
                let ghost kv = kept@.map_values(|p: Player| p@);
                kept.push(self.players[i].duplicate());
                proof {
                    assert(kept@.map_values(|p: Player| p@) =~= kv.push(g.players[i as int]));
                }
            }
            i = i + 1;
        }
        proof {
            assert(g.players.subrange(0, g.players.len() as int) =~= g.players);
        }
        self.players = kept;
        let has_orchestrator = self.has_role(InGameID::Orchestrator);
        if !has_orchestrator && self.players.len() > 0 {
            self.make_orchestrator_at(0);
        }
    }

    /// Hands the turn to the next seat that a player holds, clears the
    /// districts visited this turn, and flags a round boundary as
    /// lobby mode whenever the rotation stepped onto the orchestrator.
    pub fn next_player_turn(&mut self)
        ensures
            final(self)@ == (GameStateView {
                current_players_turn: spec_rotate(
                    old(self)@.players,
                    spec_in_game_id_next(old(self)@.current_players_turn),
                    false,
                    0,
                ).0,
                is_lobby: old(self)@.is_lobby || spec_rotate(
                    old(self)@.players,
                    spec_in_game_id_next(old(self)@.current_players_turn),
                    false,
                    0,
                ).1,
                accessed_districts: Seq::empty(),
                ..old(self)@
            }),
    {
        let ghost g = self@;
        let ghost target = spec_rotate(
            g.players,
            spec_in_game_id_next(g.current_players_turn),
            false,
            0,
        );
        let mut next_player_turn = self.current_players_turn.next();
        let mut lobby_flag: bool = false;
        let mut counter: usize = 0;
        #[verifier::loop_isolation(true)]
        loop
            invariant_except_break
                self@ == g,
                counter <= 1000,
                spec_rotate(g.players, next_player_turn, lobby_flag, counter as int) == target,
            ensures
                self@ == g,
                next_player_turn == target.0,
                lobby_flag == target.1,
            decreases 1000 - counter,
        {
            let occupied = self.has_role(next_player_turn);
            if occupied {
                break;
            }
            next_player_turn = next_player_turn.next();
            if next_player_turn == InGameID::Orchestrator {
                lobby_flag = true;
            }
            if counter >= 1000 {
                next_player_turn = InGameID::Orchestrator;
                break;
            }
            counter = counter + 1;
        }
        self.accessed_districts.clear();
        self.current_players_turn = next_player_turn;
        if lobby_flag {
            self.is_lobby = true;
        }
        proof {
            assert(final(self)@.accessed_districts =~= Seq::<District>::empty());
        }
    }

    /// Rewrites the mission flags of the player at one roster
    /// position: standing on the pickup node picks the cargo up, and
    /// standing on the drop-off node with the cargo delivers it.
    fn update_objective_at(&mut self, i: usize)
        requires
            (i as int) < old(self)@.players.len(),
            old(self)@.players[i as int].position_node_id is Some,
            old(self)@.players[i as int].objective_card is Some,
        ensures
            final(self)@ == (GameStateView {
                players: old(self)@.players.update(
                    i as int,
                    spec_objective_updated(old(self)@.players[i as int]),
                ),
                ..old(self)@
            }),
    {
        let ghost prev = self.players@;
        let pos = match self.players[i].position_node_id {
            Some(p) => p,
            None => {
                proof {
                    assert(false);
                }
                0
            },
        };
        let mut card = match &self.players[i].objective_card {
            Some(c) => c.duplicate(),
            None => {
                proof {
                    assert(false);
                }
                unreached()
            },
        };
        if pos == card.pick_up_node_id {
            card.picked_package_up = true;
        }
        if pos == card.drop_off_node_id && card.picked_package_up {
            card.dropped_package_off = true;
        }
        self.players[i].objective_card = Some(card);
        proof {
            assert(self@.players[i as int] == self.players@[i as int]@);
            assert forall|k: int| 0 <= k < prev.len() && k != i implies
                #[trigger] self@.players[k] == old(self)@.players[k] by {
                assert(self.players@[k] == prev[k]);
                assert(old(self)@.players[k] == prev[k]@);
            }
            assert(self@.players =~= old(self)@.players.update(
                i as int,
                spec_objective_updated(old(self)@.players[i as int]),
            ));
        }
    }

    /// Flips pickup and delivery flags for every seated player whose
    /// position matches the mission's nodes; an error if a non-
    /// orchestrator player lacks a position or a mission, in which
    /// case nothing changes.
    pub fn update_objective_status(&mut self) -> (r: Result<(), String>)
        ensures
            r is Ok <==> (forall|k: int|
                0 <= k < old(self)@.players.len() && (#[trigger] old(self)@.players[k]).in_game_id
                    != InGameID::Orchestrator ==> old(self)@.players[k].position_node_id is Some
                    && old(self)@.players[k].objective_card is Some),
            r is Ok ==> final(self)@ == (GameStateView {
                players: final(self)@.players,
                ..old(self)@
            }) && final(self)@.players.len() == old(self)@.players.len() && (forall|k: int|
                0 <= k < old(self)@.players.len()
                    ==> #[trigger] final(self)@.players[k]
                        == if old(self)@.players[k].in_game_id == InGameID::Orchestrator {
                            old(self)@.players[k]
                        } else {
                            spec_objective_updated(old(self)@.players[k])
                        }),
            r is Err ==> final(self)@ == old(self)@,
    {
        let n = self.players.len();
        let mut i: usize = 0;
        while i < n
            invariant
                i <= n,
                n == self.players.len(),
                self@ == old(self)@,
                forall|k: int|
                    0 <= k < i && (#[trigger] self@.players[k]).in_game_id
                        != InGameID::Orchestrator ==> self@.players[k].position_node_id is Some
                        && self@.players[k].objective_card is Some,
            decreases n - i,
        {
            if !(self.players[i].in_game_id == InGameID::Orchestrator) {
                if self.players[i].position_node_id.is_none() {
                    proof {
                        assert(self@.players[i as int].in_game_id != InGameID::Orchestrator
                            && self@.players[i as int].position_node_id is None);
                    }
                    return Err("The player did not have a position on the gameboard!".to_owned());
                }
                if self.players[i].objective_card.is_none() {
                    proof {
                        assert(self@.players[i as int].in_game_id != InGameID::Orchestrator
                            && self@.players[i as int].objective_card is None);
                    }
                    return Err("The player did not have an objective card!".to_owned());
                }
            }
            i = i + 1;
        }
        let mut j: usize = 0;
        while j < n
            invariant
                j <= n,
                n == self.players.len(),
                self@ == (GameStateView { players: self@.players, ..old(self)@ }),
                self@.players.len() == old(self)@.players.len(),
                forall|k: int|
                    0 <= k < old(self)@.players.len() && (#[trigger] old(self)@.players[
                        k
                    ]).in_game_id != InGameID::Orchestrator
                        ==> old(self)@.players[k].position_node_id is Some && old(self)@.players[k].objective_card is Some,
                forall|k: int|
                    0 <= k < j ==> #[trigger] self@.players[k]
                        == if old(self)@.players[k].in_game_id == InGameID::Orchestrator {
                            old(self)@.players[k]
                        } else {
                            spec_objective_updated(old(self)@.players[k])
                        },
                forall|k: int|
                    j <= k < n ==> #[trigger] self@.players[k] == old(self)@.players[k],
            decreases n - j,
        {
            if !(self.players[j].in_game_id == InGameID::Orchestrator) {
                self.update_objective_at(j);
            }
            proof {
                assert(self@.players.len() == self.players@.len());
                assert(self.players@.len() == self.players.len());
            }
            j = j + 1;
        }
        Ok(())
    }

    /// Puts the player at one roster position at the start node of a
    /// mission card and hands the card over.
    fn assign_card_at(&mut self, i: usize, card: PlayerObjectiveCard)
        requires
            (i as int) < old(self)@.players.len(),
        ensures
            final(self)@ == (GameStateView {
                players: old(self)@.players.update(
                    i as int,
                    PlayerView {
                        position_node_id: Some(card@.start_node_id),
                        objective_card: Some(card@),
                        ..old(self)@.players[i as int]
                    },
                ),
                ..old(self)@
            }),
    {
        let ghost prev = self.players@;
        let start = card.start_node_id;
        self.players[i].position_node_id = Some(start);
        self.players[i].objective_card = Some(card);
        proof {
            assert(self@.players[i as int] == self.players@[i as int]@);
            assert forall|k: int| 0 <= k < prev.len() && k != i implies
                #[trigger] self@.players[k] == old(self)@.players[k] by {
                assert(self.players@[k] == prev[k]);
                assert(old(self)@.players[k] == prev[k]@);
            }
            assert(self@.players =~= old(self)@.players.update(
                i as int,
                PlayerView {
                    position_node_id: Some(card@.start_node_id),
                    objective_card: Some(card@),
                    ..old(self)@.players[i as int]
                },
            ));
        }
    }

    /// Deals every non-orchestrator player a randomly drawn mission
    /// from the scenario's pool and puts them at its start node; an
    /// error if there is no scenario or the pool is too small, in
    /// which case nothing changes.
    pub fn assign_random_objective_card_to_players(&mut self) -> (r: Result<(), String>)
        ensures
            r is Ok <==> old(self)@.situation_card is Some && spec_non_orchestrator_count(
                old(self)@.players,
            ) <= old(self)@.situation_card->0.objective_cards.len(),
            r is Ok ==> spec_cards_assigned(old(self)@, final(self)@),
            r is Err ==> final(self)@ == old(self)@,
    {
        let ghost g = self@;
        let mut objective_cards: Vec<PlayerObjectiveCard> = Vec::new();
        match &self.situation_card {
            Some(pool_source) => {
                let mut ci: usize = 0;
                while ci < pool_source.objective_cards.len()
                    invariant
                        ci <= pool_source.objective_cards.len(),
                        g.situation_card is Some,
                        pool_source@ == g.situation_card->0,
                        objective_cards@.len() == ci,
                        forall|k: int|
                            0 <= k < ci ==> #[trigger] objective_cards@[k]@
                                == g.situation_card->0.objective_cards[k],
                    decreases pool_source.objective_cards.len() - ci,
                {
                    objective_cards.push(pool_source.objective_cards[ci].duplicate());
                    ci = ci + 1;
                }
            },
            None => {
                return Err(
                    "The game does not have a situation card and can therefore not assign objective cards to the players!".to_owned(),
                );
            },
        }
        let n = self.players.len();
        let mut remaining: usize = 0;
        let mut pc: usize = 0;
        while pc < n
            invariant
                pc <= n,
                n == self.players.len(),
                self@ == g,
                remaining <= pc,
                remaining + spec_non_orchestrator_count_from(g.players, pc as int)
                    == spec_non_orchestrator_count(g.players),
            decreases n - pc,
        {
            proof {
                assert(self@.players[pc as int] == g.players[pc as int]);
            }
            if !(self.players[pc].in_game_id == InGameID::Orchestrator) {
                remaining = remaining + 1;
            }
            pc = pc + 1;
        }
        if remaining > objective_cards.len() {
            return Err("There were not enough objective cards for all the players!".to_owned());
        }
        let ghost pool0 = g.situation_card->0.objective_cards;
        proof {
            assert forall|k: int| 0 <= k < objective_cards@.len() implies pool0.contains(
                #[trigger] objective_cards@[k]@,
            ) by {
                assert(pool0[k] == objective_cards@[k]@);
            }
        }
        let mut i: usize = 0;
        while i < n
            invariant
                i <= n,
                n == old(self)@.players.len(),
                n == self@.players.len(),
                self@ == (GameStateView { players: self@.players, ..g }),
                (objective_cards@.len() as int) >= spec_non_orchestrator_count_from(
                    g.players,
                    i as int,
                ),
                forall|k: int|
                    0 <= k < objective_cards@.len() ==> pool0.contains(
                        #[trigger] objective_cards@[k]@,
                    ),
                forall|k: int|
                    #![trigger self@.players[k]]
                    0 <= k < i ==> if g.players[k].in_game_id == InGameID::Orchestrator {
                        self@.players[k] == g.players[k]
                    } else {
                        &&& self@.players[k].objective_card is Some
                        &&& pool0.contains(self@.players[k].objective_card->0)
                        &&& self@.players[k] == (PlayerView {
                            position_node_id: Some(
                                self@.players[k].objective_card->0.start_node_id,
                            ),
                            objective_card: self@.players[k].objective_card,
                            ..g.players[k]
                        })
                    },
                forall|k: int| i <= k < n ==> #[trigger] self@.players[k] == g.players[k],
            decreases n - i,
        {
            proof {
                assert(self@.players[i as int] == g.players[i as int]);
            }
            if !(self.players[i].in_game_id == InGameID::Orchestrator) {
                proof {
                    lemma_non_orchestrator_count_from_nonneg(g.players, i as int + 1);
                    assert(spec_non_orchestrator_count_from(g.players, i as int) == 1
                        + spec_non_orchestrator_count_from(g.players, i as int + 1));
                }
                let index = crate::random::random_index_below(objective_cards.len());
                let ghost pool_before = objective_cards@;
                let objective_card = objective_cards.remove(index);
                let ghost cv = objective_card@;
                self.assign_card_at(i, objective_card);
                proof {
                    assert(pool0.contains(cv)) by {
                        assert(pool_before[index as int]@ == cv);
                    }
                    assert forall|k: int| 0 <= k < objective_cards@.len() implies pool0.contains(
                        #[trigger] objective_cards@[k]@,
                    ) by {
                        assert(objective_cards@[k] == pool_before.remove(index as int)[k]);
                        if k < index {
                            assert(objective_cards@[k] == pool_before[k]);
                        } else {
                            assert(objective_cards@[k] == pool_before[k + 1]);
                        }
                    }
                    assert(self@.players[i as int] == (PlayerView {
                        position_node_id: Some(cv.start_node_id),
                        objective_card: Some(cv),
                        ..g.players[i as int]
                    }));
                }
            }
            i = i + 1;
        }
        proof {
            assert(spec_cards_assigned(old(self)@, self@));
        }
        Ok(())
    }

    /// How many of the active modifiers share the given kind and
    /// district.
    fn count_modifiers(&self, modifier: DistrictModifierType, district: District) -> (r: usize)
        ensures
            r == spec_modifier_count(self@.district_modifiers, modifier, district),
    {
        let mut count: usize = 0;
        let n = self.district_modifiers.len();
        let mut i: usize = 0;
        while i < n
            invariant
                i <= n,
                n == self.district_modifiers.len(),
                count <= i,
                count == spec_modifier_count_upto(
                    self@.district_modifiers,
                    modifier,
                    district,
                    i as int,
                ),
            decreases n - i,
        {
            let md = self.district_modifiers[i];
            if md.modifier == modifier && md.district == district {
                count = count + 1;
            }
            i = i + 1;
        }
        count
    }

    /// Whether every active access modifier names a vehicle type,
    /// which recomputing traffic levels needs.
    fn access_modifiers_have_vehicle(&self) -> (r: bool)
        ensures
            r == spec_access_mods_have_vehicle(self@.district_modifiers),
    {
        let n = self.district_modifiers.len();
        let mut i: usize = 0;
        while i < n
            invariant
                i <= n,
                n == self.district_modifiers.len(),
                forall|k: int|
                    0 <= k < i && (#[trigger] self@.district_modifiers[k]).modifier
                        == DistrictModifierType::Access ==> self@.district_modifiers[
                        k
                    ].vehicle_type is Some,
            decreases n - i,
        {
            let md = self.district_modifiers[i];
            if md.modifier == DistrictModifierType::Access && md.vehicle_type.is_none() {
                proof {
                    assert(self@.district_modifiers[i as int].modifier
                        == DistrictModifierType::Access && self@.district_modifiers[
                        i as int
                    ].vehicle_type is None);
                }
                return false;
            }
            i = i + 1;
        }
        true
    }

    /// Recomputes every district's traffic level by replaying the
    /// scenario's original traffic table through the active access
    /// modifiers, and pushes the fresh cost table into the map; an
    /// error if there is no scenario, its identity is not in the
    /// catalogue, or an access modifier names no vehicle type, in
    /// which case nothing changes.
    fn update_traffic_levels(&mut self) -> (r: Result<(), String>)
        ensures
            r is Ok <==> old(self)@.situation_card is Some && 1 <= old(self)@.situation_card->0.card_id <= 5 && spec_access_mods_have_vehicle(
                old(self)@.district_modifiers,
            ),
            r is Ok ==> spec_traffic_updated(old(self)@, final(self)@),
            r is Err ==> final(self)@ == old(self)@,
    {
        let ghost g = self@;
        let card_id = match &self.situation_card {
            Some(c) => c.card_id,
            None => {
                return Err(
                    "There is no situation card in this game, so the traffic levels cannot be updated".to_owned(),
                );
            },
        };
        let original_card = match crate::situation_card_list::SituationCardList::get_default_situation_card_by_id(
            card_id,
        ) {
            Ok(c) => c,
            Err(_) => {
                return Err(
                    "The situation card of the game was not found in the catalogue, so the traffic levels cannot be updated".to_owned(),
                );
            },
        };
        if !self.access_modifiers_have_vehicle() {
            return Err(
                "There was no vehicle type associated with an access modifier, so the traffic levels cannot be updated".to_owned(),
            );
        }
        let mut new_cost_tuples: Vec<CostTuple> = Vec::new();
        let n_costs = original_card.costs.len();
        let mut j: usize = 0;
        while j < n_costs
            invariant
                j <= n_costs,
                self@ == g,
                n_costs == original_card.costs.len(),
                original_card@.costs == spec_catalog_costs(g.situation_card->0.card_id as int),
                new_cost_tuples@.len() == j,
                forall|k: int|
                    0 <= k < j ==> #[trigger] new_cost_tuples@[k] == (CostTuple {
                        neighbourhood: original_card@.costs[k].neighbourhood,
                        traffic: spec_modified_traffic(
                            g.district_modifiers,
                            original_card@.costs[k],
                        ),
                    }),
            decreases n_costs - j,
        {
            let tuple = original_card.costs[j];
            let mut is_access_used = false;
            let mut times: usize = 0;
            let n_mods = self.district_modifiers.len();
            let mut m: usize = 0;
            while m < n_mods
                invariant
                    m <= n_mods,
                    self@ == g,
                    n_mods == self.district_modifiers.len(),
                    spec_access_mods_have_vehicle(g.district_modifiers),
                    is_access_used == spec_has_access_mod(
                        g.district_modifiers,
                        tuple.neighbourhood,
                        m as int,
                    ),
                    times as int == spec_min_int(
                        spec_access_sum(g.district_modifiers, tuple.neighbourhood, m as int),
                        usize::MAX as int,
                    ),
                decreases n_mods - m,
            {
                let md = self.district_modifiers[m];
                if md.district == tuple.neighbourhood && md.modifier
                    == DistrictModifierType::Access {
                    proof {
                        assert(g.district_modifiers[m as int].modifier
                            == DistrictModifierType::Access);
                    }
                    let vt = match md.vehicle_type {
                        Some(v) => v,
                        None => {
                            proof {
                                assert(false);
                            }
                            unreached()
                        },
                    };
                    is_access_used = true;
                    times = times.saturating_add(vt.times_to_increase_traffic_when_access());
                }
                m = m + 1;
            }
            let mut new_traffic = tuple.traffic;
            if is_access_used {
                new_traffic = Traffic::LevelOne;
                let steps: usize = if times == 0 {
                    0
                } else {
                    times - 1
                };
                let capped: usize = if steps > 4 {
                    4
                } else {
                    steps
                };
                let mut t: usize = 0;
                while t < capped
                    invariant
                        t <= capped,
                        capped <= 4,
                        new_traffic == spec_traffic_increased_times(Traffic::LevelOne, t as nat),
                    decreases capped - t,
                {
                    proof {
                        assert(spec_traffic_increased_times(Traffic::LevelOne, (t + 1) as nat)
                            == spec_traffic_increased(
                            spec_traffic_increased_times(Traffic::LevelOne, t as nat),
                        )) by {
                            lemma_traffic_increased_times_flip(Traffic::LevelOne, (t + 1) as nat);
                        }
                    }
                    new_traffic = new_traffic.increased();
                    t = t + 1;
                }
                proof {
                    let real_sum = spec_access_sum(
                        g.district_modifiers,
                        tuple.neighbourhood,
                        g.district_modifiers.len() as int,
                    );
                    let real_steps = if real_sum <= 0 {
                        0
                    } else {
                        real_sum - 1
                    };
                    if capped < 4 {
                        assert(new_traffic == spec_traffic_increased_times(
                            Traffic::LevelOne,
                            real_steps as nat,
                        ));
                    } else {
                        lemma_traffic_increased_times_caps(Traffic::LevelOne, capped as nat);
                        lemma_traffic_increased_times_caps(Traffic::LevelOne, real_steps as nat);
                    }
                }
            }
            proof {
                assert(new_traffic == spec_modified_traffic(g.district_modifiers, tuple));
            }
            new_cost_tuples.push(
                CostTuple { neighbourhood: tuple.neighbourhood, traffic: new_traffic },
            );
            j = j + 1;
        }
        proof {
            assert(new_cost_tuples@ =~= spec_updated_costs(
                g.district_modifiers,
                g.situation_card->0.card_id as int,
            ));
        }
        let mut situation_card = match &self.situation_card {
            Some(c) => c.duplicate(),
            None => {
                proof {
                    assert(false);
                }
                unreached()
            },
        };
        situation_card.costs = new_cost_tuples;
        self.map.update_neighbourhood_cost(&situation_card);
        self.situation_card = Some(situation_card);
        Ok(())
    }

    /// Adds a zone-wide modifier, respecting the per-kind cap for its
    /// district, and recomputes the traffic levels; on any failure
    /// nothing changes.
    pub fn add_district_modifier(&mut self, district_modifier: DistrictModifier) -> (r: Result<
        (),
        String,
    >)
        ensures
            r is Ok <==> spec_modifier_count(
                old(self)@.district_modifiers,
                district_modifier.modifier,
                district_modifier.district,
            ) < spec_max_modifier_count(district_modifier.modifier)
                && old(self)@.situation_card is Some
                && 1 <= old(self)@.situation_card->0.card_id <= 5
                && spec_access_mods_have_vehicle(
                old(self)@.district_modifiers.push(district_modifier),
            ),
            r is Ok ==> final(self)@.district_modifiers == old(self)@.district_modifiers.push(
                district_modifier,
            ) && spec_traffic_updated(
                GameStateView {
                    district_modifiers: old(self)@.district_modifiers.push(district_modifier),
                    ..old(self)@
                },
                final(self)@,
            ),
            r is Err ==> final(self)@ == old(self)@,
    {
        let max_amount: usize = match district_modifier.modifier {
            DistrictModifierType::Access => MAX_ACCESS_MODIFIER_COUNT,
            DistrictModifierType::Priority => MAX_PRIORITY_MODIFIER_COUNT,
            DistrictModifierType::Toll => MAX_TOLL_MODIFIER_COUNT,
        };
        let count = self.count_modifiers(district_modifier.modifier, district_modifier.district);
        if count >= max_amount {
            return Err(
                "Cannot add more modifiers of this kind, because the district already carries the highest allowed number of them".to_owned(),
            );
        }
        match &self.situation_card {
            Some(c) => {
                if c.card_id < 1 || c.card_id > 5 {
                    return Err(
                        "The situation card of the game was not found in the catalogue, so the traffic levels cannot be updated".to_owned(),
                    );
                }
            },
            None => {
                return Err(
                    "There is no situation card in this game, so the traffic levels cannot be updated".to_owned(),
                );
            },
        }
        if district_modifier.modifier == DistrictModifierType::Access
            && district_modifier.vehicle_type.is_none() {
            proof {
                let mods = old(self)@.district_modifiers;
                assert(mods.push(district_modifier)[mods.len() as int] == district_modifier);
            }
            return Err(
                "There was no vehicle type associated with the access modifier, so the traffic levels cannot be updated".to_owned(),
            );
        }
        if !self.access_modifiers_have_vehicle() {
            proof {
                let mods = old(self)@.district_modifiers;
                let k = choose|k: int|
                    0 <= k < mods.len() && (#[trigger] mods[k]).modifier
                        == DistrictModifierType::Access && !(mods[k].vehicle_type is Some);
                assert(mods.push(district_modifier)[k] == mods[k]);
            }
            return Err(
                "There was no vehicle type associated with an access modifier, so the traffic levels cannot be updated".to_owned(),
            );
        }
        proof {
            lemma_access_vehicle_push(old(self)@.district_modifiers, district_modifier);
        }
        self.district_modifiers.push(district_modifier);
        match self.update_traffic_levels() {
            Ok(_) => Ok(()),
            Err(e) => Err(e),
        }
    }

    /// Removes the first modifier equal to the given one, the delete
    /// flag aside, and recomputes the traffic levels; on any failure
    /// nothing changes.
    pub fn remove_district_modifier(&mut self, district_modifier: DistrictModifier) -> (r: Result<
        (),
        String,
    >)
        ensures
            ({
                let target = DistrictModifier { delete: false, ..district_modifier };
                &&& (r is Ok <==> spec_has_modifier(old(self)@.district_modifiers, target)
                    && old(self)@.situation_card is Some
                    && 1 <= old(self)@.situation_card->0.card_id <= 5
                    && spec_access_mods_have_vehicle(
                    old(self)@.district_modifiers.remove(
                        spec_modifier_idx(old(self)@.district_modifiers, target),
                    ),
                ))
                &&& (r is Ok ==> final(self)@.district_modifiers == old(self)@.district_modifiers.remove(
                    spec_modifier_idx(old(self)@.district_modifiers, target),
                ) && spec_traffic_updated(
                    GameStateView {
                        district_modifiers: old(self)@.district_modifiers.remove(
                            spec_modifier_idx(old(self)@.district_modifiers, target),
                        ),
                        ..old(self)@
                    },
                    final(self)@,
                ))
                &&& (r is Err ==> final(self)@ == old(self)@)
            }),
    {
        let mut distr_mod = district_modifier;
        distr_mod.delete = false;
        let n = self.district_modifiers.len();
        let mut i: usize = 0;
        while i < n
            invariant
                i <= n,
                self@ == old(self)@,
                n == self.district_modifiers.len(),
                distr_mod == (DistrictModifier { delete: false, ..district_modifier }),
                forall|k: int| 0 <= k < i ==> #[trigger] self@.district_modifiers[k] != distr_mod,
            decreases n - i,
        {
            if district_modifier_eq(&self.district_modifiers[i], &distr_mod) {
                proof {
                    lemma_modifier_at(self@.district_modifiers, distr_mod, i as int);
                }
                match &self.situation_card {
                    Some(c) => {
                        if c.card_id < 1 || c.card_id > 5 {
                            return Err(
                                "The situation card of the game was not found in the catalogue, so the traffic levels cannot be updated".to_owned(),
                            );
                        }
                    },
                    None => {
                        return Err(
                            "There is no situation card in this game, so the traffic levels cannot be updated".to_owned(),
                        );
                    },
                }
                self.district_modifiers.remove(i);
                if !self.access_modifiers_have_vehicle() {
                    let removed = distr_mod;
                    self.district_modifiers.insert(i, removed);
                    proof {
                        assert(self@.district_modifiers =~= old(self)@.district_modifiers);
                        assert(self@ == old(self)@);
                    }
                    return Err(
                        "There was no vehicle type associated with an access modifier, so the traffic levels cannot be updated".to_owned(),
                    );
                }
                match self.update_traffic_levels() {
                    Ok(_) => {
                        return Ok(());
                    },
                    Err(e) => {
                        return Err(e);
                    },
                }
            }
            i = i + 1;
        }
        Err("There is no modifier like the given one in the game!".to_owned())
    }

    /// Puts an edge restriction on the map and records it; on any
    /// failure nothing changes.
    pub fn add_edge_restriction(
        &mut self,
        edge_restriction: &EdgeRestriction,
        modifiable: bool,
    ) -> (r: Result<(), String>)
        ensures
            r is Ok <==> spec_has_edge(
                old(self)@.map,
                edge_restriction.node_one,
                edge_restriction.node_two,
            ) && (edge_restriction.edge_restriction == RestrictionType::OneWay || spec_has_edge(
                old(self)@.map,
                edge_restriction.node_two,
                edge_restriction.node_one,
            )),
            r is Ok ==> final(self)@ == (GameStateView {
                map: final(self)@.map,
                edge_restrictions: old(self)@.edge_restrictions.push(*edge_restriction),
                ..old(self)@
            }),
            r is Ok && edge_restriction.edge_restriction == RestrictionType::OneWay
                ==> crate::node_map::spec_restriction_set(
                old(self)@.map,
                final(self)@.map,
                edge_restriction.node_one,
                edge_restriction.node_two,
                edge_restriction.edge_restriction,
                modifiable,
            ),
            r is Ok && edge_restriction.edge_restriction != RestrictionType::OneWay
                ==> exists|mid: NodeMapView|
                crate::node_map::spec_restriction_set(
                    old(self)@.map,
                    mid,
                    edge_restriction.node_one,
                    edge_restriction.node_two,
                    edge_restriction.edge_restriction,
                    modifiable,
                ) && crate::node_map::spec_restriction_set(
                    mid,
                    final(self)@.map,
                    edge_restriction.node_two,
                    edge_restriction.node_one,
                    edge_restriction.edge_restriction,
                    modifiable,
                ),
            r is Err ==> final(self)@ == old(self)@,
    {
        match self.map.set_restriction_on_edge(edge_restriction, modifiable) {
            Ok(_) => (),
            Err(e) => {
                return Err(e);
            },
        }
        self.edge_restrictions.push(*edge_restriction);
        Ok(())
    }

    /// Removes an edge restriction from the map and from the records;
    /// on any failure nothing changes.
    pub fn remove_restriction_from_edge(
        &mut self,
        edge_restriction: &EdgeRestriction,
    ) -> (r: Result<(), String>)
        ensures
            r is Ok <==> spec_has_edge(
                old(self)@.map,
                edge_restriction.node_one,
                edge_restriction.node_two,
            ) && spec_has_edge(
                old(self)@.map,
                edge_restriction.node_two,
                edge_restriction.node_one,
            ) && crate::node_map::spec_records_modifiable(
                old(self)@.map,
                edge_restriction.node_one,
                edge_restriction.node_two,
            ) && crate::node_map::spec_records_modifiable(
                old(self)@.map,
                edge_restriction.node_two,
                edge_restriction.node_one,
            ),
            r is Ok ==> final(self)@ == (GameStateView {
                map: final(self)@.map,
                edge_restrictions: spec_retained_restrictions(
                    old(self)@.edge_restrictions,
                    edge_restriction.node_one,
                    edge_restriction.node_two,
                ),
                ..old(self)@
            }) && exists|mid: NodeMapView|
                crate::node_map::spec_restriction_removed(
                    old(self)@.map,
                    mid,
                    edge_restriction.node_one,
                    edge_restriction.node_two,
                ) && crate::node_map::spec_restriction_removed(
                    mid,
                    final(self)@.map,
                    edge_restriction.node_two,
                    edge_restriction.node_one,
                ),
            r is Err ==> final(self)@ == old(self)@,
    {
        match self.map.remove_restriction_from_edge(edge_restriction) {
            Ok(_) => (),
            Err(e) => {
                return Err(e);
            },
        }
        let n1 = edge_restriction.node_one;
        let n2 = edge_restriction.node_two;
        let ghost orig = self.edge_restrictions@;
        let mut kept: Vec<EdgeRestriction> = Vec::new();
        let mut i: usize = 0;
        while i < self.edge_restrictions.len()
            invariant
                i <= self.edge_restrictions.len(),
                self.edge_restrictions@ == orig,
                kept@ == spec_retained_restrictions(orig.subrange(0, i as int), n1, n2),
            decreases self.edge_restrictions.len() - i,
        {
            proof {
                assert(orig.subrange(0, i + 1).drop_last() =~= orig.subrange(0, i as int));
                assert(orig.subrange(0, i + 1).last() == orig[i as int]);
            }
            let e = self.edge_restrictions[i];
            if !((e.node_one == n1 && e.node_two == n2) || (e.node_one == n2 && e.node_two == n1)) {
                kept.push(e);
            }
            i = i + 1;
        }
        proof {
            assert(orig.subrange(0, orig.len() as int) =~= orig);
        }
        self.edge_restrictions = kept;
        Ok(())
    }

    /// Rebuilds the map from the default city, copies the scenario's
    /// traffic table in, and applies the scenario's structural change:
    /// the accident scenario blocks one ring-road direction and the
    /// rush-hour scenario flips two rail stations. An error if there
    /// is no scenario or its identity is unknown, in which case
    /// nothing changes.
    pub fn update_node_map_with_situation_card(&mut self) -> (r: Result<(), String>)
        ensures
            r is Ok <==> old(self)@.situation_card is Some && 1 <= old(self)@.situation_card->0.card_id <= 5,
            r is Ok ==> final(self)@ == (GameStateView {
                map: final(self)@.map,
                edge_restrictions: final(self)@.edge_restrictions,
                ..old(self)@
            }) && final(self)@.map.nodes.len() == 29 && final(self)@.map.nodes
                == crate::node_map::spec_default_map_for_card(
                old(self)@.situation_card->0.card_id as int,
            ).nodes && final(self)@.map.edges == crate::node_map::spec_default_map_for_card(
                old(self)@.situation_card->0.card_id as int,
            ).edges && (forall|d: District|
                #[trigger] spec_district_cost(final(self)@.map.neighbourhood_cost, d)
                    == crate::node_map::spec_costs_applied(
                    crate::node_map::spec_default_map().neighbourhood_cost,
                    old(self)@.situation_card->0.costs,
                    d,
                )) && final(self)@.edge_restrictions
                == if old(self)@.situation_card->0.card_id == 4 {
                old(self)@.edge_restrictions.push(
                    EdgeRestriction {
                        node_one: 19,
                        node_two: 20,
                        edge_restriction: RestrictionType::OneWay,
                        delete: false,
                    },
                )
            } else {
                old(self)@.edge_restrictions
            },
            r is Err ==> final(self)@ == old(self)@,
    {
        let card_id: u8;
        match &self.situation_card {
            Some(card) => {
                card_id = card.card_id;
            },
            None => {
                return Err(
                    "No situation card was assigned to the game, so the map costs cannot be updated".to_owned(),
                );
            },
        }
        if card_id == 0 {
            return Err("A situation card with that ID does not exist".to_owned());
        }
        if card_id > 5 {
            return Err("A situation card with that ID does not exist".to_owned());
        }
        self.map.reset();
        let card = match &self.situation_card {
            Some(card) => card,
            None => {
                proof {
                    assert(false);
                }
                unreached()
            },
        };
        self.map.update_neighbourhood_cost(card);
        let ghost after_costs = self@;
        if card_id == 4 {
            let one_way = EdgeRestriction {
                node_one: 19,
                node_two: 20,
                edge_restriction: RestrictionType::OneWay,
                delete: false,
            };
            proof {
                assert(spec_has_edge(self.map@, 19, 20));
            }
            match self.add_edge_restriction(&one_way, false) {
                Ok(_) => (),
                Err(_) => {
                    proof {
                        assert(false);
                    }
                },
            }
            proof {
                assert(self@.map.edges =~~= crate::node_map::spec_default_map_for_card(4).edges);
            }
        } else if card_id == 5 {
            proof {
                assert(self.map@.nodes[24].id == 24);
                crate::node_map::lemma_node_at(self.map@.nodes, 24, 24);
            }
            match self.map.toggle_rail_connection_on_node_with_id(24) {
                Ok(_) => (),
                Err(_) => {
                    proof {
                        assert(false);
                    }
                },
            }
            proof {
                assert(self.map@.nodes.len() == 29);
                assert(self.map@.nodes[27].id == 27);
                crate::node_map::lemma_node_at(self.map@.nodes, 27, 27);
            }
            match self.map.toggle_rail_connection_on_node_with_id(27) {
                Ok(_) => (),
                Err(_) => {
                    proof {
                        assert(false);
                    }
                },
            }
            proof {
                assert(self@.map.nodes =~= crate::node_map::spec_default_map_for_card(5).nodes);
            }
        }
        Ok(())
    }

    /// Starts the game: needs an orchestrator, at least two players,
    /// a chosen scenario, no undecided seat, and enough missions for
    /// everyone. Every player is reset, modifiers and restrictions
    /// are cleared, the map is rebuilt from the scenario, missions are
    /// dealt, and every player gets the starting movement budget. On
    /// any failure nothing changes.
    pub fn start_game(&mut self) -> (r: Result<(), String>)
        ensures
            r is Ok <==> spec_can_start(old(self)@),
            r is Ok ==> !final(self)@.is_lobby && final(self)@.district_modifiers.len() == 0
                && final(self)@.edge_restrictions
                == if old(self)@.situation_card->0.card_id == 4 {
                Seq::empty().push(
                    EdgeRestriction {
                        node_one: 19,
                        node_two: 20,
                        edge_restriction: RestrictionType::OneWay,
                        delete: false,
                    },
                )
            } else {
                Seq::empty()
            } && final(self)@.map.nodes == crate::node_map::spec_default_map_for_card(
                old(self)@.situation_card->0.card_id as int,
            ).nodes && final(self)@.map.edges == crate::node_map::spec_default_map_for_card(
                old(self)@.situation_card->0.card_id as int,
            ).edges && (forall|d: District|
                #[trigger] spec_district_cost(final(self)@.map.neighbourhood_cost, d)
                    == crate::node_map::spec_costs_applied(
                    crate::node_map::spec_default_map().neighbourhood_cost,
                    old(self)@.situation_card->0.costs,
                    d,
                )) && final(self)@.situation_card == old(self)@.situation_card && final(self)@.id == old(self)@.id && final(self)@.name == old(self)@.name && final(self)@.current_players_turn == old(self)@.current_players_turn
                && final(self)@.actions == old(self)@.actions && final(self)@.players.len() == old(self)@.players.len() && final(self)@.map.nodes.len() == 29 && (forall|k: int|
                #![trigger final(self)@.players[k]]
                0 <= k < old(self)@.players.len() ==> {
                    &&& final(self)@.players[k].unique_id == old(self)@.players[k].unique_id
                    &&& final(self)@.players[k].in_game_id == old(self)@.players[k].in_game_id
                    &&& final(self)@.players[k].name == old(self)@.players[k].name
                    &&& final(self)@.players[k].remaining_moves == START_MOVEMENT_AMOUNT
                    &&& !final(self)@.players[k].is_bus
                    &&& !final(self)@.players[k].is_train
                    &&& (old(self)@.players[k].in_game_id == InGameID::Orchestrator
                        ==> final(self)@.players[k].position_node_id is None && final(self)@.players[k].objective_card is None)
                    &&& (old(self)@.players[k].in_game_id != InGameID::Orchestrator
                        ==> final(self)@.players[k].objective_card is Some && final(self)@.players[k].position_node_id == Some(
                        final(self)@.players[k].objective_card->0.start_node_id,
                    ))
                    &&& (old(self)@.players[k].in_game_id != InGameID::Orchestrator
                        ==> exists|c: PlayerObjectiveCardView|
                        old(self)@.situation_card->0.objective_cards.contains(c) && final(self)@.players[k].objective_card == Some(
                            PlayerObjectiveCardView {
                                picked_package_up: final(self)@.players[k].objective_card->0.picked_package_up,
                                dropped_package_off: final(self)@.players[k].objective_card->0.dropped_package_off,
                                ..c
                            },
                        ))
                }),
            r is Err ==> final(self)@ == old(self)@,
    {
        if !self.has_role(InGameID::Orchestrator) {
            return Err(
                "Unable to start game because lobby does not have an orchestrator".to_owned(),
            );
        }
        if self.players.len() < 2 {
            return Err("Unable to start game because there are not enough players".to_owned());
        }
        let pool_len: usize;
        match &self.situation_card {
            Some(c) => {
                if c.card_id < 1 || c.card_id > 5 {
                    return Err("A situation card with that ID does not exist".to_owned());
                }
                pool_len = c.objective_cards.len();
            },
            None => {
                return Err(
                    "Unable to start game because a situation card is not chosen".to_owned(),
                );
            },
        }
        let n = self.players.len();
        let mut undecided_check: usize = 0;
        while undecided_check < n
            invariant
                undecided_check <= n,
                self@ == old(self)@,
                n == self.players.len(),
                forall|k: int|
                    0 <= k < undecided_check ==> (#[trigger] self@.players[k]).in_game_id
                        != InGameID::Undecided,
            decreases n - undecided_check,
        {
            if self.players[undecided_check].in_game_id == InGameID::Undecided {
                proof {
                    assert(self@.players[undecided_check as int].in_game_id
                        == InGameID::Undecided);
                }
                return Err(
                    "Unable to start game because a player is neither player nor orchestrator".to_owned(),
                );
            }
            undecided_check = undecided_check + 1;
        }
        let mut remaining: usize = 0;
        let mut pc: usize = 0;
        while pc < n
            invariant
                pc <= n,
                n == self.players.len(),
                self@ == old(self)@,
                remaining <= pc,
                remaining + spec_non_orchestrator_count_from(self@.players, pc as int)
                    == spec_non_orchestrator_count(self@.players),
            decreases n - pc,
        {
            proof {
                assert(self@.players[pc as int] == old(self)@.players[pc as int]);
            }
            if !(self.players[pc].in_game_id == InGameID::Orchestrator) {
                remaining = remaining + 1;
            }
            pc = pc + 1;
        }
        if remaining > pool_len {
            return Err("There were not enough objective cards for all the players!".to_owned());
        }
        self.reset_player_in_game_data();
        self.edge_restrictions.clear();
        self.district_modifiers.clear();
        let ghost after_reset = self@;
        match self.update_node_map_with_situation_card() {
            Ok(_) => (),
            Err(_) => {
                proof {
                    assert(false);
                }
            },
        }
        let ghost after_map = self@;
        proof {
            lemma_non_orchestrator_count_pointwise(
                old(self)@.players,
                after_map.players,
            );
        }
        match self.assign_random_objective_card_to_players() {
            Ok(_) => (),
            Err(_) => {
                proof {
                    assert(false);
                }
            },
        }
        let ghost after_assign = self@;
        match self.update_objective_status() {
            Ok(_) => (),
            Err(_) => {
                proof {
                    assert(false);
                }
            },
        }
        self.is_lobby = false;
        self.reset_player_movement_values();
        proof {
            assert forall|k: int|
                0 <= k < old(self)@.players.len() && old(self)@.players[k].in_game_id
                    != InGameID::Orchestrator implies exists|c: PlayerObjectiveCardView|
                old(self)@.situation_card->0.objective_cards.contains(c) && self@.players[
                k
            ].objective_card == Some(
                PlayerObjectiveCardView {
                    picked_package_up: self@.players[k].objective_card->0.picked_package_up,
                    dropped_package_off: self@.players[k].objective_card->0.dropped_package_off,
                    ..c
                },
            ) by {
                assert(after_map.players[k].in_game_id == old(self)@.players[k].in_game_id);
                assert(after_map.situation_card == old(self)@.situation_card);
                let cv = after_assign.players[k].objective_card->0;
                assert(old(self)@.situation_card->0.objective_cards.contains(cv));
                assert(self@.players[k].objective_card == Some(
                    PlayerObjectiveCardView {
                        picked_package_up: self@.players[k].objective_card->0.picked_package_up,
                        dropped_package_off: self@.players[
                            k
                        ].objective_card->0.dropped_package_off,
                        ..cv
                    },
                ));
            }
        }
        Ok(())
    }

    /// A copy whose mathematical value equals this game's.
    pub fn duplicate(&self) -> (r: Self)
        ensures
            r@ == self@,
    {
        let mut players: Vec<Player> = Vec::new();
        let mut i: usize = 0;
        while i < self.players.len()
            invariant
                i <= self.players.len(),
                players@.len() == i,
                forall|k: int| 0 <= k < i ==> #[trigger] players@[k]@ == self@.players[k],
            decreases self.players.len() - i,
        {
            players.push(self.players[i].duplicate());
            i = i + 1;
        }
        let mut district_modifiers: Vec<DistrictModifier> = Vec::new();
        let mut j: usize = 0;
        while j < self.district_modifiers.len()
            invariant
                j <= self.district_modifiers.len(),
                district_modifiers@ == self@.district_modifiers.subrange(0, j as int),
            decreases self.district_modifiers.len() - j,
        {
            district_modifiers.push(self.district_modifiers[j]);
            j = j + 1;
        }
        let mut actions: Vec<PlayerInput> = Vec::new();
        let mut a: usize = 0;
        while a < self.actions.len()
            invariant
                a <= self.actions.len(),
                actions@ == self@.actions.subrange(0, a as int),
            decreases self.actions.len() - a,
        {
            actions.push(self.actions[a]);
            a = a + 1;
        }
        let mut accessed_districts: Vec<District> = Vec::new();
        let mut d: usize = 0;
        while d < self.accessed_districts.len()
            invariant
                d <= self.accessed_districts.len(),
                accessed_districts@ == self@.accessed_districts.subrange(0, d as int),
            decreases self.accessed_districts.len() - d,
        {
            accessed_districts.push(self.accessed_districts[d]);
            d = d + 1;
        }
        let mut edge_restrictions: Vec<EdgeRestriction> = Vec::new();
        let mut e: usize = 0;
        while e < self.edge_restrictions.len()
            invariant
                e <= self.edge_restrictions.len(),
                edge_restrictions@ == self@.edge_restrictions.subrange(0, e as int),
            decreases self.edge_restrictions.len() - e,
        {
            edge_restrictions.push(self.edge_restrictions[e]);
            e = e + 1;
        }
        let mut legal_nodes: Vec<u8> = Vec::new();
        let mut l: usize = 0;
        while l < self.legal_nodes.len()
            invariant
                l <= self.legal_nodes.len(),
                legal_nodes@ == self@.legal_nodes.subrange(0, l as int),
            decreases self.legal_nodes.len() - l,
        {
            legal_nodes.push(self.legal_nodes[l]);
            l = l + 1;
        }
        let r = Self {
            id: self.id,
            name: self.name.clone(),
            players,
            is_lobby: self.is_lobby,
            current_players_turn: self.current_players_turn,
            district_modifiers,
            actions,
            accessed_districts,
            map: self.map.duplicate(),
            situation_card: match &self.situation_card {
                Some(c) => Some(c.duplicate()),
                None => None,
            },
            edge_restrictions,
            legal_nodes,
        };
        proof {
            assert(r@.players =~= self@.players);
            assert(r@.district_modifiers =~= self@.district_modifiers);
            assert(r@.actions =~= self@.actions);
            assert(r@.accessed_districts =~= self@.accessed_districts);
            assert(r@.edge_restrictions =~= self@.edge_restrictions);
            assert(r@.legal_nodes =~= self@.legal_nodes);
        }
        r
    }
}


/// Cost monotonicity within a turn: the first edge into a district not
/// yet visited this turn charges the entry cost — the floor of the
/// district's base cost and the edge's own cost — less any modifier
/// bonus, while a later edge within the same district charges exactly
/// the edge's own cost.
pub proof fn lemma_district_move_costs(g: GameStateView, pid: i32, to: u8)
    requires
        spec_move_ok(g, pid, to),
        !spec_move_rail(g, pid, to),
        !spec_player(g.players, pid).is_bus,
        spec_move_edge(g, pid, to).restriction is None,
    ensures
        ({
            let p = spec_player(g.players, pid);
            let edge = spec_move_edge(g, pid, to);
            let base = spec_district_cost(g.map.neighbourhood_cost, edge.neighbourhood)->0;
            let bonus: i16 = if p.objective_card is Some {
                spec_bonus(g.map, g.district_modifiers, p.objective_card->0, edge.neighbourhood)
            } else {
                0i16
            };
            if !spec_districts_contain(g.accessed_districts, edge.neighbourhood) {
                spec_move_new_remaining(g, pid, to) == spec_clamp_moves(
                    p.remaining_moves - crate::node_map::spec_entry_cost(
                        base,
                        edge.movement_cost,
                    ) + bonus,
                )
            } else {
                spec_move_new_remaining(g, pid, to) == spec_clamp_moves(
                    p.remaining_moves - edge.movement_cost,
                )
            }
        }),
{
}

} // verus!
