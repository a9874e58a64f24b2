//! The orchestration layer: owns the collection of in-progress games
//! and the registry of issued player identifiers, and runs every
//! request through garbage collection, speculative replay, rule
//! validation and commitment.
//!
//! A request either fails with the shared state unchanged beyond the
//! garbage collection, or commits exactly once.

use vstd::prelude::*;

use crate::constants::PLAYER_TIMEOUT_MILLIS;
use crate::enums::{InGameID, PlayerInputType};
use crate::enums::spec_in_game_id_next;
use crate::gamestate::{GameState, GameStateView, PlayerInput, spec_access_mods_have_vehicle,
    spec_can_start, spec_has_player, spec_has_modifier, spec_max_modifier_count,
    spec_modifier_count, spec_modifier_idx, spec_move_ok, spec_moved_state,
    spec_objective_updated, spec_player, spec_player_idx, spec_remove_player,
    spec_retained_restrictions, spec_role_occupied, spec_rotate, spec_traffic_updated,
    DistrictModifier};
use crate::node_map::{NodeMapView, spec_has_edge, spec_records_modifiable, spec_restriction_set,
    spec_restriction_removed};
use crate::player::{NewGameInfo, Player, PlayerView};
use crate::rules::{GameRuleChecker, spec_input_valid};
use crate::situation_card_list::{SituationCardList, spec_catalog_costs};

verus! {

/// The mathematical value of a [`GameController`]: the games and the
/// identifier registry. The rule engine is stateless.
pub ghost struct GameControllerView {
    pub games: Seq<GameStateView>,
    pub unique_ids: Seq<(i32, u64)>,
}

/// The server's game manager: all games, all issued identifiers, and
/// the rule engine that vets every input.
pub struct GameController {
    pub games: Vec<GameState>,
    pub unique_ids: Vec<(i32, u64)>,
    pub rule_checker: GameRuleChecker,
}

impl View for GameController {
    type V = GameControllerView;

    open spec fn view(&self) -> GameControllerView {
        GameControllerView {
            games: self.games@.map_values(|g: GameState| g@),
            unique_ids: self.unique_ids@,
        }
    }
}

/// No two registered identifiers are equal.
pub open spec fn spec_ids_distinct(ids: Seq<(i32, u64)>) -> bool {
    forall|k1: int, k2: int|
        0 <= k1 < ids.len() && 0 <= k2 < ids.len() && k1 != k2 ==> (#[trigger] ids[k1]).0 != (
        #[trigger] ids[k2]).0
}

/// Whether an identifier is registered.
pub open spec fn spec_id_registered(ids: Seq<(i32, u64)>, id: i32) -> bool {
    exists|k: int| 0 <= k < ids.len() && (#[trigger] ids[k]).0 == id
}

/// The games whose rosters are not empty, in order.
pub open spec fn spec_nonempty_games(games: Seq<GameStateView>) -> Seq<GameStateView>
    decreases games.len(),
{
    if games.len() == 0 {
        Seq::empty()
    } else {
        let rest = spec_nonempty_games(games.drop_last());
        if games.last().players.len() == 0 {
            rest
        } else {
            rest.push(games.last())
        }
    }
}

/// Whether a check-in stamp is still fresh at the given time.
pub open spec fn spec_id_live(entry: (i32, u64), now: u64) -> bool {
    now < entry.1 || now - entry.1 < PLAYER_TIMEOUT_MILLIS
}

/// The registry without the identifiers whose check-in has expired at
/// the given time.
pub open spec fn spec_live_ids(ids: Seq<(i32, u64)>, now: u64) -> Seq<(i32, u64)>
    decreases ids.len(),
{
    if ids.len() == 0 {
        Seq::empty()
    } else {
        let rest = spec_live_ids(ids.drop_last(), now);
        if spec_id_live(ids.last(), now) {
            rest.push(ids.last())
        } else {
            rest
        }
    }
}

/// The roster without the players whose identifier is not registered.
pub open spec fn spec_live_players(
    players: Seq<PlayerView>,
    ids: Seq<(i32, u64)>,
) -> Seq<PlayerView>
    decreases players.len(),
{
    if players.len() == 0 {
        Seq::empty()
    } else {
        let rest = spec_live_players(players.drop_last(), ids);
        if spec_id_registered(ids, players.last().unique_id) {
            rest.push(players.last())
        } else {
            rest
        }
    }
}

/// Every game's roster restricted to registered identifiers.
pub open spec fn spec_games_live(
    games: Seq<GameStateView>,
    ids: Seq<(i32, u64)>,
) -> Seq<GameStateView> {
    games.map_values(|g: GameStateView| GameStateView { players: spec_live_players(g.players, ids), ..g })
}

// ---------------------------------------------------------------------
// What applying one input to a game means, mathematically. Where an
// operation draws randomness the outcome is a relation, not a
// function.

/// What a committed movement leaves: the move itself, then a sweep of
/// the mission flags.
pub open spec fn spec_movement_applied(g: GameStateView, g2: GameStateView, inp: PlayerInput) -> bool {
    &&& inp.related_node_id is Some
    &&& spec_move_ok(g, inp.player_id, inp.related_node_id->0)
    &&& {
        let moved = spec_moved_state(g, inp.player_id, inp.related_node_id->0);
        &&& (forall|k: int|
            0 <= k < moved.players.len() && (#[trigger] moved.players[k]).in_game_id
                != InGameID::Orchestrator ==> moved.players[k].position_node_id is Some
                && moved.players[k].objective_card is Some)
        &&& g2 == (GameStateView { players: g2.players, ..moved })
        &&& g2.players.len() == moved.players.len()
        &&& (forall|k: int|
            0 <= k < moved.players.len() ==> #[trigger] g2.players[k]
                == if moved.players[k].in_game_id == InGameID::Orchestrator {
                    moved.players[k]
                } else {
                    spec_objective_updated(moved.players[k])
                })
    }
}

/// What a committed seat change leaves.
pub open spec fn spec_role_change_applied(
    g: GameStateView,
    g2: GameStateView,
    inp: PlayerInput,
) -> bool {
    &&& inp.related_role is Some
    &&& !(inp.related_role->0 != InGameID::Undecided && spec_role_occupied(
        g.players,
        inp.related_role->0,
    ))
    &&& spec_has_player(g.players, inp.player_id)
    &&& g2 == (GameStateView {
        players: g.players.update(
            spec_player_idx(g.players, inp.player_id),
            PlayerView { in_game_id: inp.related_role->0, ..spec_player(g.players, inp.player_id) },
        ),
        ..g
    })
}

/// What a committed game start leaves, as far as it is determined:
/// randomness picks the missions.
pub open spec fn spec_game_started(g: GameStateView, g2: GameStateView) -> bool {
    &&& spec_can_start(g)
    &&& !g2.is_lobby
    &&& g2.district_modifiers.len() == 0
    &&& g2.edge_restrictions == if g.situation_card->0.card_id == 4 {
        Seq::empty().push(
            crate::node_map::EdgeRestriction {
                node_one: 19,
                node_two: 20,
                edge_restriction: crate::enums::RestrictionType::OneWay,
                delete: false,
            },
        )
    } else {
        Seq::empty()
    }
    &&& g2.map.nodes == crate::node_map::spec_default_map_for_card(
        g.situation_card->0.card_id as int,
    ).nodes
    &&& g2.map.edges == crate::node_map::spec_default_map_for_card(
        g.situation_card->0.card_id as int,
    ).edges
    &&& (forall|d: crate::enums::District|
        #[trigger] crate::node_map::spec_district_cost(g2.map.neighbourhood_cost, d)
            == crate::node_map::spec_costs_applied(
            crate::node_map::spec_default_map().neighbourhood_cost,
            g.situation_card->0.costs,
            d,
        ))
    &&& g2.situation_card == g.situation_card
    &&& g2.id == g.id
    &&& g2.actions == g.actions
    &&& g2.players.len() == g.players.len()
    &&& forall|k: int|
        #![trigger g2.players[k]]
        0 <= k < g.players.len() ==> {
            &&& g2.players[k].unique_id == g.players[k].unique_id
            &&& g2.players[k].in_game_id == g.players[k].in_game_id
            &&& g2.players[k].remaining_moves == crate::constants::START_MOVEMENT_AMOUNT
            &&& (g.players[k].in_game_id != InGameID::Orchestrator ==> g2.players[
                k
            ].objective_card is Some && g2.players[k].position_node_id == Some(
                g2.players[k].objective_card->0.start_node_id,
            ))
        }
}

/// What assigning a catalogue scenario leaves.
pub open spec fn spec_card_assigned(g: GameStateView, g2: GameStateView, inp: PlayerInput) -> bool {
    &&& inp.situation_card_id is Some
    &&& 1 <= inp.situation_card_id->0 <= 5
    &&& g2.situation_card is Some
    &&& g2.situation_card->0.card_id == inp.situation_card_id->0
    &&& g2.situation_card->0.costs == spec_catalog_costs(inp.situation_card_id->0 as int)
    &&& g2 == (GameStateView {
        situation_card: g2.situation_card,
        map: g2.map,
        edge_restrictions: g2.edge_restrictions,
        ..g
    })
    &&& g2.map.nodes == crate::node_map::spec_default_map_for_card(
        inp.situation_card_id->0 as int,
    ).nodes
    &&& g2.map.edges == crate::node_map::spec_default_map_for_card(
        inp.situation_card_id->0 as int,
    ).edges
    &&& (forall|d: crate::enums::District|
        #[trigger] crate::node_map::spec_district_cost(g2.map.neighbourhood_cost, d)
            == crate::node_map::spec_costs_applied(
            crate::node_map::spec_default_map().neighbourhood_cost,
            g2.situation_card->0.costs,
            d,
        ))
    &&& g2.edge_restrictions == if inp.situation_card_id->0 == 4 {
        g.edge_restrictions.push(
            crate::node_map::EdgeRestriction {
                node_one: 19,
                node_two: 20,
                edge_restriction: crate::enums::RestrictionType::OneWay,
                delete: false,
            },
        )
    } else {
        g.edge_restrictions
    }
}

/// What a committed edge-restriction change leaves.
pub open spec fn spec_edge_restrictions_applied(
    g: GameStateView,
    g2: GameStateView,
    inp: PlayerInput,
) -> bool {
    &&& inp.edge_modifier is Some
    &&& {
        let em = inp.edge_modifier->0;
        if em.delete {
            &&& spec_has_edge(g.map, em.node_one, em.node_two)
            &&& spec_has_edge(g.map, em.node_two, em.node_one)
            &&& spec_records_modifiable(g.map, em.node_one, em.node_two)
            &&& spec_records_modifiable(g.map, em.node_two, em.node_one)
            &&& g2 == (GameStateView {
                map: g2.map,
                edge_restrictions: spec_retained_restrictions(
                    g.edge_restrictions,
                    em.node_one,
                    em.node_two,
                ),
                ..g
            })
            &&& exists|mid: NodeMapView|
                spec_restriction_removed(g.map, mid, em.node_one, em.node_two)
                    && spec_restriction_removed(mid, g2.map, em.node_two, em.node_one)
        } else {
            &&& spec_has_edge(g.map, em.node_one, em.node_two)
            &&& (em.edge_restriction == crate::enums::RestrictionType::OneWay || spec_has_edge(
                g.map,
                em.node_two,
                em.node_one,
            ))
            &&& g2 == (GameStateView {
                map: g2.map,
                edge_restrictions: g.edge_restrictions.push(em),
                ..g
            })
        }
    }
}

/// What a committed district-modifier change leaves.
pub open spec fn spec_district_modifier_applied(
    g: GameStateView,
    g2: GameStateView,
    inp: PlayerInput,
) -> bool {
    &&& inp.district_modifier is Some
    &&& {
        let dm = inp.district_modifier->0;
        if dm.delete {
            let target = DistrictModifier { delete: false, ..dm };
            &&& spec_has_modifier(g.district_modifiers, target)
            &&& g2.district_modifiers == g.district_modifiers.remove(
                spec_modifier_idx(g.district_modifiers, target),
            )
            &&& spec_traffic_updated(
                GameStateView { district_modifiers: g2.district_modifiers, ..g },
                g2,
            )
        } else {
            &&& g2.district_modifiers == g.district_modifiers.push(dm)
            &&& spec_traffic_updated(
                GameStateView { district_modifiers: g2.district_modifiers, ..g },
                g2,
            )
        }
    }
}

/// What a committed bus-flag change leaves.
pub open spec fn spec_bus_bool_applied(g: GameStateView, g2: GameStateView, inp: PlayerInput) -> bool {
    &&& inp.related_bool is Some
    &&& g2 == (GameStateView { players: g2.players, ..g })
    &&& g2.players.len() == g.players.len()
    &&& forall|k: int|
        0 <= k < g.players.len() ==> #[trigger] g2.players[k]
            == if g.players[k].unique_id == inp.player_id {
                PlayerView { is_bus: inp.related_bool->0, ..g.players[k] }
            } else {
                g.players[k]
            }
}

/// What a committed train-flag change leaves.
pub open spec fn spec_train_bool_applied(
    g: GameStateView,
    g2: GameStateView,
    inp: PlayerInput,
) -> bool {
    &&& inp.related_bool is Some
    &&& g2 == (GameStateView { players: g2.players, ..g })
    &&& g2.players.len() == g.players.len()
    &&& forall|k: int|
        0 <= k < g.players.len() ==> #[trigger] g2.players[k]
            == if g.players[k].unique_id == inp.player_id {
                PlayerView { is_train: inp.related_bool->0, ..g.players[k] }
            } else {
                g.players[k]
            }
}

/// What leaving a game leaves.
pub open spec fn spec_leave_applied(g: GameStateView, g2: GameStateView, inp: PlayerInput) -> bool {
    let kept = spec_remove_player(g.players, inp.player_id);
    &&& g2 == (GameStateView { players: g2.players, ..g })
    &&& g2.players == if spec_role_occupied(kept, InGameID::Orchestrator) || kept.len() == 0 {
        kept
    } else {
        kept.update(
            0,
            PlayerView { in_game_id: InGameID::Orchestrator, objective_card: None, ..kept[0] },
        )
    }
}

/// What applying one input to a game's state means, by input kind.
/// Turn-rotation and undo inputs are never applied this way.
#[verifier::opaque]
pub open spec fn spec_input_applied(g: GameStateView, g2: GameStateView, inp: PlayerInput) -> bool {
    match inp.input_type {
        PlayerInputType::Movement => spec_movement_applied(g, g2, inp),
        PlayerInputType::ChangeRole => spec_role_change_applied(g, g2, inp),
        PlayerInputType::StartGame => spec_game_started(g, g2),
        PlayerInputType::AssignSituationCard => spec_card_assigned(g, g2, inp),
        PlayerInputType::LeaveGame => spec_leave_applied(g, g2, inp),
        PlayerInputType::ModifyEdgeRestrictions => spec_edge_restrictions_applied(g, g2, inp),
        PlayerInputType::ModifyDistrict => spec_district_modifier_applied(g, g2, inp),
        PlayerInputType::SetPlayerBusBool => spec_bus_bool_applied(g, g2, inp),
        PlayerInputType::SetPlayerTrainBool => spec_train_bool_applied(g, g2, inp),
        _ => false,
    }
}

/// Whether applying one input to a game's state succeeds: the exact
/// success condition of [`spec_input_applied`], by input kind.
#[verifier::opaque]
pub open spec fn spec_input_applicable(g: GameStateView, inp: PlayerInput) -> bool {
    match inp.input_type {
        PlayerInputType::Movement => {
            &&& inp.related_node_id is Some
            &&& spec_move_ok(g, inp.player_id, inp.related_node_id->0)
            &&& {
                let moved = spec_moved_state(g, inp.player_id, inp.related_node_id->0);
                forall|k: int|
                    0 <= k < moved.players.len() && (#[trigger] moved.players[k]).in_game_id
                        != InGameID::Orchestrator ==> moved.players[k].position_node_id is Some
                        && moved.players[k].objective_card is Some
            }
        },
        PlayerInputType::ChangeRole => {
            &&& inp.related_role is Some
            &&& !(inp.related_role->0 != InGameID::Undecided && spec_role_occupied(
                g.players,
                inp.related_role->0,
            ))
            &&& spec_has_player(g.players, inp.player_id)
        },
        PlayerInputType::StartGame => spec_can_start(g),
        PlayerInputType::AssignSituationCard => inp.situation_card_id is Some && 1
            <= inp.situation_card_id->0 <= 5,
        PlayerInputType::LeaveGame => true,
        PlayerInputType::ModifyEdgeRestrictions => {
            &&& inp.edge_modifier is Some
            &&& {
                let em = inp.edge_modifier->0;
                if em.delete {
                    &&& spec_has_edge(g.map, em.node_one, em.node_two)
                    &&& spec_has_edge(g.map, em.node_two, em.node_one)
                    &&& spec_records_modifiable(g.map, em.node_one, em.node_two)
                    &&& spec_records_modifiable(g.map, em.node_two, em.node_one)
                } else {
                    &&& spec_has_edge(g.map, em.node_one, em.node_two)
                    &&& (em.edge_restriction == crate::enums::RestrictionType::OneWay
                        || spec_has_edge(g.map, em.node_two, em.node_one))
                }
            }
        },
        PlayerInputType::ModifyDistrict => {
            &&& inp.district_modifier is Some
            &&& {
                let dm = inp.district_modifier->0;
                if dm.delete {
                    let target = DistrictModifier { delete: false, ..dm };
                    &&& spec_has_modifier(g.district_modifiers, target)
                    &&& g.situation_card is Some
                    &&& 1 <= g.situation_card->0.card_id <= 5
                    &&& spec_access_mods_have_vehicle(
                        g.district_modifiers.remove(
                            spec_modifier_idx(g.district_modifiers, target),
                        ),
                    )
                } else {
                    &&& spec_modifier_count(g.district_modifiers, dm.modifier, dm.district)
                        < spec_max_modifier_count(dm.modifier)
                    &&& g.situation_card is Some
                    &&& 1 <= g.situation_card->0.card_id <= 5
                    &&& spec_access_mods_have_vehicle(g.district_modifiers.push(dm))
                }
            }
        },
        PlayerInputType::SetPlayerBusBool => inp.related_bool is Some,
        PlayerInputType::SetPlayerTrainBool => inp.related_bool is Some,
        _ => false,
    }
}

/// Whether routing one input through request handling succeeds, on a
/// game with an empty pending queue: a turn rotation always commits,
/// an undo has nothing to drop, and everything else succeeds exactly
/// when it applies.
#[verifier::opaque]
pub open spec fn spec_handle_ok(g: GameStateView, inp: PlayerInput) -> bool {
    match inp.input_type {
        PlayerInputType::NextTurn => true,
        PlayerInputType::UndoAction => g.actions.len() > 0,
        _ => spec_input_applicable(g, inp),
    }
}

/// What replaying a queue of pending inputs means: the inputs applied
/// in order, each to the outcome of the one before.
#[verifier::opaque]
pub open spec fn spec_actions_applied(
    g: GameStateView,
    g2: GameStateView,
    actions: Seq<PlayerInput>,
) -> bool
    decreases actions.len(),
{
    if actions.len() == 0 {
        g2 == g
    } else {
        exists|m: GameStateView|
            #[trigger] spec_input_applied(g, m, actions.first()) && spec_actions_applied(
                m,
                g2,
                actions.drop_first(),
            )
    }
}

/// What handling one request against a single game means: turn-scoped
/// inputs join the pending queue, a turn rotation commits the queue
/// and rotates, an undo drops the newest pending input, and structural
/// inputs apply at once.
#[verifier::opaque]
pub open spec fn spec_input_handled(g: GameStateView, g2: GameStateView, inp: PlayerInput) -> bool {
    match inp.input_type {
        PlayerInputType::NextTurn => exists|m: GameStateView|
            #[trigger] spec_actions_applied(g, m, g.actions) && g2 == (GameStateView {
                actions: Seq::empty(),
                current_players_turn: spec_rotate(
                    m.players,
                    spec_in_game_id_next(m.current_players_turn),
                    false,
                    0,
                ).0,
                is_lobby: m.is_lobby || spec_rotate(
                    m.players,
                    spec_in_game_id_next(m.current_players_turn),
                    false,
                    0,
                ).1,
                accessed_districts: Seq::empty(),
                ..m
            }),
        PlayerInputType::UndoAction => g.actions.len() > 0 && g2 == (GameStateView {
            actions: g.actions.drop_last(),
            ..g
        }),
        PlayerInputType::ChangeRole => spec_input_applied(g, g2, inp),
        PlayerInputType::StartGame => spec_input_applied(g, g2, inp),
        PlayerInputType::AssignSituationCard => spec_input_applied(g, g2, inp),
        PlayerInputType::LeaveGame => spec_input_applied(g, g2, inp),
        _ => (exists|m: GameStateView, m2: GameStateView|
            spec_actions_applied(g, m, g.actions) && #[trigger] spec_input_applied(m, m2, inp))
            && g2 == (GameStateView { actions: g.actions.push(inp), ..g }),
    }
}

/// Whether an identifier is registered, executably.
fn id_is_registered(ids: &Vec<(i32, u64)>, id: i32) -> (r: bool)
    ensures
        r == spec_id_registered(ids@, id),
{
    let mut i: usize = 0;
    while i < ids.len()
        invariant
            i <= ids.len(),
            forall|k: int| 0 <= k < i ==> (#[trigger] ids@[k]).0 != id,
        decreases ids.len() - i,
    {
        if ids[i].0 == id {
            proof {
                assert(ids@[i as int].0 == id);
            }
            return true;
        }
        i = i + 1;
    }
    false
}

/// A synthetic movement request, used to probe which destinations are
/// legal.
pub open spec fn spec_synthetic_movement(player_id: i32, game_id: i32, to: u8) -> PlayerInput {
    PlayerInput {
        district_modifier: None,
        player_id,
        game_id,
        input_type: PlayerInputType::Movement,
        related_role: None,
        related_node_id: Some(to),
        situation_card_id: None,
        edge_modifier: None,
        related_bool: None,
    }
}

/// The games that are still in lobby mode, in order.
pub open spec fn spec_lobby_games(games: Seq<GameStateView>) -> Seq<GameStateView>
    decreases games.len(),
{
    if games.len() == 0 {
        Seq::empty()
    } else {
        let rest = spec_lobby_games(games.drop_last());
        if games.last().is_lobby {
            rest.push(games.last())
        } else {
            rest
        }
    }
}

/// One game after a player leaves it: untouched when the player is
/// not in it.
pub open spec fn spec_game_without_player(g: GameStateView, pid: i32) -> GameStateView {
    if spec_has_player(g.players, pid) {
        let kept = spec_remove_player(g.players, pid);
        GameStateView {
            players: if spec_role_occupied(kept, InGameID::Orchestrator) || kept.len() == 0 {
                kept
            } else {
                kept.update(
                    0,
                    PlayerView {
                        in_game_id: InGameID::Orchestrator,
                        objective_card: None,
                        ..kept[0]
                    },
                )
            },
            ..g
        }
    } else {
        g
    }
}

#[verifier::spinoff_prover]
#[verifier::rlimit(60)]
proof fn lemma_actions_applied_snoc(
    g0: GameStateView,
    g1: GameStateView,
    g2: GameStateView,
    pre: Seq<PlayerInput>,
    a: PlayerInput,
)
    requires
        spec_actions_applied(g0, g1, pre),
        spec_input_applied(g1, g2, a),
    ensures
        spec_actions_applied(g0, g2, pre.push(a)),
    decreases pre.len(),
{
    reveal(spec_actions_applied);
    if pre.len() == 0 {
        assert(g1 == g0);
        assert(pre.push(a).first() == a);
        assert(pre.push(a).drop_first() =~= Seq::<PlayerInput>::empty());
        assert(spec_input_applied(g0, g2, pre.push(a).first()));
        assert(spec_actions_applied(g2, g2, pre.push(a).drop_first()));
    } else {
        let m = choose|m: GameStateView|
            #[trigger] spec_input_applied(g0, m, pre.first()) && spec_actions_applied(
                m,
                g1,
                pre.drop_first(),
            );
        lemma_actions_applied_snoc(m, g1, g2, pre.drop_first(), a);
        assert(pre.push(a).first() == pre.first());
        assert(pre.push(a).drop_first() =~= pre.drop_first().push(a));
        assert(spec_input_applied(g0, m, pre.push(a).first()));
    }
}

impl GameController {
    /// A controller with no games and no issued identifiers, vetting
    /// inputs through the given rule engine.
    pub fn new(rule_checker: GameRuleChecker) -> (r: Self)
        ensures
            r@.games.len() == 0,
            r@.unique_ids.len() == 0,
    {
        Self { games: Vec::new(), unique_ids: Vec::new(), rule_checker }
    }

    /// Drops every game whose roster is empty.
    fn remove_empty_games(&mut self)
        ensures
            final(self)@ == (GameControllerView {
                games: spec_nonempty_games(old(self)@.games),
                ..old(self)@
            }),
    {
        let ghost g0 = self@;
        let mut kept: Vec<GameState> = Vec::new();
        let mut i: usize = 0;
        while i < self.games.len()
            invariant
                i <= self.games.len(),
                self@ == g0,
                kept@.map_values(|g: GameState| g@) == spec_nonempty_games(
                    g0.games.subrange(0, i as int),
                ),
            decreases self.games.len() - i,
        {
            proof {
                assert(g0.games.subrange(0, i + 1).drop_last() =~= g0.games.subrange(0, i as int));
                assert(g0.games.subrange(0, i + 1).last() == g0.games[i as int]);
            }
            if self.games[i].players.len() > 0 {
                let ghost kv = kept@.map_values(|g: GameState| g@);
                kept.push(self.games[i].duplicate());
                proof {
                    assert(kept@.map_values(|g: GameState| g@) =~= kv.push(g0.games[i as int]));
                }
            }
            i = i + 1;
        }
        proof {
            assert(g0.games.subrange(0, g0.games.len() as int) =~= g0.games);
        }
        self.games = kept;
    }

    /// Purges identifiers whose check-in has expired, and removes the
    /// players holding them from every game.
    fn remove_inactive_ids(&mut self)
        ensures
            exists|now: u64|
                final(self)@.unique_ids == spec_live_ids(old(self)@.unique_ids, now),
            final(self)@.games.len() == old(self)@.games.len(),
            forall|j: int|
                0 <= j < old(self)@.games.len() ==> #[trigger] final(self)@.games[j]
                    == (GameStateView {
                    players: spec_live_players(old(self)@.games[j].players, final(self)@.unique_ids),
                    ..old(self)@.games[j]
                }),
            spec_ids_distinct(old(self)@.unique_ids) ==> spec_ids_distinct(
                final(self)@.unique_ids,
            ),
    {
        let ghost g0 = self@;
        let now = crate::clock::now_millis();
        let mut live: Vec<(i32, u64)> = Vec::new();
        let mut i: usize = 0;
        while i < self.unique_ids.len()
            invariant
                i <= self.unique_ids.len(),
                self@ == g0,
                live@ == spec_live_ids(g0.unique_ids.subrange(0, i as int), now),
                forall|j: int|
                    0 <= j < live@.len() ==> exists|k: int|
                        0 <= k < i && (#[trigger] live@[j]) == g0.unique_ids[k],
            decreases self.unique_ids.len() - i,
        {
            proof {
                assert(g0.unique_ids.subrange(0, i + 1).drop_last() =~= g0.unique_ids.subrange(
                    0,
                    i as int,
                ));
                assert(g0.unique_ids.subrange(0, i + 1).last() == g0.unique_ids[i as int]);
            }
            let entry = self.unique_ids[i];
            if now < entry.1 || now - entry.1 < PLAYER_TIMEOUT_MILLIS {
                live.push(entry);
                proof {
                    assert(live@.last() == g0.unique_ids[i as int]);
                }
            }
            i = i + 1;
        }
        proof {
            assert(g0.unique_ids.subrange(0, g0.unique_ids.len() as int) =~= g0.unique_ids);
            if spec_ids_distinct(g0.unique_ids) {
                assert forall|k1: int, k2: int|
                    0 <= k1 < live@.len() && 0 <= k2 < live@.len() && k1 != k2 implies (
                #[trigger] live@[k1]).0 != (#[trigger] live@[k2]).0 by {
                    lemma_live_ids_distinct(g0.unique_ids, now);
                }
            }
        }
        self.unique_ids = live;
        let ghost ids = self@.unique_ids;
        let n_games = self.games.len();
        let mut gi: usize = 0;
        while gi < n_games
            invariant
                gi <= n_games,
                n_games == self.games.len(),
                self@.unique_ids == ids,
                self@.games.len() == g0.games.len(),
                forall|j: int|
                    0 <= j < gi ==> #[trigger] self@.games[j] == (GameStateView {
                        players: spec_live_players(g0.games[j].players, ids),
                        ..g0.games[j]
                    }),
                forall|j: int| gi <= j < n_games ==> #[trigger] self@.games[j] == g0.games[j],
            decreases n_games - gi,
        {
            let mut filtered: Vec<Player> = Vec::new();
            let n_players = self.games[gi].players.len();
            let mut pi: usize = 0;
            while pi < n_players
                invariant
                    pi <= n_players,
                    (gi as int) < self@.games.len(),
                    n_players == self.games[gi as int].players.len(),
                    self@.games[gi as int] == g0.games[gi as int],
                    self@.unique_ids == ids,
                    filtered@.map_values(|p: Player| p@) == spec_live_players(
                        g0.games[gi as int].players.subrange(0, pi as int),
                        ids,
                    ),
                decreases n_players - pi,
            {
                proof {
                    assert(g0.games[gi as int].players.subrange(0, pi + 1).drop_last()
                        =~= g0.games[gi as int].players.subrange(0, pi as int));
                    assert(g0.games[gi as int].players.subrange(0, pi + 1).last() == g0.games[
                        gi as int
                    ].players[pi as int]);
                }
                if id_is_registered(&self.unique_ids, self.games[gi].players[pi].unique_id) {
                    let ghost fv = filtered@.map_values(|p: Player| p@);
                    filtered.push(self.games[gi].players[pi].duplicate());
                    proof {
                        assert(filtered@.map_values(|p: Player| p@) =~= fv.push(
                            g0.games[gi as int].players[pi as int],
                        ));
                    }
                }
                pi = pi + 1;
            }
            proof {
                assert(g0.games[gi as int].players.subrange(
                    0,
                    g0.games[gi as int].players.len() as int,
                ) =~= g0.games[gi as int].players);
            }
            let ghost prev_games = self.games@;
            let ghost prev_view = self@;
            self.games[gi].players = filtered;
            proof {
                assert(self@.games[gi as int] == self.games@[gi as int]@);
                assert forall|j: int| 0 <= j < prev_games.len() && j != gi implies
                    #[trigger] self@.games[j] == prev_view.games[j] by {
                    assert(self.games@[j] == prev_games[j]);
                    assert(prev_view.games[j] == prev_games[j]@);
                }
            }
            gi = gi + 1;
        }
    }

    /// The games currently on the server, empty ones dropped.
    pub fn get_created_games(&mut self) -> (r: Vec<GameState>)
        ensures
            final(self)@ == (GameControllerView {
                games: spec_nonempty_games(old(self)@.games),
                ..old(self)@
            }),
            r@.map_values(|g: GameState| g@) == final(self)@.games,
    {
        self.remove_empty_games();
        let mut out: Vec<GameState> = Vec::new();
        let mut i: usize = 0;
        while i < self.games.len()
            invariant
                i <= self.games.len(),
                self@ == (GameControllerView {
                    games: spec_nonempty_games(old(self)@.games),
                    ..old(self)@
                }),
                out@.map_values(|g: GameState| g@) == self@.games.subrange(0, i as int),
            decreases self.games.len() - i,
        {
            let ghost ov = out@.map_values(|g: GameState| g@);
            out.push(self.games[i].duplicate());
            proof {
                assert(out@.map_values(|g: GameState| g@) =~= ov.push(self@.games[i as int]));
            }
            i = i + 1;
        }
        proof {
            assert(out@.map_values(|g: GameState| g@) =~= self@.games);
        }
        out
    }

    /// An identifier no current registration holds, drawn at random;
    /// nothing if a hundred thousand draws all collided.
    fn generate_unused_unique_id(&self) -> (r: Option<i32>)
        ensures
            r is Some ==> !spec_id_registered(self@.unique_ids, r->0),
    {
        let mut id: i32 = crate::random::random_i32();
        let mut tries: usize = 0;
        while tries < 100000
            invariant
                tries <= 100000,
            decreases 100000 - tries,
        {
            if !id_is_registered(&self.unique_ids, id) {
                return Some(id);
            }
            id = crate::random::random_i32();
            tries = tries + 1;
        }
        None
    }

    /// Issues a fresh player identifier: not registered before the
    /// call, registered with a check-in stamp after it. Distinctness
    /// of the registry is preserved, so identifiers issued over any
    /// sequence of calls are pairwise distinct.
    pub fn generate_player_id(&mut self) -> (r: Result<i32, String>)
        ensures
            r is Ok ==> !spec_id_registered(old(self)@.unique_ids, r->Ok_0) && exists|t: u64|
                final(self)@.unique_ids == old(self)@.unique_ids.push((r->Ok_0, t)),
            r is Ok ==> spec_id_registered(final(self)@.unique_ids, r->Ok_0),
            r is Err ==> final(self)@ == old(self)@,
            final(self)@.games == old(self)@.games,
            spec_ids_distinct(old(self)@.unique_ids) ==> spec_ids_distinct(
                final(self)@.unique_ids,
            ),
    {
        let new_id = match self.generate_unused_unique_id() {
            Some(i) => i,
            None => {
                return Err("Failed to make new ID!".to_owned());
            },
        };
        let stamp = crate::clock::now_millis();
        self.unique_ids.push((new_id, stamp));
        proof {
            assert(final(self)@.unique_ids.last() == (new_id, stamp));
            if spec_ids_distinct(old(self)@.unique_ids) {
                assert forall|k1: int, k2: int|
                    0 <= k1 < final(self)@.unique_ids.len() && 0 <= k2 < final(self)@.unique_ids.len() && k1 != k2 implies (#[trigger] final(self)@.unique_ids[k1]).0 != (#[trigger] final(self)@.unique_ids[k2]).0 by {
                    let n = old(self)@.unique_ids.len();
                    if k1 < n && k2 < n {
                        assert(old(self)@.unique_ids[k1].0 != old(self)@.unique_ids[k2].0);
                    } else if k1 < n {
                        assert(old(self)@.unique_ids[k1].0 != new_id);
                    } else {
                        assert(old(self)@.unique_ids[k2].0 != new_id);
                    }
                }
            }
        }
        Ok(new_id)
    }

    /// How many player identifiers have been issued and kept.
    pub fn get_amount_of_created_player_ids(&self) -> (r: i32)
        ensures
            r == self@.unique_ids.len() as i32,
    {
        self.unique_ids.len() as i32
    }

    /// The games still in lobby mode.
    pub fn get_all_lobbies(&self) -> (r: Vec<GameState>)
        ensures
            r@.map_values(|g: GameState| g@) == spec_lobby_games(self@.games),
    {
        let mut lobbies: Vec<GameState> = Vec::new();
        let mut i: usize = 0;
        while i < self.games.len()
            invariant
                i <= self.games.len(),
                lobbies@.map_values(|g: GameState| g@) == spec_lobby_games(
                    self@.games.subrange(0, i as int),
                ),
            decreases self.games.len() - i,
        {
            proof {
                assert(self@.games.subrange(0, i + 1).drop_last() =~= self@.games.subrange(
                    0,
                    i as int,
                ));
                assert(self@.games.subrange(0, i + 1).last() == self@.games[i as int]);
            }
            if self.games[i].is_lobby {
                let ghost lv = lobbies@.map_values(|g: GameState| g@);
                lobbies.push(self.games[i].duplicate());
                proof {
                    assert(lobbies@.map_values(|g: GameState| g@) =~= lv.push(
                        self@.games[i as int],
                    ));
                }
            }
            i = i + 1;
        }
        proof {
            assert(self@.games.subrange(0, self@.games.len() as int) =~= self@.games);
        }
        lobbies
    }

    /// A game identity no current game holds, drawn at random; nothing
    /// if a hundred thousand draws all collided.
    fn generate_unused_game_id(&self) -> (r: Option<i32>)
        ensures
            r is Some ==> forall|k: int|
                0 <= k < self@.games.len() ==> (#[trigger] self@.games[k]).id != r->0,
    {
        let mut id: i32 = crate::random::random_i32();
        let mut tries: usize = 0;
        while tries < 100000
            invariant
                tries <= 100000,
            decreases 100000 - tries,
        {
            let mut used = false;
            let mut i: usize = 0;
            while i < self.games.len()
                invariant
                    i <= self.games.len(),
                    used == exists|k: int|
                        0 <= k < i && (#[trigger] self@.games[k]).id == id,
                decreases self.games.len() - i,
            {
                if self.games[i].id == id {
                    proof {
                        assert(self@.games[i as int].id == id);
                    }
                    used = true;
                }
                i = i + 1;
            }
            if !used {
                return Some(id);
            }
            id = crate::random::random_i32();
            tries = tries + 1;
        }
        None
    }

    /// Opens a new game with the host seated in it; the host must be
    /// registered and in no other game.
    fn create_new_game_and_assign_host(&mut self, new_lobby: NewGameInfo) -> (r: Result<
        GameState,
        String,
    >)
        ensures
            final(self)@ == old(self)@,
            r is Ok ==> spec_id_registered(old(self)@.unique_ids, new_lobby@.host.unique_id)
                && (forall|k: int|
                0 <= k < old(self)@.games.len() ==> !spec_has_player(
                    (#[trigger] old(self)@.games[k]).players,
                    new_lobby@.host.unique_id,
                )) && r->Ok_0@.players == seq![
                PlayerView {
                    in_game_id: InGameID::Undecided,
                    connected_game_id: Some(r->Ok_0@.id),
                    ..new_lobby@.host
                },
            ] && r->Ok_0@.is_lobby && r->Ok_0@.name == new_lobby@.name && (forall|k: int|
                0 <= k < old(self)@.games.len() ==> (#[trigger] old(self)@.games[k]).id
                    != r->Ok_0@.id),
    {
        if !id_is_registered(&self.unique_ids, new_lobby.host.unique_id) {
            return Err(
                "A player that has a unique ID that was not made by the server cannot create a lobby.".to_owned(),
            );
        }
        let n = self.games.len();
        let mut i: usize = 0;
        while i < n
            invariant
                i <= n,
                self@ == old(self)@,
                n == self.games.len(),
                forall|k: int|
                    0 <= k < i ==> !spec_has_player(
                        (#[trigger] self@.games[k]).players,
                        new_lobby@.host.unique_id,
                    ),
            decreases n - i,
        {
            if self.games[i].contains_player_with_unique_id(new_lobby.host.unique_id) {
                return Err(
                    "A player that is already connected to a game in progress cannot create a new game.".to_owned(),
                );
            }
            i = i + 1;
        }
        let game_id = match self.generate_unused_game_id() {
            Some(id) => id,
            None => {
                return Err("Failed to create new game because no identity was free.".to_owned());
            },
        };
        let mut new_game = GameState::new(new_lobby.name, game_id);
        match new_game.assign_player_to_game(new_lobby.host) {
            Ok(_) => (),
            Err(_) => {
                proof {
                    assert(false);
                }
            },
        }
        proof {
            assert(new_game@.players =~= seq![
                PlayerView {
                    in_game_id: InGameID::Undecided,
                    connected_game_id: Some(new_game@.id),
                    ..new_lobby@.host
                },
            ]);
        }
        Ok(new_game)
    }

    /// Opens a new game for the given host and adds it to the server's
    /// collection.
    pub fn create_new_game(&mut self, new_lobby: NewGameInfo) -> (r: Result<GameState, String>)
        ensures
            r is Err ==> final(self)@ == old(self)@,
            final(self)@.unique_ids == old(self)@.unique_ids,
            (!spec_id_registered(old(self)@.unique_ids, new_lobby@.host.unique_id) || exists|
                k: int,
            |
                0 <= k < old(self)@.games.len() && spec_has_player(
                    (#[trigger] old(self)@.games[k]).players,
                    new_lobby@.host.unique_id,
                )) ==> r is Err,
            r is Ok ==> spec_id_registered(old(self)@.unique_ids, new_lobby@.host.unique_id)
                && (forall|k: int|
                0 <= k < old(self)@.games.len() ==> !spec_has_player(
                    (#[trigger] old(self)@.games[k]).players,
                    new_lobby@.host.unique_id,
                )) && final(self)@.games == old(self)@.games.push(r->Ok_0@)
                && r->Ok_0@.players == seq![
                PlayerView {
                    in_game_id: InGameID::Undecided,
                    connected_game_id: Some(r->Ok_0@.id),
                    ..new_lobby@.host
                },
            ] && r->Ok_0@.is_lobby && r->Ok_0@.name == new_lobby@.name && (forall|k: int|
                0 <= k < old(self)@.games.len() ==> (#[trigger] old(self)@.games[k]).id
                    != r->Ok_0@.id),
    {
        let new_game = match self.create_new_game_and_assign_host(new_lobby) {
            Ok(game) => game,
            Err(e) => {
                return Err(e);
            },
        };
        let out = new_game.duplicate();
        self.games.push(new_game);
        proof {
            assert(final(self)@.games =~= old(self)@.games.push(out@));
        }
        Ok(out)
    }

    /// Adds a registered player to the game with the given identity.
    pub fn join_game(&mut self, game_id: i32, player: Player) -> (r: Result<GameState, String>)
        ensures
            r is Err ==> final(self)@ == old(self)@,
            final(self)@.unique_ids == old(self)@.unique_ids,
            r is Ok <==> (forall|k: int|
                0 <= k < old(self)@.games.len() ==> !spec_has_player(
                    (#[trigger] old(self)@.games[k]).players,
                    player@.unique_id,
                )) && (exists|gi: int|
                {
                    &&& 0 <= gi < old(self)@.games.len()
                    &&& (#[trigger] old(self)@.games[gi]).id == game_id
                    &&& (forall|k: int|
                        0 <= k < gi ==> (#[trigger] old(self)@.games[k]).id != game_id)
                    &&& old(self)@.games[gi].players.len() < crate::constants::MAX_PLAYER_COUNT
                }),
            r is Ok ==> exists|gi: int|
                {
                    &&& 0 <= gi < old(self)@.games.len()
                    &&& (#[trigger] old(self)@.games[gi]).id == game_id
                    &&& forall|k: int|
                        0 <= k < gi ==> (#[trigger] old(self)@.games[k]).id != game_id
                    &&& old(self)@.games[gi].players.len() < crate::constants::MAX_PLAYER_COUNT
                    &&& !spec_has_player(old(self)@.games[gi].players, player@.unique_id)
                    &&& final(self)@.games == old(self)@.games.update(
                        gi,
                        GameStateView {
                            players: old(self)@.games[gi].players.push(
                                PlayerView {
                                    in_game_id: InGameID::Undecided,
                                    connected_game_id: Some(old(self)@.games[gi].id),
                                    ..player@
                                },
                            ),
                            ..old(self)@.games[gi]
                        },
                    )
                    &&& r->Ok_0@ == final(self)@.games[gi]
                },
    {
        let n = self.games.len();
        let mut i: usize = 0;
        while i < n
            invariant
                i <= n,
                self@ == old(self)@,
                n == self.games.len(),
                forall|k: int|
                    0 <= k < i ==> !spec_has_player(
                        (#[trigger] self@.games[k]).players,
                        player@.unique_id,
                    ),
            decreases n - i,
        {
            if self.games[i].contains_player_with_unique_id(player.unique_id) {
                proof {
                    assert(spec_has_player(
                        old(self)@.games[i as int].players,
                        player@.unique_id,
                    ));
                }
                return Err("The player is already connected to another game.".to_owned());
            }
            i = i + 1;
        }
        let mut gi: usize = 0;
        while gi < n
            invariant
                gi <= n,
                self@ == old(self)@,
                n == self.games.len(),
                forall|k: int|
                    0 <= k < n ==> !spec_has_player(
                        (#[trigger] self@.games[k]).players,
                        player@.unique_id,
                    ),
                forall|k: int| 0 <= k < gi ==> (#[trigger] self@.games[k]).id != game_id,
            decreases n - gi,
        {
            if self.games[gi].id == game_id {
                let ghost prev_games = self.games@;
                let ghost prev_view = self@;
                let result;
                let assign_result = self.games[gi].assign_player_to_game(player);
                proof {
                    assert(self@.games[gi as int] == self.games@[gi as int]@);
                    assert forall|j: int| 0 <= j < prev_games.len() && j != gi implies
                        #[trigger] self@.games[j] == prev_view.games[j] by {
                        assert(self.games@[j] == prev_games[j]);
                        assert(prev_view.games[j] == prev_games[j]@);
                    }
                }
                match assign_result {
                    Ok(_) => {
                        result = self.games[gi].duplicate();
                        proof {
                            assert(self@.games[gi as int] == (GameStateView {
                                players: old(self)@.games[gi as int].players.push(
                                    PlayerView {
                                        in_game_id: InGameID::Undecided,
                                        connected_game_id: Some(old(self)@.games[gi as int].id),
                                        ..player@
                                    },
                                ),
                                ..old(self)@.games[gi as int]
                            }));
                            assert(self@.games =~= old(self)@.games.update(
                                gi as int,
                                self@.games[gi as int],
                            ));
                            assert(result@ == self@.games[gi as int]);
                            assert(0 <= gi < old(self)@.games.len() && old(self)@.games[
                                gi as int
                            ].id == game_id && (forall|k: int|
                                0 <= k < gi ==> (#[trigger] old(self)@.games[k]).id != game_id)
                                && old(self)@.games[gi as int].players.len()
                                < crate::constants::MAX_PLAYER_COUNT);
                        }
                        return Ok(result);
                    },
                    Err(e) => {
                        proof {
                            assert(self@.games =~= old(self)@.games);
                            assert forall|g2: int|
                                0 <= g2 < old(self)@.games.len() && (#[trigger] old(
                                    self,
                                )@.games[g2]).id == game_id && (forall|k: int|
                                    0 <= k < g2 ==> (#[trigger] old(self)@.games[k]).id
                                        != game_id) implies !(old(self)@.games[g2].players.len()
                                < crate::constants::MAX_PLAYER_COUNT) by {
                                if g2 < gi {
                                    assert(old(self)@.games[g2].id != game_id);
                                } else if g2 > gi {
                                    assert(old(self)@.games[gi as int].id != game_id);
                                }
                            }
                        }
                        return Err(e);
                    },
                }
            }
            gi = gi + 1;
        }
        Err("Could not find the game the player is trying to join!".to_owned())
    }

    /// Removes the player with the given identifier from every game
    /// holding it, and drops games that became empty.
    pub fn remove_player_from_game(&mut self, player_id: i32)
        ensures
            final(self)@.unique_ids == old(self)@.unique_ids,
            exists|mid: Seq<GameStateView>|
                {
                    &&& mid.len() == old(self)@.games.len()
                    &&& (forall|j: int|
                        0 <= j < mid.len() ==> #[trigger] mid[j] == spec_game_without_player(
                            old(self)@.games[j],
                            player_id,
                        ))
                    &&& final(self)@.games == spec_nonempty_games(mid)
                },
    {
        let ghost g0 = self@;
        let n = self.games.len();
        let mut i: usize = 0;
        while i < n
            invariant
                i <= n,
                n == self.games.len(),
                self@.unique_ids == g0.unique_ids,
                self@.games.len() == g0.games.len(),
                forall|j: int|
                    0 <= j < i ==> #[trigger] self@.games[j] == spec_game_without_player(
                        g0.games[j],
                        player_id,
                    ),
                forall|j: int| i <= j < n ==> #[trigger] self@.games[j] == g0.games[j],
            decreases n - i,
        {
            let ghost prev_games = self.games@;
            let ghost prev_view = self@;
            let had = self.games[i].contains_player_with_unique_id(player_id);
            if had {
                self.games[i].remove_player_with_id(player_id);
            }
            proof {
                assert(self@.games[i as int] == self.games@[i as int]@);
                assert forall|j: int| 0 <= j < prev_games.len() && j != i implies
                    #[trigger] self@.games[j] == prev_view.games[j] by {
                    assert(self.games@[j] == prev_games[j]);
                    assert(prev_view.games[j] == prev_games[j]@);
                }
                assert(prev_view.games[i as int] == g0.games[i as int]);
                if had {
                    assert(self@.games[i as int] == spec_game_without_player(
                        g0.games[i as int],
                        player_id,
                    ));
                } else {
                    assert(self@.games[i as int] == g0.games[i as int]);
                    assert(self@.games[i as int] == spec_game_without_player(
                        g0.games[i as int],
                        player_id,
                    ));
                }
            }
            i = i + 1;
        }
        let ghost mid = self@.games;
        self.remove_empty_games();
        proof {
            assert(mid.len() == old(self)@.games.len());
            assert(self@.games == spec_nonempty_games(mid));
        }
    }

    /// The game with the given identity, its pending actions replayed
    /// and the acting player's legal destinations attached. The stored
    /// games are left untouched.
    #[verifier::spinoff_prover]
    #[verifier::rlimit(100)]
    pub fn get_game_by_id(&mut self, game_id: i32) -> (r: Result<GameState, String>)
        ensures
            final(self)@ == old(self)@,
            (forall|k: int|
                0 <= k < old(self)@.games.len() ==> (#[trigger] old(self)@.games[k]).id
                    != game_id) ==> r is Err,
            r is Ok ==> exists|gi: int, m: GameStateView|
                {
                    &&& 0 <= gi < old(self)@.games.len()
                    &&& old(self)@.games[gi].id == game_id
                    &&& #[trigger] spec_actions_applied(
                        old(self)@.games[gi],
                        m,
                        old(self)@.games[gi].actions,
                    )
                    &&& r->Ok_0@ == (GameStateView { legal_nodes: r->Ok_0@.legal_nodes, ..m })
                },
            (exists|gi: int|
                {
                    &&& 0 <= gi < old(self)@.games.len()
                    &&& (#[trigger] old(self)@.games[gi]).id == game_id
                    &&& (forall|k: int|
                        0 <= k < gi ==> (#[trigger] old(self)@.games[k]).id != game_id)
                    &&& old(self)@.games[gi].actions.len() == 0
                    &&& (old(self)@.games[gi].is_lobby || spec_role_occupied(
                        old(self)@.games[gi].players,
                        old(self)@.games[gi].current_players_turn,
                    ))
                }) ==> r is Ok,
    {
        let n = self.games.len();
        let mut gi: usize = 0;
        while gi < n
            invariant
                gi <= n,
                self@ == old(self)@,
                n == self.games.len(),
                forall|k: int| 0 <= k < gi ==> (#[trigger] self@.games[k]).id != game_id,
            decreases n - gi,
        {
            if self.games[gi].id == game_id {
                let mut game_clone = self.games[gi].duplicate();
                let ghost base = game_clone@;
                match Self::apply_game_actions(&mut game_clone) {
                    Ok(_) => (),
                    Err(e) => {
                        return Err(e);
                    },
                }
                let ghost replayed = game_clone@;
                if !game_clone.is_lobby {
                    let mut acting: Option<i32> = None;
                    let n_players = game_clone.players.len();
                    let mut pj: usize = 0;
                    while pj < n_players
                        invariant
                            pj <= n_players,
                            n_players == game_clone.players.len(),
                            game_clone@ == replayed,
                            acting is None ==> forall|k: int|
                                0 <= k < pj ==> (#[trigger] replayed.players[k]).in_game_id
                                    != replayed.current_players_turn,
                            acting is Some ==> spec_role_occupied(
                                replayed.players,
                                replayed.current_players_turn,
                            ),
                        decreases n_players - pj,
                    {
                        if acting.is_none() && game_clone.players[pj].in_game_id
                            == game_clone.current_players_turn {
                            acting = Some(game_clone.players[pj].unique_id);
                            proof {
                                assert(replayed.players[pj as int].in_game_id
                                    == replayed.current_players_turn);
                            }
                        }
                        pj = pj + 1;
                    }
                    let acting_id = match acting {
                        Some(id) => id,
                        None => {
                            proof {
                                if old(self)@.games[gi as int].actions.len() == 0 {
                                    reveal(spec_actions_applied);
                                    assert(replayed == old(self)@.games[gi as int]);
                                    assert(!spec_role_occupied(
                                        replayed.players,
                                        replayed.current_players_turn,
                                    ));
                                }
                            }
                            return Err(
                                "There is no player that has the current in-game turn!".to_owned(),
                            );
                        },
                    };
                    self.get_legal_nodes(&mut game_clone, acting_id);
                }
                proof {
                    assert(spec_actions_applied(
                        old(self)@.games[gi as int],
                        replayed,
                        old(self)@.games[gi as int].actions,
                    ));
                    assert(game_clone@ == (GameStateView {
                        legal_nodes: game_clone@.legal_nodes,
                        ..replayed
                    }));
                }
                return Ok(game_clone);
            }
            gi = gi + 1;
        }
        Err("There is no game with the given id!".to_owned())
    }

    /// Renews the check-in stamp of one identifier, then purges
    /// expired identifiers and empty games.
    pub fn update_check_in_and_remove_inactive(&mut self, player_id: i32) -> (r: Result<
        (),
        String,
    >)
        ensures
            r is Ok <==> spec_id_registered(old(self)@.unique_ids, player_id),
            r is Err ==> final(self)@ == old(self)@,
            spec_ids_distinct(old(self)@.unique_ids) ==> spec_ids_distinct(
                final(self)@.unique_ids,
            ),
            r is Ok ==> exists|now: u64, ids1: Seq<(i32, u64)>|
                {
                    &&& ids1.len() == old(self)@.unique_ids.len()
                    &&& (forall|k: int|
                        0 <= k < ids1.len() && (#[trigger] old(self)@.unique_ids[k]).0
                            != player_id ==> ids1[k] == old(self)@.unique_ids[k])
                    &&& (forall|k: int|
                        0 <= k < ids1.len() && (#[trigger] old(self)@.unique_ids[k]).0
                            == player_id ==> ids1[k].0 == player_id)
                    &&& final(self)@.unique_ids == #[trigger] spec_live_ids(ids1, now)
                    &&& exists|midg: Seq<GameStateView>|
                        {
                            &&& midg.len() == old(self)@.games.len()
                            &&& (forall|j: int|
                                0 <= j < midg.len() ==> #[trigger] midg[j] == (GameStateView {
                                    players: spec_live_players(
                                        old(self)@.games[j].players,
                                        final(self)@.unique_ids,
                                    ),
                                    ..old(self)@.games[j]
                                }))
                            &&& final(self)@.games == spec_nonempty_games(midg)
                        }
                },
    {
        if !id_is_registered(&self.unique_ids, player_id) {
            return Err("A player with the given id does not exist!".to_owned());
        }
        let ghost ids0 = self@.unique_ids;
        let stamp = crate::clock::now_millis();
        let n = self.unique_ids.len();
        let mut i: usize = 0;
        while i < n
            invariant
                i <= n,
                n == self.unique_ids.len(),
                self@.games == old(self)@.games,
                self@.unique_ids.len() == ids0.len(),
                forall|k: int|
                    0 <= k < i ==> #[trigger] self@.unique_ids[k] == if ids0[k].0 == player_id {
                        (player_id, stamp)
                    } else {
                        ids0[k]
                    },
                forall|k: int| i <= k < n ==> #[trigger] self@.unique_ids[k] == ids0[k],
            decreases n - i,
        {
            let ghost prev = self.unique_ids@;
            if self.unique_ids[i].0 == player_id {
                self.unique_ids[i] = (player_id, stamp);
            }
            i = i + 1;
        }
        proof {
            if spec_ids_distinct(ids0) {
                assert forall|k1: int, k2: int|
                    0 <= k1 < self@.unique_ids.len() && 0 <= k2 < self@.unique_ids.len() && k1
                        != k2 implies (#[trigger] self@.unique_ids[k1]).0 != (
                #[trigger] self@.unique_ids[k2]).0 by {
                    assert((self@.unique_ids[k1]).0 == ids0[k1].0);
                    assert((self@.unique_ids[k2]).0 == ids0[k2].0);
                    assert(ids0[k1].0 != ids0[k2].0);
                }
            }
        }
        let ghost ids1 = self@.unique_ids;
        self.remove_inactive_ids();
        let ghost midg = self@.games;
        self.remove_empty_games();
        Ok(())
    }
}

/// Whether an input kind applies immediately rather than joining the
/// pending queue.
pub open spec fn spec_structural_input(t: PlayerInputType) -> bool {
    ||| t == PlayerInputType::NextTurn
    ||| t == PlayerInputType::UndoAction
    ||| t == PlayerInputType::ChangeRole
    ||| t == PlayerInputType::StartGame
    ||| t == PlayerInputType::AssignSituationCard
    ||| t == PlayerInputType::LeaveGame
}

proof fn lemma_applied_preserves_actions(g: GameStateView, g2: GameStateView, inp: PlayerInput)
    requires
        spec_input_applied(g, g2, inp),
    ensures
        g2.actions == g.actions,
{
    reveal(spec_input_applied);
}

proof fn lemma_committed_replay_ok(g: GameStateView, c: GameStateView, inp: PlayerInput)
    requires
        spec_input_handled(g, c, inp),
        g.actions.len() == 0,
        spec_handle_ok(g, inp),
        spec_structural_input(inp.input_type),
    ensures
        c.actions.len() == 0,
{
    reveal(spec_handle_ok);
    reveal(spec_input_handled);
    reveal(spec_input_applied);
    match inp.input_type {
        PlayerInputType::NextTurn => {
            assert(c.actions.len() == 0);
        },
        PlayerInputType::UndoAction => {
            assert(false);
        },
        PlayerInputType::ChangeRole => {
            assert(c.actions == g.actions);
        },
        PlayerInputType::StartGame => {
            assert(c.actions == g.actions);
        },
        PlayerInputType::AssignSituationCard => {
            assert(c.actions == g.actions);
        },
        PlayerInputType::LeaveGame => {
            assert(c.actions == g.actions);
        },
        _ => {
            assert(false);
        },
    }
}

proof fn lemma_live_ids_distinct(ids: Seq<(i32, u64)>, now: u64)
    requires
        spec_ids_distinct(ids),
    ensures
        spec_ids_distinct(spec_live_ids(ids, now)),
        forall|j: int|
            0 <= j < spec_live_ids(ids, now).len() ==> ids.contains(
                #[trigger] spec_live_ids(ids, now)[j],
            ),
    decreases ids.len(),
{
    if ids.len() > 0 {
        assert(spec_ids_distinct(ids.drop_last())) by {
            assert forall|k1: int, k2: int|
                0 <= k1 < ids.drop_last().len() && 0 <= k2 < ids.drop_last().len() && k1 != k2
                    implies (#[trigger] ids.drop_last()[k1]).0 != (#[trigger] ids.drop_last()[
                k2]).0 by {
                assert(ids[k1].0 != ids[k2].0);
            }
        }
        lemma_live_ids_distinct(ids.drop_last(), now);
        let live = spec_live_ids(ids, now);
        let rest = spec_live_ids(ids.drop_last(), now);
        assert forall|j: int| 0 <= j < live.len() implies ids.contains(#[trigger] live[j]) by {
            if spec_id_live(ids.last(), now) && j == live.len() - 1 {
                assert(ids[ids.len() - 1] == live[j]);
            } else {
                assert(rest[j] == live[j]);
                assert(ids.drop_last().contains(rest[j]));
                let w = choose|w: int| 0 <= w < ids.drop_last().len() && ids.drop_last()[w] == rest[j];
                assert(ids[w] == rest[j]);
            }
        }
        assert forall|k1: int, k2: int|
            0 <= k1 < live.len() && 0 <= k2 < live.len() && k1 != k2 implies (
        #[trigger] live[k1]).0 != (#[trigger] live[k2]).0 by {
            if spec_id_live(ids.last(), now) && (k1 == live.len() - 1 || k2 == live.len() - 1) {
                let other = if k1 == live.len() - 1 {
                    k2
                } else {
                    k1
                };
                assert(live[other] == rest[other]);
                assert(ids.drop_last().contains(rest[other]));
                let w = choose|w: int|
                    0 <= w < ids.drop_last().len() && ids.drop_last()[w] == rest[other];
                assert(ids[w] == live[other]);
                assert(ids[w].0 != ids[ids.len() - 1].0);
            }
        }
    }
}

impl GameController {
    /// Replaces one player's seat, as the role-change input asks.
    fn change_role_player(input: PlayerInput, game: &mut GameState) -> (r: Result<(), String>)
        ensures
            r is Ok <==> spec_input_applicable(old(game)@, PlayerInput {
                input_type: PlayerInputType::ChangeRole,
                ..input
            }),
            r is Ok ==> spec_role_change_applied(old(game)@, final(game)@, input),
            r is Err ==> final(game)@ == old(game)@,
    {
        proof {
            reveal(spec_input_applicable);
        }
        let related_role = match input.related_role {
            Some(role) => role,
            None => {
                return Err("There was no related role to change to!".to_owned());
            },
        };
        game.assign_player_role((input.player_id, related_role))
    }

    /// Moves the acting player and sweeps the mission flags; either
    /// both happen or the game is unchanged.
    fn handle_movement(input: PlayerInput, game: &mut GameState) -> (r: Result<(), String>)
        ensures
            r is Ok <==> spec_input_applicable(old(game)@, PlayerInput {
                input_type: PlayerInputType::Movement,
                ..input
            }),
            r is Ok ==> spec_movement_applied(old(game)@, final(game)@, input),
            r is Err ==> final(game)@ == old(game)@,
    {
        proof {
            reveal(spec_input_applicable);
        }
        let related_node_id = match input.related_node_id {
            Some(id) => id,
            None => {
                return Err("There was no node related to the movement!".to_owned());
            },
        };
        let mut tmp = game.duplicate();
        match tmp.move_player_with_id(input.player_id, related_node_id) {
            Ok(_) => (),
            Err(e) => {
                return Err(e);
            },
        }
        match tmp.update_objective_status() {
            Ok(_) => (),
            Err(e) => {
                return Err(e);
            },
        }
        *game = tmp;
        Ok(())
    }

    /// Adds or removes a zone-wide modifier, as the input asks.
    fn handle_district_restriction(input: PlayerInput, game: &mut GameState) -> (r: Result<
        (),
        String,
    >)
        ensures
            r is Ok <==> spec_input_applicable(old(game)@, PlayerInput {
                input_type: PlayerInputType::ModifyDistrict,
                ..input
            }),
            r is Ok ==> spec_district_modifier_applied(old(game)@, final(game)@, input),
            r is Err ==> final(game)@ == old(game)@,
    {
        proof {
            reveal(spec_input_applicable);
        }
        let district_modifier = match input.district_modifier {
            Some(dm) => dm,
            None => {
                return Err(
                    "There was no district modifier in the input even though it was marked as a district input".to_owned(),
                );
            },
        };
        if district_modifier.delete {
            return game.remove_district_modifier(district_modifier);
        }
        game.add_district_modifier(district_modifier)
    }

    /// Applies one input to a game's state directly. Turn rotations
    /// and undos are refused here; either the input applies whole or
    /// the game is unchanged.
    fn apply_input(input: PlayerInput, game: &mut GameState) -> (r: Result<(), String>)
        ensures
            r is Ok <==> spec_input_applicable(old(game)@, input),
            r is Ok ==> spec_input_applied(old(game)@, final(game)@, input),
            r is Err ==> final(game)@ == old(game)@,
    {
        proof {
            reveal(spec_input_applicable);
            reveal(spec_input_applied);
        }
        match input.input_type {
            PlayerInputType::Movement => Self::handle_movement(input, game),
            PlayerInputType::ChangeRole => Self::change_role_player(input, game),
            PlayerInputType::All => Err("This input type should not be used by players".to_owned()),
            PlayerInputType::NextTurn => Err(
                "A turn rotation cannot be applied as a single action".to_owned(),
            ),
            PlayerInputType::UndoAction => Err(
                "An undo cannot be applied as a single action".to_owned(),
            ),
            PlayerInputType::ModifyDistrict => Self::handle_district_restriction(input, game),
            PlayerInputType::StartGame => game.start_game(),
            PlayerInputType::AssignSituationCard => {
                let id = match input.situation_card_id {
                    Some(id) => id,
                    None => {
                        return Err("There was no situation card id in the input".to_owned());
                    },
                };
                let card = match SituationCardList::get_default_situation_card_by_id(id) {
                    Ok(card) => card,
                    Err(e) => {
                        return Err(e);
                    },
                };
                game.update_situation_card(card);
                match game.update_node_map_with_situation_card() {
                    Ok(_) => (),
                    Err(_) => {
                        proof {
                            assert(false);
                        }
                    },
                }
                Ok(())
            },
            PlayerInputType::LeaveGame => {
                game.remove_player_with_id(input.player_id);
                Ok(())
            },
            PlayerInputType::ModifyEdgeRestrictions => {
                let edge_mod = match input.edge_modifier {
                    Some(em) => em,
                    None => {
                        return Err(
                            "There was no edge modifier on the input asking to modify restrictions".to_owned(),
                        );
                    },
                };
                if edge_mod.delete {
                    return game.remove_restriction_from_edge(&edge_mod);
                }
                game.add_edge_restriction(&edge_mod, true)
            },
            PlayerInputType::SetPlayerBusBool => {
                let boolean = match input.related_bool {
                    Some(b) => b,
                    None => {
                        return Err("There was no bool to set the bus bool with!".to_owned());
                    },
                };
                game.set_player_bus_bool(input.player_id, boolean);
                Ok(())
            },
            PlayerInputType::SetPlayerTrainBool => {
                let boolean = match input.related_bool {
                    Some(b) => b,
                    None => {
                        return Err("There was no bool to set the train bool with!".to_owned());
                    },
                };
                game.set_player_train_bool(input.player_id, boolean);
                Ok(())
            },
        }
    }

    /// Replays a game's pending action queue onto it, in order.
    #[verifier::spinoff_prover]
    #[verifier::rlimit(100)]
    fn apply_game_actions(game: &mut GameState) -> (r: Result<(), String>)
        ensures
            r is Ok ==> spec_actions_applied(old(game)@, final(game)@, old(game)@.actions),
            final(game)@.actions == old(game)@.actions,
            r is Err ==> old(game)@.actions.len() > 0,
    {
        proof {
            reveal(spec_actions_applied);
        }
        if game.actions.len() == 0 {
            return Ok(());
        }
        let ghost g0 = game@;
        let mut actions: Vec<PlayerInput> = Vec::new();
        let mut c: usize = 0;
        while c < game.actions.len()
            invariant
                c <= game.actions.len(),
                game@ == g0,
                actions@ == g0.actions.subrange(0, c as int),
            decreases game.actions.len() - c,
        {
            actions.push(game.actions[c]);
            c = c + 1;
        }
        proof {
            assert(actions@ =~= g0.actions);
        }
        let n = actions.len();
        let mut i: usize = 0;
        while i < n
            invariant
                i <= n,
                n == actions@.len(),
                actions@ == g0.actions,
                game@.actions == g0.actions,
                spec_actions_applied(g0, game@, g0.actions.subrange(0, i as int)),
            decreases n - i,
        {
            let ghost before = game@;
            match Self::apply_input(actions[i], game) {
                Ok(_) => (),
                Err(e) => {
                    return Err(crate::text::append_str(e, " No actions are applied to the game."));
                },
            }
            proof {
                lemma_applied_preserves_actions(before, game@, actions@[i as int]);
                lemma_actions_applied_snoc(
                    g0,
                    before,
                    game@,
                    g0.actions.subrange(0, i as int),
                    g0.actions[i as int],
                );
                assert(g0.actions.subrange(0, i as int).push(g0.actions[i as int])
                    =~= g0.actions.subrange(0, i + 1));
            }
            i = i + 1;
        }
        proof {
            assert(g0.actions.subrange(0, g0.actions.len() as int) =~= g0.actions);
        }
        Ok(())
    }

    /// Commits the pending queue and rotates the turn: the queue is
    /// replayed onto a scratch copy, and only on full success does the
    /// copy replace the game, with the queue cleared and the turn
    /// handed on.
    fn game_next_turn(game: &mut GameState) -> (r: Result<(), String>)
        ensures
            old(game)@.actions.len() == 0 ==> r is Ok,
            r is Ok ==> spec_input_handled(
                old(game)@,
                final(game)@,
                PlayerInput {
                    input_type: PlayerInputType::NextTurn,
                    ..spec_synthetic_movement(0, 0, 0)
                },
            ),
            r is Err ==> final(game)@ == old(game)@,
    {
        proof {
            reveal(spec_input_handled);
        }
        let mut game_clone = game.duplicate();
        match Self::apply_game_actions(&mut game_clone) {
            Ok(_) => (),
            Err(e) => {
                return Err(e);
            },
        }
        let ghost m = game_clone@;
        game_clone.actions.clear();
        game_clone.next_player_turn();
        *game = game_clone;
        proof {
            assert(spec_actions_applied(old(game)@, m, old(game)@.actions));
        }
        Ok(())
    }

    /// Validates a turn-scoped input by replaying the queue plus the
    /// input onto a scratch copy, and only then appends it to the
    /// queue.
    fn add_action(input: PlayerInput, game: &mut GameState) -> (r: Result<(), String>)
        ensures
            old(game)@.actions.len() == 0 ==> (r is Ok <==> spec_input_applicable(
                old(game)@,
                input,
            )),
            r is Ok ==> (exists|m: GameStateView, m2: GameStateView|
                spec_actions_applied(old(game)@, m, old(game)@.actions)
                    && #[trigger] spec_input_applied(m, m2, input)) && final(game)@ == (GameStateView {
                actions: old(game)@.actions.push(input),
                ..old(game)@
            }),
            r is Err ==> final(game)@ == old(game)@,
    {
        proof {
            reveal(spec_actions_applied);
        }
        let mut game_clone = game.duplicate();
        match Self::apply_game_actions(&mut game_clone) {
            Ok(_) => (),
            Err(e) => {
                return Err(e);
            },
        }
        let ghost m = game_clone@;
        match Self::apply_input(input, &mut game_clone) {
            Ok(_) => (),
            Err(e) => {
                return Err(e);
            },
        }
        game.actions.push(input);
        proof {
            assert(spec_actions_applied(old(game)@, m, old(game)@.actions));
            assert(final(game)@ =~~= (GameStateView {
                actions: old(game)@.actions.push(input),
                ..old(game)@
            }));
        }
        Ok(())
    }

    /// Routes one input: turn rotations commit the queue, undos drop
    /// its newest entry, structural inputs apply at once, and
    /// turn-scoped inputs join the queue after a speculative check.
    #[verifier::spinoff_prover]
    #[verifier::rlimit(100)]
    fn handle_input(input: PlayerInput, game: &mut GameState) -> (r: Result<(), String>)
        ensures
            r is Ok ==> spec_input_handled(old(game)@, final(game)@, input),
            r is Err ==> final(game)@ == old(game)@,
            input.input_type == PlayerInputType::UndoAction ==> (r is Ok <==> old(
                game,
            )@.actions.len() > 0),
            (input.input_type == PlayerInputType::ChangeRole || input.input_type
                == PlayerInputType::StartGame || input.input_type
                == PlayerInputType::AssignSituationCard || input.input_type
                == PlayerInputType::LeaveGame) ==> (r is Ok <==> spec_input_applicable(
                old(game)@,
                input,
            )),
            old(game)@.actions.len() == 0 ==> (r is Ok <==> spec_handle_ok(old(game)@, input)),
    {
        proof {
            reveal(spec_handle_ok);
            reveal(spec_input_handled);
        }
        if input.input_type == PlayerInputType::NextTurn {
            return Self::game_next_turn(game);
        }
        if input.input_type == PlayerInputType::UndoAction {
            match game.actions.pop() {
                Some(_) => {
                    proof {
                        assert(final(game)@ =~~= (GameStateView {
                            actions: old(game)@.actions.drop_last(),
                            ..old(game)@
                        }));
                    }
                    return Ok(());
                },
                None => {
                    return Err("There is no action to undo!".to_owned());
                },
            }
        }
        if input.input_type == PlayerInputType::ChangeRole || input.input_type
            == PlayerInputType::StartGame || input.input_type
            == PlayerInputType::AssignSituationCard || input.input_type
            == PlayerInputType::LeaveGame {
            return Self::apply_input(input, game);
        }
        Self::add_action(input, game)
    }

    /// Recomputes which destinations the acting player could legally
    /// move to, by probing every outgoing edge of their position with
    /// a synthetic movement input.
    #[verifier::spinoff_prover]
    #[verifier::rlimit(100)]
    fn get_legal_nodes(&self, game: &mut GameState, player_id: i32)
        ensures
            final(game)@ == (GameStateView {
                legal_nodes: final(game)@.legal_nodes,
                ..old(game)@
            }),
            final(game)@ == old(game)@ || ({
                let pos = spec_player(old(game)@.players, player_id).position_node_id->0;
                let gid = spec_player(old(game)@.players, player_id).connected_game_id->0;
                &&& (forall|k: int|
                    0 <= k < final(game)@.legal_nodes.len() ==> spec_input_valid(
                        old(game)@,
                        spec_synthetic_movement(
                            player_id,
                            gid,
                            #[trigger] final(game)@.legal_nodes[k],
                        ),
                    ))
                &&& (forall|j: int|
                    0 <= j < old(game)@.map.edges[pos as int].len() && spec_input_valid(
                        old(game)@,
                        spec_synthetic_movement(
                            player_id,
                            gid,
                            (#[trigger] old(game)@.map.edges[pos as int][j]).to,
                        ),
                    ) ==> final(game)@.legal_nodes.contains(
                        old(game)@.map.edges[pos as int][j].to,
                    ))
            }),
    {
        let ghost g0 = game@;
        let player = match game.get_player_with_unique_id(player_id) {
            Ok(p) => p,
            Err(_) => {
                return;
            },
        };
        let current_player_node_id = match player.position_node_id {
            Some(id) => id,
            None => {
                return;
            },
        };
        let connected_game_id = match player.connected_game_id {
            Some(id) => id,
            None => {
                return;
            },
        };
        if (current_player_node_id as usize) >= game.map.edges.len() {
            return;
        }
        let n_edges = game.map.edges[current_player_node_id as usize].len();
        let mut legal_nodes: Vec<u8> = Vec::new();
        let mut i: usize = 0;
        while i < n_edges
            invariant
                i <= n_edges,
                game@ == g0,
                (current_player_node_id as int) < g0.map.edges.len(),
                n_edges == g0.map.edges[current_player_node_id as int].len(),
                connected_game_id == spec_player(g0.players, player_id).connected_game_id->0,
                forall|k: int|
                    0 <= k < legal_nodes@.len() ==> spec_input_valid(
                        g0,
                        spec_synthetic_movement(
                            player_id,
                            connected_game_id,
                            #[trigger] legal_nodes@[k],
                        ),
                    ),
                forall|j: int|
                    0 <= j < i && spec_input_valid(
                        g0,
                        spec_synthetic_movement(
                            player_id,
                            connected_game_id,
                            (#[trigger] g0.map.edges[current_player_node_id as int][j]).to,
                        ),
                    ) ==> legal_nodes@.contains(
                        g0.map.edges[current_player_node_id as int][j].to,
                    ),
            decreases n_edges - i,
        {
            let to = game.map.edges[current_player_node_id as usize][i].to;
            let input = PlayerInput {
                district_modifier: None,
                player_id,
                game_id: connected_game_id,
                input_type: PlayerInputType::Movement,
                related_role: None,
                related_node_id: Some(to),
                situation_card_id: None,
                edge_modifier: None,
                related_bool: None,
            };
            proof {
                assert(input == spec_synthetic_movement(player_id, connected_game_id, to));
            }
            let ghost before_push = legal_nodes@;
            match self.rule_checker.is_input_valid(&*game, &input) {
                None => {
                    legal_nodes.push(to);
                },
                Some(_) => (),
            }
            proof {
                assert forall|j: int|
                    0 <= j < i + 1 && spec_input_valid(
                        g0,
                        spec_synthetic_movement(
                            player_id,
                            connected_game_id,
                            (#[trigger] g0.map.edges[current_player_node_id as int][j]).to,
                        ),
                    ) implies legal_nodes@.contains(
                    g0.map.edges[current_player_node_id as int][j].to,
                ) by {
                    let target = g0.map.edges[current_player_node_id as int][j].to;
                    if j < i {
                        assert(before_push.contains(target));
                        let w = choose|w: int| 0 <= w < before_push.len() && before_push[w] == target;
                        assert(legal_nodes@[w] == target);
                    } else {
                        assert(legal_nodes@[legal_nodes@.len() - 1] == to);
                    }
                }
            }
            i = i + 1;
        }
        game.legal_nodes = legal_nodes;
    }

    /// The core of request handling: resolves the target game,
    /// replays its queue onto a scratch copy, validates the input
    /// against the replayed state, and only then commits; any failure
    /// leaves the controller exactly as it was.
    /// Replays, validates and commits one input against the game at a
    /// known roster position; any failure leaves the controller
    /// exactly as it was.
    #[verifier::spinoff_prover]
    #[verifier::rlimit(100)]
    fn commit_input(&mut self, gi: usize, player_input: PlayerInput) -> (r: Result<
        GameState,
        String,
    >)
        requires
            (gi as int) < old(self)@.games.len(),
            old(self)@.games[gi as int].id == player_input.game_id,
        ensures
            r is Err ==> final(self)@ == old(self)@,
            final(self)@.unique_ids == old(self)@.unique_ids,
            r is Ok ==> {
                &&& spec_input_handled(
                    old(self)@.games[gi as int],
                    final(self)@.games[gi as int],
                    player_input,
                )
                &&& final(self)@.games == old(self)@.games.update(
                    gi as int,
                    final(self)@.games[gi as int],
                )
                &&& (exists|m: GameStateView|
                    #[trigger] spec_actions_applied(
                        old(self)@.games[gi as int],
                        m,
                        old(self)@.games[gi as int].actions,
                    ) && spec_input_valid(m, player_input))
                &&& (exists|m: GameStateView|
                    #[trigger] spec_actions_applied(
                        final(self)@.games[gi as int],
                        m,
                        final(self)@.games[gi as int].actions,
                    ) && r->Ok_0@ == (GameStateView { legal_nodes: r->Ok_0@.legal_nodes, ..m })
                        && (r->Ok_0@.legal_nodes == m.legal_nodes || (forall|k: int|
                        0 <= k < r->Ok_0@.legal_nodes.len() ==> spec_input_valid(
                            m,
                            spec_synthetic_movement(
                                player_input.player_id,
                                spec_player(
                                    m.players,
                                    player_input.player_id,
                                ).connected_game_id->0,
                                #[trigger] r->Ok_0@.legal_nodes[k],
                            ),
                        ))))
            },
            spec_structural_input(player_input.input_type) && old(self)@.games[
                gi as int
            ].actions.len() == 0 && spec_input_valid(old(self)@.games[gi as int], player_input)
                && spec_handle_ok(old(self)@.games[gi as int], player_input) ==> r is Ok,
            player_input.input_type == PlayerInputType::UndoAction && old(self)@.games[
                gi as int
            ].actions.len() == 0 ==> r is Err,
    {
        proof {
            reveal(spec_actions_applied);
        }
        let mut replay = self.games[gi].duplicate();
        match Self::apply_game_actions(&mut replay) {
            Ok(_) => (),
            Err(e) => {
                return Err(e);
            },
        }
        match self.rule_checker.is_input_valid(&replay, &player_input) {
            None => (),
            Some(error) => {
                return Err(error);
            },
        }
        let mut committed = self.games[gi].duplicate();
        match Self::handle_input(player_input, &mut committed) {
            Ok(_) => (),
            Err(e) => {
                return Err(e);
            },
        }
        let mut result = committed.duplicate();
        match Self::apply_game_actions(&mut result) {
            Ok(_) => (),
            Err(e) => {
                proof {
                    if spec_structural_input(player_input.input_type) && old(self)@.games[
                        gi as int
                    ].actions.len() == 0 && spec_input_valid(
                        old(self)@.games[gi as int],
                        player_input,
                    ) && spec_handle_ok(old(self)@.games[gi as int], player_input) {
                        lemma_committed_replay_ok(
                            old(self)@.games[gi as int],
                            committed@,
                            player_input,
                        );
                        assert(false);
                    }
                }
                return Err(e);
            },
        }
        let ghost committed_view = committed@;
        let ghost replayed_view = result@;
        let ghost prev_games = self.games@;
        let ghost prev_view = self@;
        self.games[gi] = committed;
        proof {
            assert(self@.games[gi as int] == self.games@[gi as int]@);
            assert forall|j: int| 0 <= j < prev_games.len() && j != gi implies
                #[trigger] self@.games[j] == prev_view.games[j] by {
                assert(self.games@[j] == prev_games[j]);
                assert(prev_view.games[j] == prev_games[j]@);
            }
            assert(self@.games =~= old(self)@.games.update(gi as int, committed_view));
        }
        self.get_legal_nodes(&mut result, player_input.player_id);
        proof {
            assert(spec_input_handled(
                old(self)@.games[gi as int],
                self@.games[gi as int],
                player_input,
            ));
            assert(spec_actions_applied(
                self@.games[gi as int],
                replayed_view,
                self@.games[gi as int].actions,
            ));
            assert(result@ == (GameStateView {
                legal_nodes: result@.legal_nodes,
                ..replayed_view
            }));
        }
        return Ok(result);
    }

    /// The core of request handling: resolves the target game, then
    /// replays, validates and commits; any failure leaves the
    /// controller exactly as it was.
    fn process_input(&mut self, player_input: PlayerInput) -> (r: Result<GameState, String>)
        ensures
            r is Err ==> final(self)@ == old(self)@,
            final(self)@.unique_ids == old(self)@.unique_ids,
            !spec_id_registered(old(self)@.unique_ids, player_input.player_id) ==> r is Err
                && r->Err_0@ == "There does not exist a player with the unique id"@,
            (spec_id_registered(old(self)@.unique_ids, player_input.player_id) && (forall|k: int|
                0 <= k < old(self)@.games.len() ==> (#[trigger] old(self)@.games[k]).id
                    != player_input.game_id)) ==> r is Err && r->Err_0@
                == "Could not find the game the player has done an input for!"@,
            r is Ok ==> exists|gi: int|
                {
                    &&& 0 <= gi < old(self)@.games.len()
                    &&& (#[trigger] old(self)@.games[gi]).id == player_input.game_id
                    &&& (forall|k: int|
                        0 <= k < gi ==> (#[trigger] old(self)@.games[k]).id
                            != player_input.game_id)
                    &&& spec_input_handled(
                        old(self)@.games[gi],
                        final(self)@.games[gi],
                        player_input,
                    )
                    &&& final(self)@.games == old(self)@.games.update(
                        gi,
                        final(self)@.games[gi],
                    )
                    &&& (exists|m: GameStateView|
                        #[trigger] spec_actions_applied(
                            old(self)@.games[gi],
                            m,
                            old(self)@.games[gi].actions,
                        ) && spec_input_valid(m, player_input))
                    &&& (exists|m: GameStateView|
                        #[trigger] spec_actions_applied(
                            final(self)@.games[gi],
                            m,
                            final(self)@.games[gi].actions,
                        ) && r->Ok_0@ == (GameStateView {
                            legal_nodes: r->Ok_0@.legal_nodes,
                            ..m
                        }) && (r->Ok_0@.legal_nodes == m.legal_nodes || (forall|k: int|
                            0 <= k < r->Ok_0@.legal_nodes.len() ==> spec_input_valid(
                                m,
                                spec_synthetic_movement(
                                    player_input.player_id,
                                    spec_player(
                                        m.players,
                                        player_input.player_id,
                                    ).connected_game_id->0,
                                    #[trigger] r->Ok_0@.legal_nodes[k],
                                ),
                            ))))
                },
            (exists|gi: int|
                {
                    &&& 0 <= gi < old(self)@.games.len()
                    &&& (#[trigger] old(self)@.games[gi]).id == player_input.game_id
                    &&& (forall|k: int|
                        0 <= k < gi ==> (#[trigger] old(self)@.games[k]).id
                            != player_input.game_id)
                    &&& spec_id_registered(old(self)@.unique_ids, player_input.player_id)
                    &&& spec_structural_input(player_input.input_type)
                    &&& old(self)@.games[gi].actions.len() == 0
                    &&& spec_input_valid(old(self)@.games[gi], player_input)
                    &&& spec_handle_ok(old(self)@.games[gi], player_input)
                }) ==> r is Ok,
            (player_input.input_type == PlayerInputType::UndoAction && exists|gi: int|
                0 <= gi < old(self)@.games.len() && (#[trigger] old(self)@.games[gi]).id
                    == player_input.game_id && (forall|k: int|
                    0 <= k < gi ==> (#[trigger] old(self)@.games[k]).id != player_input.game_id)
                    && old(self)@.games[gi].actions.len() == 0) ==> r is Err,
    {
        if !id_is_registered(&self.unique_ids, player_input.player_id) {
            return Err("There does not exist a player with the unique id".to_owned());
        }
        let n = self.games.len();
        let mut gi: usize = 0;
        while gi < n
            invariant
                gi <= n,
                self@ == old(self)@,
                n == self.games.len(),
                forall|k: int|
                    0 <= k < gi ==> (#[trigger] self@.games[k]).id != player_input.game_id,
            decreases n - gi,
        {
            if self.games[gi].id == player_input.game_id {
                return self.commit_input(gi, player_input);
            }
            gi = gi + 1;
        }
        Err("Could not find the game the player has done an input for!".to_owned())
    }

    /// Handles one request: first garbage-collects empty games and
    /// expired identifiers, then resolves, validates and commits the
    /// input with all-or-nothing effect on the target game.
    #[verifier::spinoff_prover]
    #[verifier::rlimit(100)]
    pub fn handle_player_input(&mut self, player_input: PlayerInput) -> (r: Result<
        GameState,
        String,
    >)
        ensures
            exists|mid: GameControllerView|
                {
                    &&& #[trigger] spec_collected(old(self)@, mid)
                    &&& (r is Err ==> final(self)@ == mid)
                    &&& final(self)@.unique_ids == mid.unique_ids
                    &&& (!spec_id_registered(mid.unique_ids, player_input.player_id) ==> r is Err
                        && r->Err_0@ == "There does not exist a player with the unique id"@)
                    &&& ((spec_id_registered(mid.unique_ids, player_input.player_id) && (forall|
                        k: int,
                    |
                        0 <= k < mid.games.len() ==> (#[trigger] mid.games[k]).id
                            != player_input.game_id)) ==> r is Err && r->Err_0@
                        == "Could not find the game the player has done an input for!"@)
                    &&& (r is Ok ==> exists|gi: int|
                        {
                            &&& 0 <= gi < mid.games.len()
                            &&& (#[trigger] mid.games[gi]).id == player_input.game_id
                            &&& (forall|k: int|
                                0 <= k < gi ==> (#[trigger] mid.games[k]).id
                                    != player_input.game_id)
                            &&& spec_input_handled(
                                mid.games[gi],
                                final(self)@.games[gi],
                                player_input,
                            )
                            &&& final(self)@.games == mid.games.update(
                                gi,
                                final(self)@.games[gi],
                            )
                            &&& (exists|m: GameStateView|
                                #[trigger] spec_actions_applied(
                                    mid.games[gi],
                                    m,
                                    mid.games[gi].actions,
                                ) && spec_input_valid(m, player_input))
                            &&& (exists|m: GameStateView|
                                #[trigger] spec_actions_applied(
                                    final(self)@.games[gi],
                                    m,
                                    final(self)@.games[gi].actions,
                                ) && r->Ok_0@ == (GameStateView {
                                    legal_nodes: r->Ok_0@.legal_nodes,
                                    ..m
                                }) && (r->Ok_0@.legal_nodes == m.legal_nodes || (forall|k: int|
                                    0 <= k < r->Ok_0@.legal_nodes.len() ==> spec_input_valid(
                                        m,
                                        spec_synthetic_movement(
                                            player_input.player_id,
                                            spec_player(
                                                m.players,
                                                player_input.player_id,
                                            ).connected_game_id->0,
                                            #[trigger] r->Ok_0@.legal_nodes[k],
                                        ),
                                    ))))
                        })
                    &&& ((exists|gi: int|
                        {
                            &&& 0 <= gi < mid.games.len()
                            &&& (#[trigger] mid.games[gi]).id == player_input.game_id
                            &&& (forall|k: int|
                                0 <= k < gi ==> (#[trigger] mid.games[k]).id
                                    != player_input.game_id)
                            &&& spec_id_registered(mid.unique_ids, player_input.player_id)
                            &&& spec_structural_input(player_input.input_type)
                            &&& mid.games[gi].actions.len() == 0
                            &&& spec_input_valid(mid.games[gi], player_input)
                            &&& spec_handle_ok(mid.games[gi], player_input)
                        }) ==> r is Ok)
                    &&& ((player_input.input_type == PlayerInputType::UndoAction && exists|
                        gi: int,
                    |
                        0 <= gi < mid.games.len() && (#[trigger] mid.games[gi]).id
                            == player_input.game_id && (forall|k: int|
                            0 <= k < gi ==> (#[trigger] mid.games[k]).id != player_input.game_id)
                            && mid.games[gi].actions.len() == 0) ==> r is Err)
                },
    {
        self.remove_empty_games();
        let ghost c1 = self@;
        self.remove_inactive_ids();
        let ghost mid = self@;
        proof {
            let now = choose|now: u64| mid.unique_ids == spec_live_ids(c1.unique_ids, now);
            assert(mid.unique_ids == spec_live_ids(old(self)@.unique_ids, now));
            assert(spec_collected(old(self)@, mid));
        }
        let r = self.process_input(player_input);
        r
    }
}

/// What the garbage-collection pass leaves: empty games dropped, then
/// expired identifiers purged at some instant and their players
/// removed from every remaining game.
pub open spec fn spec_collected(c: GameControllerView, c2: GameControllerView) -> bool {
    exists|now: u64|
        {
            let games1 = spec_nonempty_games(c.games);
            &&& c2.unique_ids == #[trigger] spec_live_ids(c.unique_ids, now)
            &&& c2.games.len() == games1.len()
            &&& (forall|j: int|
                0 <= j < games1.len() ==> #[trigger] c2.games[j] == (GameStateView {
                    players: spec_live_players(games1[j].players, c2.unique_ids),
                    ..games1[j]
                }))
            &&& (spec_ids_distinct(c.unique_ids) ==> spec_ids_distinct(c2.unique_ids))
        }
}

} // verus!
