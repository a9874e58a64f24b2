//! Objective cards, situation cards and the static situation-card
//! catalogue.
//!
//! A situation card is a scenario definition: a per-district traffic
//! table plus the pool of objective cards handed out at game start. The
//! catalogue is a read-only table; a game only ever stores a copy.

use vstd::prelude::*;

use crate::constants::HEAVY_VEHICLE_INCLUSIVE_THRESHOLD;
use crate::enums::{District, RestrictionType, Traffic, TypeEntitiesToTransport};

verus! {

/// The traffic level of one district, one row of a cost table.
#[derive(Clone, Copy, Debug, PartialEq, Eq, Structural)]
pub struct CostTuple {
    pub neighbourhood: District,
    pub traffic: Traffic,
}

impl CostTuple {
    /// Pairs a district with a traffic level.
    pub fn new(neighbourhood: District, traffic: Traffic) -> (r: Self)
        ensures
            r == (CostTuple { neighbourhood, traffic }),
    {
        Self { neighbourhood, traffic }
    }
}

/// A player's private mission: pick cargo up at one node and deliver it
/// to another, possibly only with special vehicle types.
#[derive(Clone, Debug, PartialEq, Eq)]
pub struct PlayerObjectiveCard {
    pub name: String,
    pub start_node_id: u8,
    pub pick_up_node_id: u8,
    pub drop_off_node_id: u8,
    pub special_vehicle_types: Vec<RestrictionType>,
    pub picked_package_up: bool,
    pub dropped_package_off: bool,
    pub type_of_entities_to_transport: TypeEntitiesToTransport,
    pub amount_of_entities: u32,
}

/// The mathematical value of a [`PlayerObjectiveCard`].
pub ghost struct PlayerObjectiveCardView {
    pub name: Seq<char>,
    pub start_node_id: u8,
    pub pick_up_node_id: u8,
    pub drop_off_node_id: u8,
    pub special_vehicle_types: Seq<RestrictionType>,
    pub picked_package_up: bool,
    pub dropped_package_off: bool,
    pub type_of_entities_to_transport: TypeEntitiesToTransport,
    pub amount_of_entities: u32,
}

impl View for PlayerObjectiveCard {
    type V = PlayerObjectiveCardView;

    open spec fn view(&self) -> PlayerObjectiveCardView {
        PlayerObjectiveCardView {
            name: self.name@,
            start_node_id: self.start_node_id,
            pick_up_node_id: self.pick_up_node_id,
            drop_off_node_id: self.drop_off_node_id,
            special_vehicle_types: self.special_vehicle_types@,
            picked_package_up: self.picked_package_up,
            dropped_package_off: self.dropped_package_off,
            type_of_entities_to_transport: self.type_of_entities_to_transport,
            amount_of_entities: self.amount_of_entities,
        }
    }
}

impl PlayerObjectiveCard {
    /// Builds a card; cargo amounts at or above the heavy threshold add
    /// the heavy vehicle type to the required list.
    pub fn new(
        name: String,
        start_node_id: u8,
        pick_up_node_id: u8,
        drop_off_node_id: u8,
        vehicle_types: Vec<RestrictionType>,
        type_of_entities_to_transport: TypeEntitiesToTransport,
        amount_of_entities: u32,
    ) -> (r: Self)
        ensures
            r@.name == name@,
            r@.start_node_id == start_node_id,
            r@.pick_up_node_id == pick_up_node_id,
            r@.drop_off_node_id == drop_off_node_id,
            r@.special_vehicle_types == if amount_of_entities >= HEAVY_VEHICLE_INCLUSIVE_THRESHOLD {
                vehicle_types@.push(RestrictionType::Heavy)
            } else {
                vehicle_types@
            },
            !r@.picked_package_up,
            !r@.dropped_package_off,
            r@.type_of_entities_to_transport == type_of_entities_to_transport,
            r@.amount_of_entities == amount_of_entities,
    {
        let mut special_vehicle_types = vehicle_types;
        if amount_of_entities >= HEAVY_VEHICLE_INCLUSIVE_THRESHOLD {
            special_vehicle_types.push(RestrictionType::Heavy);
        }
        Self {
            start_node_id,
            pick_up_node_id,
            drop_off_node_id,
            special_vehicle_types,
            picked_package_up: false,
            dropped_package_off: false,
            name,
            amount_of_entities,
            type_of_entities_to_transport,
        }
    }

    /// A copy whose mathematical value equals this card's.
    pub fn duplicate(&self) -> (r: Self)
        ensures
            r@ == self@,
    {
        let mut vehicles: Vec<RestrictionType> = Vec::new();
        let mut i: usize = 0;
        while i < self.special_vehicle_types.len()
            invariant
                i <= self.special_vehicle_types.len(),
                vehicles@ == self.special_vehicle_types@.subrange(0, i as int),
            decreases self.special_vehicle_types.len() - i,
        {
            vehicles.push(self.special_vehicle_types[i]);
            i = i + 1;
        }
        proof {
            assert(vehicles@ =~= self.special_vehicle_types@);
        }
        Self {
            name: self.name.clone(),
            start_node_id: self.start_node_id,
            pick_up_node_id: self.pick_up_node_id,
            drop_off_node_id: self.drop_off_node_id,
            special_vehicle_types: vehicles,
            picked_package_up: self.picked_package_up,
            dropped_package_off: self.dropped_package_off,
            type_of_entities_to_transport: self.type_of_entities_to_transport,
            amount_of_entities: self.amount_of_entities,
        }
    }

    /// Whether the required-vehicle list holds the given type.
    pub fn requires_vehicle(&self, vehicle: RestrictionType) -> (r: bool)
        ensures
            r == self@.special_vehicle_types.contains(vehicle),
    {
        let mut i: usize = 0;
        while i < self.special_vehicle_types.len()
            invariant
                i <= self.special_vehicle_types.len(),
                forall|j: int| 0 <= j < i ==> self.special_vehicle_types@[j] != vehicle,
            decreases self.special_vehicle_types.len() - i,
        {
            if self.special_vehicle_types[i] == vehicle {
                return true;
            }
            i = i + 1;
        }
        false
    }
}

/// A scenario definition: identity, descriptive text, a per-district
/// traffic table, and the objective cards to distribute at game start.
#[derive(Clone, Debug, PartialEq, Eq)]
pub struct SituationCard {
    pub card_id: u8,
    pub title: String,
    pub description: String,
    pub goal: String,
    pub costs: Vec<CostTuple>,
    pub objective_cards: Vec<PlayerObjectiveCard>,
}

/// The mathematical value of a [`SituationCard`].
pub ghost struct SituationCardView {
    pub card_id: u8,
    pub title: Seq<char>,
    pub description: Seq<char>,
    pub goal: Seq<char>,
    pub costs: Seq<CostTuple>,
    pub objective_cards: Seq<PlayerObjectiveCardView>,
}

impl View for SituationCard {
    type V = SituationCardView;

    open spec fn view(&self) -> SituationCardView {
        SituationCardView {
            card_id: self.card_id,
            title: self.title@,
            description: self.description@,
            goal: self.goal@,
            costs: self.costs@,
            objective_cards: self.objective_cards@.map_values(|c: PlayerObjectiveCard| c@),
        }
    }
}

impl SituationCard {
    /// Bundles the parts of a scenario into a card.
    pub fn new(
        card_id: u8,
        title: String,
        description: String,
        goal: String,
        costs: Vec<CostTuple>,
        objective_cards: Vec<PlayerObjectiveCard>,
    ) -> (r: Self)
        ensures
            r@.card_id == card_id,
            r@.title == title@,
            r@.description == description@,
            r@.goal == goal@,
            r@.costs == costs@,
            r@.objective_cards == objective_cards@.map_values(|c: PlayerObjectiveCard| c@),
    {
        Self { card_id, title, description, goal, costs, objective_cards }
    }

    /// A copy whose mathematical value equals this card's.
    pub fn duplicate(&self) -> (r: Self)
        ensures
            r@ == self@,
    {
        let mut costs: Vec<CostTuple> = Vec::new();
        let mut i: usize = 0;
        while i < self.costs.len()
            invariant
                i <= self.costs.len(),
                costs@ == self.costs@.subrange(0, i as int),
            decreases self.costs.len() - i,
        {
            costs.push(self.costs[i]);
            i = i + 1;
        }
        let mut objectives: Vec<PlayerObjectiveCard> = Vec::new();
        let mut j: usize = 0;
        while j < self.objective_cards.len()
            invariant
                j <= self.objective_cards.len(),
                objectives@.len() == j,
                forall|k: int| 0 <= k < j ==> objectives@[k]@ == self.objective_cards@[k]@,
            decreases self.objective_cards.len() - j,
        {
            objectives.push(self.objective_cards[j].duplicate());
            j = j + 1;
        }
        proof {
            assert(costs@ =~= self.costs@);
            assert(objectives@.map_values(|c: PlayerObjectiveCard| c@)
                =~= self.objective_cards@.map_values(|c: PlayerObjectiveCard| c@));
        }
        Self {
            card_id: self.card_id,
            title: self.title.clone(),
            description: self.description.clone(),
            goal: self.goal.clone(),
            costs,
            objective_cards: objectives,
        }
    }
}

} // verus!
