//! The static situation-card catalogue: five scenarios, each with a
//! per-district traffic table and six objective cards.

use vstd::prelude::*;

use crate::cards::{CostTuple, PlayerObjectiveCard, SituationCard};
use crate::enums::{District, RestrictionType, Traffic, TypeEntitiesToTransport};

verus! {

/// A list of situation cards, the shape in which the catalogue is
/// handed to clients.
#[derive(Clone, Debug, PartialEq, Eq)]
pub struct SituationCardList {
    pub situation_cards: Vec<SituationCard>,
}

impl SituationCardList {
    /// Wraps a vector of situation cards.
    pub fn new(situation_cards: Vec<SituationCard>) -> (r: Self)
        ensures
            r.situation_cards@ == situation_cards@,
    {
        Self { situation_cards }
    }

    /// Looks a card up in the catalogue by its identity; the lookup
    /// succeeds exactly for the identities the catalogue holds.
    pub fn get_default_situation_card_by_id(id: u8) -> (r: Result<SituationCard, String>)
        ensures
            r is Ok <==> 1 <= id <= 5,
            r is Ok ==> r->Ok_0@.card_id == id
                && r->Ok_0@.costs == spec_catalog_costs(id as int)
                && r->Ok_0@.objective_cards.len() == 6,
    {
        let situation_cards = situation_card_list_wrapper();
        let cards = situation_cards.situation_cards;
        let mut i: usize = 0;
        while i < cards.len()
            invariant
                i <= cards.len(),
                cards@.len() == 5,
                forall|k: int| #![trigger cards@[k]]
                    0 <= k < 5 ==> cards@[k]@.card_id == k + 1
                        && cards@[k]@.costs == spec_catalog_costs(k + 1)
                        && cards@[k]@.objective_cards.len() == 6,
                forall|k: int| 0 <= k < i ==> cards@[k]@.card_id != id,
            decreases cards.len() - i,
        {
            if cards[i].card_id == id {
                return Ok(cards[i].duplicate());
            }
            i = i + 1;
        }
        proof {
            if 1 <= id <= 5 {
                assert(cards@[id - 1]@.card_id == id);
                assert(false);
            }
        }
        Err("There was no card with the given ID".to_owned())
    }
}

/// The order in which every catalogue cost table lists the districts.
pub open spec fn spec_cost_table_districts() -> Seq<District> {
    seq![
        District::IndustryPark,
        District::Suburbs,
        District::Port,
        District::RingRoad,
        District::CityCentre,
        District::Airport,
    ]
}

/// The traffic levels of the catalogue card with the given identity, in
/// the order of [`spec_cost_table_districts`].
pub open spec fn spec_catalog_traffic(id: int) -> Seq<Traffic> {
    if id == 1 {
        seq![
            Traffic::LevelOne,
            Traffic::LevelOne,
            Traffic::LevelOne,
            Traffic::LevelOne,
            Traffic::LevelOne,
            Traffic::LevelOne,
        ]
    } else if id == 2 {
        seq![
            Traffic::LevelOne,
            Traffic::LevelOne,
            Traffic::LevelOne,
            Traffic::LevelThree,
            Traffic::LevelFive,
            Traffic::LevelOne,
        ]
    } else if id == 3 {
        seq![
            Traffic::LevelOne,
            Traffic::LevelOne,
            Traffic::LevelOne,
            Traffic::LevelThree,
            Traffic::LevelOne,
            Traffic::LevelOne,
        ]
    } else if id == 4 {
        seq![
            Traffic::LevelOne,
            Traffic::LevelOne,
            Traffic::LevelThree,
            Traffic::LevelFive,
            Traffic::LevelThree,
            Traffic::LevelOne,
        ]
    } else {
        seq![
            Traffic::LevelOne,
            Traffic::LevelTwo,
            Traffic::LevelOne,
            Traffic::LevelFour,
            Traffic::LevelOne,
            Traffic::LevelFour,
        ]
    }
}

/// The cost table of the catalogue card with the given identity.
pub open spec fn spec_catalog_costs(id: int) -> Seq<CostTuple> {
    Seq::new(6, |j: int| CostTuple {
        neighbourhood: spec_cost_table_districts()[j],
        traffic: spec_catalog_traffic(id)[j],
    })
}

/// The catalogue as a [`SituationCardList`].
pub fn situation_card_list_wrapper() -> (r: SituationCardList)
    ensures
        r.situation_cards@.len() == 5,
        forall|i: int| #![trigger r.situation_cards@[i]]
            0 <= i < 5 ==> r.situation_cards@[i]@.card_id == i + 1
                && r.situation_cards@[i]@.costs == spec_catalog_costs(i + 1)
                && r.situation_cards@[i]@.objective_cards.len() == 6,
{
    SituationCardList::new(situation_card_list())
}

/// One cost table of the catalogue, from six traffic levels in the
/// order of [`spec_cost_table_districts`].
fn cost_table(t: [Traffic; 6]) -> (r: Vec<CostTuple>)
    ensures
        r@.len() == 6,
        forall|j: int| #![trigger r@[j]]
            0 <= j < 6 ==> r@[j] == (CostTuple {
                neighbourhood: spec_cost_table_districts()[j],
                traffic: t@[j],
            }),
{
    let mut costs: Vec<CostTuple> = Vec::new();
    costs.push(CostTuple::new(District::IndustryPark, t[0]));
    costs.push(CostTuple::new(District::Suburbs, t[1]));
    costs.push(CostTuple::new(District::Port, t[2]));
    costs.push(CostTuple::new(District::RingRoad, t[3]));
    costs.push(CostTuple::new(District::CityCentre, t[4]));
    costs.push(CostTuple::new(District::Airport, t[5]));
    costs
}

/// The five catalogue cards, in order of their identities.
pub fn situation_card_list() -> (r: Vec<SituationCard>)
    ensures
        r@.len() == 5,
        forall|i: int| #![trigger r@[i]]
            0 <= i < 5 ==> r@[i]@.card_id == i + 1
                && r@[i]@.costs == spec_catalog_costs(i + 1)
                && r@[i]@.objective_cards.len() == 6,
{
    let mut cards: Vec<SituationCard> = Vec::new();

    let costs1 = cost_table([
        Traffic::LevelOne,
        Traffic::LevelOne,
        Traffic::LevelOne,
        Traffic::LevelOne,
        Traffic::LevelOne,
        Traffic::LevelOne,
    ]);
    proof {
        assert(costs1@ =~= spec_catalog_costs(1));
    }
    let mut objectives1: Vec<PlayerObjectiveCard> = Vec::new();
    objectives1.push(PlayerObjectiveCard::new(
        "Packages".to_owned(), 13, 7, 15, Vec::new(), TypeEntitiesToTransport::Packages, 5,
    ));
    objectives1.push(PlayerObjectiveCard::new(
        "Passengers".to_owned(), 8, 11, 27, electric_only(), TypeEntitiesToTransport::People, 3,
    ));
    objectives1.push(PlayerObjectiveCard::new(
        "Passengers".to_owned(), 15, 23, 2, Vec::new(), TypeEntitiesToTransport::People, 4,
    ));
    objectives1.push(PlayerObjectiveCard::new(
        "Passengers".to_owned(), 17, 22, 14, electric_only(), TypeEntitiesToTransport::People, 4,
    ));
    objectives1.push(PlayerObjectiveCard::new(
        "Passengers".to_owned(), 5, 12, 28, Vec::new(), TypeEntitiesToTransport::People, 3,
    ));
    objectives1.push(PlayerObjectiveCard::new(
        "Passengers".to_owned(), 11, 14, 24, Vec::new(), TypeEntitiesToTransport::People, 3,
    ));
    cards.push(SituationCard::new(
        1,
        "Regular traffic".to_owned(),
        "Regular traffic in all zones.".to_owned(),
        "Facilitate transport operations. Rewards green behavior.".to_owned(),
        costs1,
        objectives1,
    ));

    let costs2 = cost_table([
        Traffic::LevelOne,
        Traffic::LevelOne,
        Traffic::LevelOne,
        Traffic::LevelThree,
        Traffic::LevelFive,
        Traffic::LevelOne,
    ]);
    proof {
        assert(costs2@ =~= spec_catalog_costs(2));
    }
    let mut objectives2: Vec<PlayerObjectiveCard> = Vec::new();
    objectives2.push(PlayerObjectiveCard::new(
        "Passengers".to_owned(), 8, 14, 12, Vec::new(), TypeEntitiesToTransport::People, 4,
    ));
    objectives2.push(PlayerObjectiveCard::new(
        "Passengers".to_owned(), 14, 28, 12, Vec::new(), TypeEntitiesToTransport::People, 5,
    ));
    objectives2.push(PlayerObjectiveCard::new(
        "Passengers".to_owned(), 24, 22, 12, Vec::new(), TypeEntitiesToTransport::People, 5,
    ));
    objectives2.push(PlayerObjectiveCard::new(
        "Passengers".to_owned(), 22, 10, 12, electric_only(), TypeEntitiesToTransport::People, 3,
    ));
    objectives2.push(PlayerObjectiveCard::new(
        "Passengers".to_owned(), 5, 13, 28, Vec::new(), TypeEntitiesToTransport::People, 4,
    ));
    objectives2.push(PlayerObjectiveCard::new(
        "Packages".to_owned(), 23, 10, 2, Vec::new(), TypeEntitiesToTransport::Packages, 5,
    ));
    cards.push(SituationCard::new(
        2,
        "Concert".to_owned(),
        "City centre is crowded. Reduced capacity for traffic.".to_owned(),
        "Facilitate transport of people to concert. Limit other traffic in city centre to what is necesary.".to_owned(),
        costs2,
        objectives2,
    ));

    let costs3 = cost_table([
        Traffic::LevelOne,
        Traffic::LevelOne,
        Traffic::LevelOne,
        Traffic::LevelThree,
        Traffic::LevelOne,
        Traffic::LevelOne,
    ]);
    proof {
        assert(costs3@ =~= spec_catalog_costs(3));
    }
    let mut objectives3: Vec<PlayerObjectiveCard> = Vec::new();
    objectives3.push(PlayerObjectiveCard::new(
        "Evacuate".to_owned(), 4, 0, 10, emergency_only(), TypeEntitiesToTransport::People, 4,
    ));
    objectives3.push(PlayerObjectiveCard::new(
        "Dangerous goods".to_owned(), 9, 0, 17, hazard_and_emergency(), TypeEntitiesToTransport::Packages, 4,
    ));
    objectives3.push(PlayerObjectiveCard::new(
        "Ambulance".to_owned(), 15, 0, 15, emergency_only(), TypeEntitiesToTransport::People, 2,
    ));
    objectives3.push(PlayerObjectiveCard::new(
        "Evacuate".to_owned(), 5, 1, 17, hazard_and_emergency(), TypeEntitiesToTransport::Packages, 3,
    ));
    objectives3.push(PlayerObjectiveCard::new(
        "Passengers".to_owned(), 24, 22, 10, Vec::new(), TypeEntitiesToTransport::People, 4,
    ));
    objectives3.push(PlayerObjectiveCard::new(
        "Packages".to_owned(), 5, 5, 23, Vec::new(), TypeEntitiesToTransport::Packages, 5,
    ));
    cards.push(SituationCard::new(
        3,
        "Gas Leakage".to_owned(),
        "Gas leakage in Industry Park zone. Health and explosion risk.".to_owned(),
        "Evacuate people and dangerous goods from the area. Safety comes first.".to_owned(),
        costs3,
        objectives3,
    ));

    let costs4 = cost_table([
        Traffic::LevelOne,
        Traffic::LevelOne,
        Traffic::LevelThree,
        Traffic::LevelFive,
        Traffic::LevelThree,
        Traffic::LevelOne,
    ]);
    proof {
        assert(costs4@ =~= spec_catalog_costs(4));
    }
    let mut objectives4: Vec<PlayerObjectiveCard> = Vec::new();
    objectives4.push(PlayerObjectiveCard::new(
        "Ambulance".to_owned(), 15, 19, 14, emergency_only(), TypeEntitiesToTransport::People, 1,
    ));
    objectives4.push(PlayerObjectiveCard::new(
        "Car removal".to_owned(), 14, 19, 14, emergency_only(), TypeEntitiesToTransport::Packages, 1,
    ));
    objectives4.push(PlayerObjectiveCard::new(
        "Passengers".to_owned(), 16, 16, 28, Vec::new(), TypeEntitiesToTransport::People, 5,
    ));
    objectives4.push(PlayerObjectiveCard::new(
        "Passengers".to_owned(), 17, 20, 28, electric_only(), TypeEntitiesToTransport::People, 3,
    ));
    objectives4.push(PlayerObjectiveCard::new(
        "Passengers".to_owned(), 27, 27, 15, electric_only(), TypeEntitiesToTransport::People, 4,
    ));
    objectives4.push(PlayerObjectiveCard::new(
        "Packages".to_owned(), 23, 24, 7, Vec::new(), TypeEntitiesToTransport::Packages, 5,
    ));
    cards.push(SituationCard::new(
        4,
        "Accident".to_owned(),
        "Accident in ring road section I6 - I7. Traffic blocked in east-bound lanes".to_owned(),
        "Support emergency services. Coordinate with other zones.".to_owned(),
        costs4,
        objectives4,
    ));

    let costs5 = cost_table([
        Traffic::LevelOne,
        Traffic::LevelTwo,
        Traffic::LevelOne,
        Traffic::LevelFour,
        Traffic::LevelOne,
        Traffic::LevelFour,
    ]);
    proof {
        assert(costs5@ =~= spec_catalog_costs(5));
    }
    let mut objectives5: Vec<PlayerObjectiveCard> = Vec::new();
    objectives5.push(PlayerObjectiveCard::new(
        "Passengers".to_owned(), 23, 10, 27, electric_only(), TypeEntitiesToTransport::People, 4,
    ));
    objectives5.push(PlayerObjectiveCard::new(
        "Passengers".to_owned(), 0, 2, 27, Vec::new(), TypeEntitiesToTransport::People, 4,
    ));
    objectives5.push(PlayerObjectiveCard::new(
        "Passengers".to_owned(), 5, 7, 28, Vec::new(), TypeEntitiesToTransport::People, 5,
    ));
    objectives5.push(PlayerObjectiveCard::new(
        "Passengers".to_owned(), 16, 10, 28, Vec::new(), TypeEntitiesToTransport::People, 4,
    ));
    objectives5.push(PlayerObjectiveCard::new(
        "Passengers".to_owned(), 14, 10, 27, Vec::new(), TypeEntitiesToTransport::People, 4,
    ));
    objectives5.push(PlayerObjectiveCard::new(
        "Packages".to_owned(), 23, 24, 8, Vec::new(), TypeEntitiesToTransport::Packages, 5,
    ));
    cards.push(SituationCard::new(
        5,
        "Airport train stops".to_owned(),
        "No train from City Centre to Airport during rush hours. Delays for passengers.".to_owned(),
        "Passengers reach airport in time.".to_owned(),
        costs5,
        objectives5,
    ));

    cards
}

/// A one-entry vehicle list holding the electric type.
fn electric_only() -> (r: Vec<RestrictionType>)
    ensures
        r@ =~= seq![RestrictionType::Electric],
{
    let mut v: Vec<RestrictionType> = Vec::new();
    v.push(RestrictionType::Electric);
    v
}

/// A one-entry vehicle list holding the emergency type.
fn emergency_only() -> (r: Vec<RestrictionType>)
    ensures
        r@ =~= seq![RestrictionType::Emergency],
{
    let mut v: Vec<RestrictionType> = Vec::new();
    v.push(RestrictionType::Emergency);
    v
}

/// A two-entry vehicle list holding the hazard and emergency types.
fn hazard_and_emergency() -> (r: Vec<RestrictionType>)
    ensures
        r@ =~= seq![RestrictionType::Hazard, RestrictionType::Emergency],
{
    let mut v: Vec<RestrictionType> = Vec::new();
    v.push(RestrictionType::Hazard);
    v.push(RestrictionType::Emergency);
    v
}

} // verus!
