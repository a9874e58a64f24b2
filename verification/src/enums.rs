//! The closed vocabularies of the game: districts, seats, input kinds,
//! edge restrictions, traffic levels and cargo kinds.

use vstd::prelude::*;

verus! {

/// A named zone of the city graph. Every edge belongs to exactly one
/// district, and a district carries its own base movement cost.
#[derive(Debug, Copy, Clone, PartialEq, Eq, Structural)]
pub enum District {
    IndustryPark,
    Port,
    Suburbs,
    RingRoad,
    CityCentre,
    Airport,
}

impl District {
    /// The first district in the fixed enumeration order.
    pub fn first() -> (r: Self)
        ensures
            r == District::IndustryPark,
    {
        Self::IndustryPark
    }

    /// The district after this one in the fixed enumeration order, or
    /// `None` after the last.
    pub fn next(&self) -> (r: Option<Self>)
        ensures
            r == spec_district_next(*self),
    {
        match self {
            Self::IndustryPark => Some(Self::Port),
            Self::Port => Some(Self::Suburbs),
            Self::Suburbs => Some(Self::RingRoad),
            Self::RingRoad => Some(Self::CityCentre),
            Self::CityCentre => Some(Self::Airport),
            Self::Airport => None,
        }
    }
}

/// The position of a district in the fixed enumeration order that
/// [`District::first`] and [`District::next`] walk.
pub open spec fn spec_district_order(d: District) -> int {
    match d {
        District::IndustryPark => 0,
        District::Port => 1,
        District::Suburbs => 2,
        District::RingRoad => 3,
        District::CityCentre => 4,
        District::Airport => 5,
    }
}

/// What [`District::next`] returns for each district.
pub open spec fn spec_district_next(d: District) -> Option<District> {
    match d {
        District::IndustryPark => Some(District::Port),
        District::Port => Some(District::Suburbs),
        District::Suburbs => Some(District::RingRoad),
        District::RingRoad => Some(District::CityCentre),
        District::CityCentre => Some(District::Airport),
        District::Airport => None,
    }
}

/// The seat a player holds inside one game: not yet chosen, one of six
/// numbered player seats, or the privileged orchestrator seat.
#[derive(Clone, Copy, PartialEq, Eq, Debug, Structural)]
pub enum InGameID {
    Undecided,
    PlayerOne,
    PlayerTwo,
    PlayerThree,
    PlayerFour,
    PlayerFive,
    PlayerSix,
    Orchestrator,
}

impl InGameID {
    /// The seat whose turn follows this one in the rotation. Numbered
    /// seats cycle upward and wrap to the orchestrator; the orchestrator
    /// hands over to seat one.
    pub fn next(&self) -> (r: Self)
        ensures
            r == spec_in_game_id_next(*self),
    {
        match self {
            Self::Undecided => Self::Orchestrator,
            Self::PlayerOne => Self::PlayerTwo,
            Self::PlayerTwo => Self::PlayerThree,
            Self::PlayerThree => Self::PlayerFour,
            Self::PlayerFour => Self::PlayerFive,
            Self::PlayerFive => Self::PlayerSix,
            Self::PlayerSix => Self::Orchestrator,
            Self::Orchestrator => Self::PlayerOne,
        }
    }
}

/// What [`InGameID::next`] returns for each seat.
pub open spec fn spec_in_game_id_next(id: InGameID) -> InGameID {
    match id {
        InGameID::Undecided => InGameID::Orchestrator,
        InGameID::PlayerOne => InGameID::PlayerTwo,
        InGameID::PlayerTwo => InGameID::PlayerThree,
        InGameID::PlayerThree => InGameID::PlayerFour,
        InGameID::PlayerFour => InGameID::PlayerFive,
        InGameID::PlayerFive => InGameID::PlayerSix,
        InGameID::PlayerSix => InGameID::Orchestrator,
        InGameID::Orchestrator => InGameID::PlayerOne,
    }
}

/// The kind of a player request. `All` never occurs in a request; the
/// rule engine uses it to tag rules that apply to every kind.
#[derive(Clone, Copy, PartialEq, Eq, Debug, Structural)]
pub enum PlayerInputType {
    Movement,
    ChangeRole,
    All,
    NextTurn,
    UndoAction,
    ModifyDistrict,
    StartGame,
    AssignSituationCard,
    LeaveGame,
    ModifyEdgeRestrictions,
    SetPlayerBusBool,
    SetPlayerTrainBool,
}

/// A tag on one road segment limiting who may traverse it, and also the
/// vocabulary of special vehicle types. `OneWay` only ever appears on
/// edges, never as a district restriction or a vehicle type.
#[derive(Debug, Copy, Clone, Eq, PartialEq, Structural)]
pub enum RestrictionType {
    ParkAndRide,
    Electric,
    Emergency,
    Hazard,
    Destination,
    Heavy,
    OneWay,
}

impl RestrictionType {
    /// How many levels the traffic of a district rises when an access
    /// modifier admits this vehicle type.
    pub fn times_to_increase_traffic_when_access(&self) -> (r: usize)
        ensures
            r == spec_times_to_increase_traffic_when_access(*self),
    {
        match self {
            Self::ParkAndRide => 0,
            Self::Electric => 2,
            Self::Emergency => 0,
            Self::Hazard => 1,
            Self::Destination => 1,
            Self::Heavy => 1,
            Self::OneWay => 0,
        }
    }
}

/// What [`RestrictionType::times_to_increase_traffic_when_access`]
/// returns for each vehicle type.
pub open spec fn spec_times_to_increase_traffic_when_access(r: RestrictionType) -> usize {
    match r {
        RestrictionType::ParkAndRide => 0usize,
        RestrictionType::Electric => 2usize,
        RestrictionType::Emergency => 0usize,
        RestrictionType::Hazard => 1usize,
        RestrictionType::Destination => 1usize,
        RestrictionType::Heavy => 1usize,
        RestrictionType::OneWay => 0usize,
    }
}

/// The congestion level of a district, from free-flowing to jammed.
#[derive(Clone, Copy, PartialEq, Eq, Debug, Structural)]
pub enum Traffic {
    LevelOne,
    LevelTwo,
    LevelThree,
    LevelFour,
    LevelFive,
}

impl Traffic {
    /// The base movement cost that this traffic level puts on a district.
    pub fn get_movement_cost(&self) -> (r: i16)
        ensures
            r == spec_traffic_cost(*self),
    {
        match self {
            Self::LevelOne => 0,
            Self::LevelTwo => 0,
            Self::LevelThree => 1,
            Self::LevelFour => 2,
            Self::LevelFive => 4,
        }
    }

    /// The next higher traffic level; the highest level stays put.
    pub fn increased(&self) -> (r: Self)
        ensures
            r == spec_traffic_increased(*self),
    {
        match self {
            Self::LevelOne => Self::LevelTwo,
            Self::LevelTwo => Self::LevelThree,
            Self::LevelThree => Self::LevelFour,
            Self::LevelFour => Self::LevelFive,
            Self::LevelFive => Self::LevelFive,
        }
    }
}

/// What [`Traffic::get_movement_cost`] returns for each level.
pub open spec fn spec_traffic_cost(t: Traffic) -> i16 {
    match t {
        Traffic::LevelOne => 0i16,
        Traffic::LevelTwo => 0i16,
        Traffic::LevelThree => 1i16,
        Traffic::LevelFour => 2i16,
        Traffic::LevelFive => 4i16,
    }
}

/// What [`Traffic::increased`] returns for each level.
pub open spec fn spec_traffic_increased(t: Traffic) -> Traffic {
    match t {
        Traffic::LevelOne => Traffic::LevelTwo,
        Traffic::LevelTwo => Traffic::LevelThree,
        Traffic::LevelThree => Traffic::LevelFour,
        Traffic::LevelFour => Traffic::LevelFive,
        Traffic::LevelFive => Traffic::LevelFive,
    }
}

/// Raising a traffic level `n` times, as [`Traffic::increased`] does.
pub open spec fn spec_traffic_increased_times(t: Traffic, n: nat) -> Traffic
    decreases n,
{
    if n == 0 {
        t
    } else {
        spec_traffic_increased_times(spec_traffic_increased(t), (n - 1) as nat)
    }
}

/// What an objective card asks a player to carry.
#[derive(Debug, Copy, Clone, Eq, PartialEq, Structural)]
pub enum TypeEntitiesToTransport {
    People,
    Packages,
}

/// A zone-wide rule kind: access limits entry, priority grants bonus
/// moves, toll charges money.
#[derive(Debug, Copy, Clone, Eq, PartialEq, Structural)]
pub enum DistrictModifierType {
    Access,
    Priority,
    Toll,
}

} // verus!
