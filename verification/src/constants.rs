//! Tunable limits and starting values of the game rules.

use vstd::prelude::*;

verus! {

/// Highest number of players that one game can hold, the orchestrator included.
pub const MAX_PLAYER_COUNT: usize = 7;

/// Highest number of toll modifiers per district.
pub const MAX_TOLL_MODIFIER_COUNT: usize = 1;

/// Highest number of access modifiers per district.
pub const MAX_ACCESS_MODIFIER_COUNT: usize = 2;

/// Highest number of priority modifiers per district.
pub const MAX_PRIORITY_MODIFIER_COUNT: usize = 2;

/// Movement budget every player starts a round with.
pub const START_MOVEMENT_AMOUNT: i16 = 8;

/// Cargo amounts at or above this need a heavy vehicle.
pub const HEAVY_VEHICLE_INCLUSIVE_THRESHOLD: u32 = 5;

/// How long an issued player identifier stays valid without a check-in,
/// in milliseconds.
pub const PLAYER_TIMEOUT_MILLIS: u64 = 300000;

} // verus!
