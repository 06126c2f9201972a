use vstd::prelude::*;
use crate::geometry::{Point, WORLD_LIMIT};

verus! {

/// Upper bound on health, damage, range and speed.
pub const MAX_STAT: i64 = 1_000_000;

/// Upper bound on an attack cooldown, in milliseconds (one hour).
pub const MAX_COOLDOWN_MS: i64 = 3_600_000;

/// A fraction of one, in millionths: `ONE_PPM` stands for 1.0.
pub const ONE_PPM: u64 = 1_000_000;

/// How a civilian reacts to the fighting around it.
#[derive(Clone, Copy, Debug, PartialEq, Eq, Structural)]
pub enum EvacuationStatus {
    Normal,
    Panicking,
    Evacuating,
    Evacuated,
}

/// Allegiance of a unit. The cartel defends, the military attacks,
/// civilians take no side.
#[derive(Clone, Copy, Debug, PartialEq, Eq, Structural)]
pub enum Faction {
    SinaloaCartel,
    MexicanMilitary,
    Civilian,
}

/// Role of a unit, which fixes its standard stats.
#[derive(Clone, Copy, Debug, PartialEq, Eq, Structural)]
pub enum UnitType {
    Sicario,
    Enforcer,
    Roadblock,
    HostageSquad,
    Soldier,
    SpecialForces,
    Vehicle,
    OvidioGuzman,
    Civilian,
}

/// Whether two factions fight each other.
pub open spec fn opposes(a: Faction, b: Faction) -> bool {
    (a == Faction::SinaloaCartel && b == Faction::MexicanMilitary) || (a
        == Faction::MexicanMilitary && b == Faction::SinaloaCartel)
}

pub fn factions_oppose(a: Faction, b: Faction) -> (r: bool)
    ensures
        r == opposes(a, b),
{
    match (a, b) {
        (Faction::SinaloaCartel, Faction::MexicanMilitary) => true,
        (Faction::MexicanMilitary, Faction::SinaloaCartel) => true,
        _ => false,
    }
}

/// Movement state: where the unit is heading, if anywhere.
#[derive(Clone, Copy, Debug, PartialEq, Eq, Structural)]
pub struct MovementTarget {
    pub destination: Option<Point>,
    pub is_moving: bool,
}

/// Combat state: the unit aimed at (by id), the time since the last
/// attack and the time an attack takes to recharge.
#[derive(Clone, Copy, Debug, PartialEq, Eq, Structural)]
pub struct CombatTarget {
    pub target_entity: Option<u64>,
    pub since_last_attack_ms: u64,
    pub attack_cooldown_ms: u64,
}

/// A simulated unit. Health, damage and range are whole points and world
/// units; speed is in world units per second.
#[derive(Clone, Copy, Debug, PartialEq, Eq, Structural)]
pub struct Unit {
    pub id: u64,
    pub unit_type: UnitType,
    pub faction: Faction,
    pub health: u64,
    pub max_health: u64,
    pub damage: u64,
    pub range: u64,
    pub movement_speed: u64,
    pub position: Point,
    pub movement: MovementTarget,
    pub combat: CombatTarget,
    /// Time left before a burning roadblock is cleared away.
    pub burn_left_ms: Option<u64>,
    /// Panic of a civilian, in millionths.
    pub panic_ppm: u64,
    pub evacuation: EvacuationStatus,
}

impl Unit {
    pub open spec fn wf(self) -> bool {
        &&& 0 < self.max_health <= MAX_STAT
        &&& self.health <= self.max_health
        &&& self.damage <= MAX_STAT
        &&& self.range <= MAX_STAT
        &&& self.movement_speed <= MAX_STAT
        &&& self.combat.attack_cooldown_ms <= MAX_COOLDOWN_MS
        &&& self.position.wf()
        &&& (self.movement.destination matches Some(p) ==> p.wf())
        &&& self.panic_ppm <= ONE_PPM
    }

    pub open spec fn alive(self) -> bool {
        self.health > 0
    }

    pub open spec fn is_vip(self) -> bool {
        self.unit_type == UnitType::OvidioGuzman
    }
}

/// What a new unit is made from. Stats are signed so that a negative
/// value can be told apart and refused.
#[derive(Clone, Copy, Debug, PartialEq, Eq, Structural)]
pub struct UnitSpec {
    pub unit_type: UnitType,
    pub faction: Faction,
    pub position: Point,
    pub health: i64,
    pub damage: i64,
    pub range: i64,
    pub movement_speed: i64,
    pub attack_cooldown_ms: i64,
}

/// Why a unit could not be created.
#[derive(Clone, Copy, Debug, PartialEq, Eq, Structural)]
pub enum ConfigError {
    /// A stat or the cooldown is negative.
    NegativeStat,
    /// Health is zero.
    ZeroHealth,
    /// A stat is above `MAX_STAT`, or the cooldown above `MAX_COOLDOWN_MS`.
    StatTooLarge,
    /// The position lies outside the world.
    OutsideWorld,
    /// A live VIP already exists.
    SecondVip,
    /// Every identifier has been handed out.
    IdsExhausted,
}

/// The first problem found in a spec, checked in the order of `ConfigError`.
pub open spec fn spec_problem(s: UnitSpec) -> Option<ConfigError> {
    if s.health < 0 || s.damage < 0 || s.range < 0 || s.movement_speed < 0
        || s.attack_cooldown_ms < 0 {
        Some(ConfigError::NegativeStat)
    } else if s.health == 0 {
        Some(ConfigError::ZeroHealth)
    } else if s.health > MAX_STAT || s.damage > MAX_STAT || s.range > MAX_STAT || s.movement_speed
        > MAX_STAT || s.attack_cooldown_ms > MAX_COOLDOWN_MS {
        Some(ConfigError::StatTooLarge)
    } else if !s.position.wf() {
        Some(ConfigError::OutsideWorld)
    } else {
        None
    }
}

impl UnitSpec {
    /// Checks the stats and position of a spec.
    pub fn validate(&self) -> (r: Result<(), ConfigError>)
        ensures
            r is Ok <==> spec_problem(*self) is None,
            r matches Err(e) ==> spec_problem(*self) == Some(e),
    {
        if self.health < 0 || self.damage < 0 || self.range < 0 || self.movement_speed < 0
            || self.attack_cooldown_ms < 0 {
            Err(ConfigError::NegativeStat)
        } else if self.health == 0 {
            Err(ConfigError::ZeroHealth)
        } else if self.health > MAX_STAT || self.damage > MAX_STAT || self.range > MAX_STAT
            || self.movement_speed > MAX_STAT || self.attack_cooldown_ms > MAX_COOLDOWN_MS {
            Err(ConfigError::StatTooLarge)
        } else if self.position.x < -WORLD_LIMIT || self.position.x > WORLD_LIMIT
            || self.position.y < -WORLD_LIMIT || self.position.y > WORLD_LIMIT {
            Err(ConfigError::OutsideWorld)
        } else {
            Ok(())
        }
    }
}

/// Standard stats of a unit type fighting for a faction:
/// (health, damage, range, speed, cooldown in ms). Every unit recharges in
/// 800 ms, and a pair without a row of its own gets the last one. The VIP
/// is the exception: a non-combatant with no damage or range, a slower pace
/// and a one-second timer.
pub open spec fn standard_stats(t: UnitType, f: Faction) -> (i64, i64, i64, i64, i64) {
    match (t, f) {
        (UnitType::Sicario, Faction::SinaloaCartel) => (80, 25, 120, 100, 800),
        (UnitType::Enforcer, Faction::SinaloaCartel) => (120, 40, 150, 80, 800),
        (UnitType::Soldier, Faction::MexicanMilitary) => (100, 30, 140, 90, 800),
        (UnitType::SpecialForces, Faction::MexicanMilitary) => (140, 50, 180, 110, 800),
        (UnitType::Vehicle, Faction::MexicanMilitary) => (200, 60, 200, 70, 800),
        (UnitType::Roadblock, Faction::SinaloaCartel) => (75, 0, 0, 0, 800),
        (UnitType::OvidioGuzman, Faction::SinaloaCartel) => (50, 0, 0, 60, 1000),
        _ => (100, 20, 100, 80, 800),
    }
}

/// The spec of a unit of type `t` for faction `f` at `position`, with
/// standard stats.
pub open spec fn standard_spec(t: UnitType, f: Faction, position: Point) -> UnitSpec {
    let (health, damage, range, movement_speed, attack_cooldown_ms) = standard_stats(t, f);
    UnitSpec { unit_type: t, faction: f, position, health, damage, range, movement_speed, attack_cooldown_ms }
}

impl UnitSpec {
    /// The spec of a unit of type `t` for faction `f`, with standard stats.
    pub fn standard(t: UnitType, f: Faction, position: Point) -> (r: UnitSpec)
        ensures
            r == standard_spec(t, f, position),
            r.unit_type == t,
            r.faction == f,
            r.position == position,
            (r.health, r.damage, r.range, r.movement_speed, r.attack_cooldown_ms)
                == standard_stats(t, f),
            position.wf() ==> spec_problem(r) is None,
    {
        let (health, damage, range, movement_speed, attack_cooldown_ms): (
            i64,
            i64,
            i64,
            i64,
            i64,
        ) = match (t, f) {
            (UnitType::Sicario, Faction::SinaloaCartel) => (80, 25, 120, 100, 800),
            (UnitType::Enforcer, Faction::SinaloaCartel) => (120, 40, 150, 80, 800),
            (UnitType::Soldier, Faction::MexicanMilitary) => (100, 30, 140, 90, 800),
            (UnitType::SpecialForces, Faction::MexicanMilitary) => (140, 50, 180, 110, 800),
            (UnitType::Vehicle, Faction::MexicanMilitary) => (200, 60, 200, 70, 800),
            (UnitType::Roadblock, Faction::SinaloaCartel) => (75, 0, 0, 0, 800),
            (UnitType::OvidioGuzman, Faction::SinaloaCartel) => (50, 0, 0, 60, 1000),
            _ => (100, 20, 100, 80, 800),
        };
        UnitSpec {
            unit_type: t,
            faction: f,
            position,
            health,
            damage,
            range,
            movement_speed,
            attack_cooldown_ms,
        }
    }
}

/// Burn time of a deployed roadblock: five minutes.
pub const ROADBLOCK_BURN_MS: u64 = 300_000;

/// The unit that a valid spec becomes under identifier `id`: full health,
/// standing still, with no target, a fresh attack timer and no panic.
pub open spec fn unit_from_spec(s: UnitSpec, id: u64) -> Unit {
    Unit {
        id,
        unit_type: s.unit_type,
        faction: s.faction,
        health: s.health as u64,
        max_health: s.health as u64,
        damage: s.damage as u64,
        range: s.range as u64,
        movement_speed: s.movement_speed as u64,
        position: s.position,
        movement: MovementTarget { destination: None, is_moving: false },
        combat: CombatTarget {
            target_entity: None,
            since_last_attack_ms: 0,
            attack_cooldown_ms: s.attack_cooldown_ms as u64,
        },
        burn_left_ms: if s.unit_type == UnitType::Roadblock {
            Some(ROADBLOCK_BURN_MS)
        } else {
            None
        },
        panic_ppm: 0,
        evacuation: EvacuationStatus::Normal,
    }
}

} // verus!
