use vstd::prelude::*;
use crate::mission::{CaptureStatus, GamePhase};
use crate::units::{Faction, UnitType};

verus! {

/// One discrete occurrence of the match, for the outside world to show.
#[derive(Clone, Copy, Debug, PartialEq, Eq, Structural)]
pub enum GameEvent {
    WaveStarted { wave: u64, units: u64 },
    Attack { attacker: u64, target: u64, damage: u64, health_after: u64 },
    Eliminated { id: u64, unit_type: UnitType, faction: Faction },
    PhaseChanged { from_phase: GamePhase, to_phase: GamePhase },
    PressureThresholdCrossed { threshold_ppm: u64 },
    ObserversArrived,
    VipStatusChanged { from_status: CaptureStatus, to_status: CaptureStatus },
    RoadblockCleared { id: u64 },
}

/// Points of each side and the count of civilians killed.
#[derive(Clone, Copy, Debug, PartialEq, Eq, Structural)]
pub struct Scores {
    pub cartel: u64,
    pub military: u64,
    pub civilian_casualties: u64,
}

/// Points for the military when a cartel unit falls.
pub const CARTEL_KILL_POINTS: u64 = 10;
/// Points for the cartel when a military unit falls.
pub const MILITARY_KILL_POINTS: u64 = 15;

/// `a + b`, held at `u64::MAX`.
pub open spec fn sat_add(a: u64, b: u64) -> u64 {
    if a + b > u64::MAX {
        u64::MAX
    } else {
        (a + b) as u64
    }
}

/// Scores after the death of a unit of type `t` and faction `f`. The VIP's
/// death ends the mission and scores nothing.
pub open spec fn score_death(sc: Scores, t: UnitType, f: Faction) -> Scores {
    if t == UnitType::OvidioGuzman {
        sc
    } else {
        match f {
            Faction::SinaloaCartel => Scores { military: sat_add(sc.military, CARTEL_KILL_POINTS), ..sc },
            Faction::MexicanMilitary => Scores { cartel: sat_add(sc.cartel, MILITARY_KILL_POINTS), ..sc },
            Faction::Civilian => Scores {
                civilian_casualties: sat_add(sc.civilian_casualties, 1),
                ..sc
            },
        }
    }
}

impl Scores {
    pub fn new() -> (r: Scores)
        ensures
            r == (Scores { cartel: 0, military: 0, civilian_casualties: 0 }),
    {
        Scores { cartel: 0, military: 0, civilian_casualties: 0 }
    }

    /// Records the death of a unit of type `t` and faction `f`.
    pub fn record_death(&mut self, t: UnitType, f: Faction)
        ensures
            *final(self) == score_death(*old(self), t, f),
    {
        if t == UnitType::OvidioGuzman {
            return;
        }
        match f {
            Faction::SinaloaCartel => {
                self.military = self.military.saturating_add(CARTEL_KILL_POINTS);
            },
            Faction::MexicanMilitary => {
                self.cartel = self.cartel.saturating_add(MILITARY_KILL_POINTS);
            },
            Faction::Civilian => {
                self.civilian_casualties = self.civilian_casualties.saturating_add(1);
            },
        }
    }
}

} // verus!
