use vstd::prelude::*;

verus! {

/// Stages of the mission, strictly ordered; `Victory` and `GameOver` end it.
#[derive(Clone, Copy, Debug, PartialEq, Eq, Structural)]
pub enum GamePhase {
    Preparation,
    InitialRaid,
    BlockConvoy,
    ApplyPressure,
    HoldTheLine,
    Victory,
    GameOver,
}

/// Where the VIP stands with the military.
#[derive(Clone, Copy, Debug, PartialEq, Eq, Structural)]
pub enum CaptureStatus {
    Free,
    Pursued,
    Captured,
    Released,
}

/// Elapsed time after which each timed phase gives way to the next.
pub const RAID_AFTER_MS: u64 = 5_000;
pub const CONVOY_AFTER_MS: u64 = 120_000;
pub const PRESSURE_AFTER_MS: u64 = 300_000;
pub const HOLD_AFTER_MS: u64 = 480_000;
/// Elapsed time after which surviving defenders win the day.
pub const HISTORICAL_END_MS: u64 = 600_000;

/// Place of a phase in the fixed order; both ends share the last place.
pub open spec fn phase_rank(p: GamePhase) -> nat {
    match p {
        GamePhase::Preparation => 0,
        GamePhase::InitialRaid => 1,
        GamePhase::BlockConvoy => 2,
        GamePhase::ApplyPressure => 3,
        GamePhase::HoldTheLine => 4,
        GamePhase::Victory => 5,
        GamePhase::GameOver => 5,
    }
}

pub open spec fn is_terminal(p: GamePhase) -> bool {
    p == GamePhase::Victory || p == GamePhase::GameOver
}

/// The phase that follows a timed phase.
pub open spec fn successor(p: GamePhase) -> GamePhase {
    match p {
        GamePhase::Preparation => GamePhase::InitialRaid,
        GamePhase::InitialRaid => GamePhase::BlockConvoy,
        GamePhase::BlockConvoy => GamePhase::ApplyPressure,
        GamePhase::ApplyPressure => GamePhase::HoldTheLine,
        _ => p,
    }
}

/// What the phase transition looks at.
#[derive(Clone, Copy, Debug, PartialEq, Eq, Structural)]
pub struct PhaseInputs {
    pub elapsed_ms: u64,
    pub vip_alive: bool,
    pub capture_status: CaptureStatus,
    /// Whether any defender combatant is alive.
    pub defenders_alive: bool,
}

/// The elapsed time after which a timed phase advances.
pub open spec fn advance_after(p: GamePhase) -> int {
    match p {
        GamePhase::Preparation => RAID_AFTER_MS as int,
        GamePhase::InitialRaid => CONVOY_AFTER_MS as int,
        GamePhase::BlockConvoy => PRESSURE_AFTER_MS as int,
        GamePhase::ApplyPressure => HOLD_AFTER_MS as int,
        _ => u64::MAX as int + 1,
    }
}

/// The phase after one evaluation, the first rule that applies winning: an
/// ended mission stays ended; a VIP killed before capture ends it; a
/// captured VIP with no defender left, or defenders still standing once
/// time runs out, end it; a released VIP during the last stand is a
/// victory; otherwise a timed phase advances one step when its time has
/// passed.
pub open spec fn next_phase_spec(p: GamePhase, i: PhaseInputs) -> GamePhase {
    if is_terminal(p) {
        p
    } else if !i.vip_alive && (i.capture_status == CaptureStatus::Free || i.capture_status
        == CaptureStatus::Pursued) {
        GamePhase::GameOver
    } else if i.capture_status == CaptureStatus::Captured && !i.defenders_alive {
        GamePhase::GameOver
    } else if i.elapsed_ms > HISTORICAL_END_MS && i.defenders_alive {
        GamePhase::GameOver
    } else if p == GamePhase::HoldTheLine && i.capture_status == CaptureStatus::Released {
        GamePhase::Victory
    } else if i.elapsed_ms > advance_after(p) {
        successor(p)
    } else {
        p
    }
}

/// Evaluates the transition predicates once.
pub fn next_phase(p: GamePhase, i: PhaseInputs) -> (r: GamePhase)
    ensures
        r == next_phase_spec(p, i),
{
    match p {
        GamePhase::Victory | GamePhase::GameOver => {
            return p;
        },
        _ => {},
    }
    let not_yet_captured = match i.capture_status {
        CaptureStatus::Free | CaptureStatus::Pursued => true,
        _ => false,
    };
    if !i.vip_alive && not_yet_captured {
        return GamePhase::GameOver;
    }
    if i.capture_status == CaptureStatus::Captured && !i.defenders_alive {
        return GamePhase::GameOver;
    }
    if i.elapsed_ms > HISTORICAL_END_MS && i.defenders_alive {
        return GamePhase::GameOver;
    }
    if p == GamePhase::HoldTheLine && i.capture_status == CaptureStatus::Released {
        return GamePhase::Victory;
    }
    match p {
        GamePhase::Preparation => if i.elapsed_ms > RAID_AFTER_MS {
            GamePhase::InitialRaid
        } else {
            p
        },
        GamePhase::InitialRaid => if i.elapsed_ms > CONVOY_AFTER_MS {
            GamePhase::BlockConvoy
        } else {
            p
        },
        GamePhase::BlockConvoy => if i.elapsed_ms > PRESSURE_AFTER_MS {
            GamePhase::ApplyPressure
        } else {
            p
        },
        GamePhase::ApplyPressure => if i.elapsed_ms > HOLD_AFTER_MS {
            GamePhase::HoldTheLine
        } else {
            p
        },
        _ => p,
    }
}

/// The mission never moves backward: each evaluation keeps the phase, takes
/// the next step of the fixed order, or jumps to an end, and an end is kept.
pub proof fn lemma_phase_never_regresses(p: GamePhase, i: PhaseInputs)
    ensures
        phase_rank(next_phase_spec(p, i)) >= phase_rank(p),
        next_phase_spec(p, i) == p || next_phase_spec(p, i) == successor(p) || is_terminal(
            next_phase_spec(p, i),
        ),
        is_terminal(p) ==> next_phase_spec(p, i) == p,
{
}

/// Government pressure, in millionths, above which a captured VIP is released.
pub const RETREAT_THRESHOLD_PPM: u64 = 800_000;

/// VIP status after one evaluation of capture and release.
/// `nearest_military` is the distance of the closest military unit in
/// thousandths of a unit, if there is one.
pub open spec fn next_capture_spec(
    c: CaptureStatus,
    nearest_military: Option<u64>,
    pressure_ppm: u64,
) -> CaptureStatus {
    let after_capture = if c == CaptureStatus::Free && (nearest_military matches Some(d) && d
        < CAPTURE_RANGE_MILLI) {
        CaptureStatus::Captured
    } else {
        c
    };
    if after_capture == CaptureStatus::Captured && pressure_ppm > RETREAT_THRESHOLD_PPM {
        CaptureStatus::Released
    } else {
        after_capture
    }
}

/// Military units closer than this to a free VIP locate it.
pub const SPOT_RANGE_MILLI: u64 = 30_000;
/// Military units closer than this to a free VIP capture it.
pub const CAPTURE_RANGE_MILLI: u64 = 15_000;

pub fn next_capture(c: CaptureStatus, nearest_military: Option<u64>, pressure_ppm: u64) -> (r:
    CaptureStatus)
    ensures
        r == next_capture_spec(c, nearest_military, pressure_ppm),
{
    let mut s = c;
    if c == CaptureStatus::Free {
        match nearest_military {
            Some(d) => if d < CAPTURE_RANGE_MILLI {
                s = CaptureStatus::Captured;
            },
            None => {},
        }
    }
    if s == CaptureStatus::Captured && pressure_ppm > RETREAT_THRESHOLD_PPM {
        s = CaptureStatus::Released;
    }
    s
}

/// Why the mission ended.
#[derive(Clone, Copy, Debug, PartialEq, Eq, Structural)]
pub enum EndReason {
    /// The VIP died before being captured.
    VipKilled,
    /// The government released the VIP during the last stand.
    VipReleased,
    /// The VIP is captured and no defender is left.
    MilitaryVictory,
    /// Time ran out with defenders still standing.
    HistoricalOutcome,
}

/// The reason that goes with the transition of `next_phase_spec`, if it
/// ends the mission now.
pub open spec fn end_reason_spec(p: GamePhase, i: PhaseInputs) -> Option<EndReason> {
    if is_terminal(p) {
        None
    } else if !i.vip_alive && (i.capture_status == CaptureStatus::Free || i.capture_status
        == CaptureStatus::Pursued) {
        Some(EndReason::VipKilled)
    } else if i.capture_status == CaptureStatus::Captured && !i.defenders_alive {
        Some(EndReason::MilitaryVictory)
    } else if i.elapsed_ms > HISTORICAL_END_MS && i.defenders_alive {
        Some(EndReason::HistoricalOutcome)
    } else if p == GamePhase::HoldTheLine && i.capture_status == CaptureStatus::Released {
        Some(EndReason::VipReleased)
    } else {
        None
    }
}

pub fn end_reason(p: GamePhase, i: PhaseInputs) -> (r: Option<EndReason>)
    ensures
        r == end_reason_spec(p, i),
        r is Some <==> !is_terminal(p) && is_terminal(next_phase_spec(p, i)),
{
    match p {
        GamePhase::Victory | GamePhase::GameOver => {
            return None;
        },
        _ => {},
    }
    let not_yet_captured = match i.capture_status {
        CaptureStatus::Free | CaptureStatus::Pursued => true,
        _ => false,
    };
    if !i.vip_alive && not_yet_captured {
        Some(EndReason::VipKilled)
    } else if i.capture_status == CaptureStatus::Captured && !i.defenders_alive {
        Some(EndReason::MilitaryVictory)
    } else if i.elapsed_ms > HISTORICAL_END_MS && i.defenders_alive {
        Some(EndReason::HistoricalOutcome)
    } else if p == GamePhase::HoldTheLine && i.capture_status == CaptureStatus::Released {
        Some(EndReason::VipReleased)
    } else {
        None
    }
}

/// A VIP that dies before it is captured ends a running mission at once,
/// whatever the other predicates say.
pub proof fn lemma_vip_death_ends_mission(p: GamePhase, i: PhaseInputs)
    requires
        !is_terminal(p),
        !i.vip_alive,
        i.capture_status == CaptureStatus::Free || i.capture_status == CaptureStatus::Pursued,
    ensures
        next_phase_spec(p, i) == GamePhase::GameOver,
        end_reason_spec(p, i) == Some(EndReason::VipKilled),
{
}

/// Pressure above the retreat threshold releases a captured VIP at the next
/// evaluation, wherever the military stands; and a released VIP during the
/// last stand is a victory, unless time has already run out on defenders
/// still standing (an earlier rule, which ends the mission first).
pub proof fn lemma_release_under_pressure(nearest: Option<u64>, pressure_ppm: u64, i: PhaseInputs)
    requires
        pressure_ppm > RETREAT_THRESHOLD_PPM,
        !(i.elapsed_ms > HISTORICAL_END_MS && i.defenders_alive),
    ensures
        next_capture_spec(CaptureStatus::Captured, nearest, pressure_ppm) == CaptureStatus::Released,
        i.capture_status == CaptureStatus::Released ==> next_phase_spec(GamePhase::HoldTheLine, i)
            == GamePhase::Victory,
{
}

/// Progress of the mission.
#[derive(Clone, Copy, Debug, PartialEq, Eq, Structural)]
pub struct MissionProgress {
    pub current_phase: GamePhase,
    /// Time since the match began, in milliseconds.
    pub elapsed_ms: u64,
    /// In millionths.
    pub government_pressure: u64,
    pub vip_status: CaptureStatus,
    /// Whether the military has located the VIP.
    pub vip_location_known: bool,
    pub end_reason: Option<EndReason>,
}

impl MissionProgress {
    pub open spec fn wf(self) -> bool {
        &&& self.government_pressure <= 1_000_000
        &&& (self.end_reason is Some <==> is_terminal(self.current_phase))
    }

    pub open spec fn new_spec() -> MissionProgress {
        MissionProgress {
            current_phase: GamePhase::Preparation,
            elapsed_ms: 0,
            government_pressure: 0,
            vip_status: CaptureStatus::Free,
            vip_location_known: false,
            end_reason: None,
        }
    }

    pub fn new() -> (r: MissionProgress)
        ensures
            r.wf(),
            r == Self::new_spec(),
            r == (MissionProgress {
                current_phase: GamePhase::Preparation,
                elapsed_ms: 0,
                government_pressure: 0,
                vip_status: CaptureStatus::Free,
                vip_location_known: false,
                end_reason: None,
            }),
    {
        MissionProgress {
            current_phase: GamePhase::Preparation,
            elapsed_ms: 0,
            government_pressure: 0,
            vip_status: CaptureStatus::Free,
            vip_location_known: false,
            end_reason: None,
        }
    }
}

} // verus!
