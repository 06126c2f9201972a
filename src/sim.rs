use vstd::prelude::*;
use rand::rngs::StdRng;
use crate::ai::{ai_behavior_system, ai_pass};
use crate::combat::{combat_pass, unit_combat_system};
use crate::events::{GameEvent, Scores};
use crate::geometry::{distance, distance_spec, Point};
use crate::mission::{
    end_reason, end_reason_spec, is_terminal, next_capture, next_capture_spec, next_phase, next_phase_spec,
    phase_rank, successor, CaptureStatus, GamePhase, MissionProgress, PhaseInputs,
    SPOT_RANGE_MILLI,
};
use crate::movement::{move_pass, unit_movement_system};
use crate::pressure::{
    count_hostages, count_roadblocks, government_pressure_system, hostage_pressure_system,
    burn_unit, civilian_panic_system, cleared, media_meter_system, panic_pass, pressure_step, propaganda_system,
    roadblock_system, AsymmetricBalance, CivilianPanic, MediaMeter,
};
use crate::registry::{has_vip, live_units, Registry};
use crate::units::{standard_spec, unit_from_spec, Faction, Unit, UnitSpec, UnitType};
use crate::waves::{
    advanced, draw_wave, drawn_wave, fires, order_of, seeded_rng, spawn_wave_with, wave_size_spec,
    wave_unit, wave_units, WaveSpawner,
};

verus! {

/// Index of the first VIP among the first `n` units.
pub open spec fn vip_in(s: Seq<Unit>, n: int) -> Option<int>
    decreases n,
{
    if n <= 0 {
        None
    } else {
        match vip_in(s, n - 1) {
            Some(k) => Some(k),
            None => if s[n - 1].is_vip() {
                Some(n - 1)
            } else {
                None
            },
        }
    }
}

proof fn lemma_vip_in(s: Seq<Unit>, n: int)
    requires
        0 <= n <= s.len(),
    ensures
        vip_in(s, n) matches Some(k) ==> 0 <= k < n && s[k].is_vip(),
        vip_in(s, n) is None ==> forall|k: int| 0 <= k < n ==> !(#[trigger] s[k]).is_vip(),
    decreases n,
{
    if n > 0 {
        lemma_vip_in(s, n - 1);
    }
}

/// Index of the VIP, if one is registered.
pub fn find_vip(units: &Vec<Unit>) -> (r: Option<usize>)
    ensures
        r matches Some(k) ==> vip_in(units@, units@.len() as int) == Some(k as int) && k
            < units@.len() && units@[k as int].is_vip(),
        r is None ==> vip_in(units@, units@.len() as int) is None,
        r is Some <==> has_vip(units@),
{
    let mut i: usize = 0;
    while i < units.len()
        invariant
            i <= units@.len(),
            vip_in(units@, i as int) is None,
        decreases units@.len() - i,
    {
        proof {
            lemma_vip_in(units@, i as int);
        }
        if units[i].unit_type == UnitType::OvidioGuzman {
            proof {
                lemma_vip_stable(units@, i + 1, units@.len() as int);
            }
            return Some(i);
        }
        i = i + 1;
    }
    proof {
        lemma_vip_in(units@, units@.len() as int);
    }
    None
}

proof fn lemma_vip_stable(s: Seq<Unit>, m: int, n: int)
    requires
        0 <= m <= n,
        vip_in(s, m) is Some,
    ensures
        vip_in(s, n) == vip_in(s, m),
    decreases n - m,
{
    if n > m {
        lemma_vip_stable(s, m, n - 1);
    }
}

/// Distance from `p` to the nearest live military unit among the first `n`,
/// in thousandths rounded down.
pub open spec fn nearest_military(s: Seq<Unit>, p: Point, n: int) -> Option<int>
    decreases n,
{
    if n <= 0 {
        None
    } else {
        let best = nearest_military(s, p, n - 1);
        let u = s[n - 1];
        if u.alive() && u.faction == Faction::MexicanMilitary {
            let d = distance_spec(p, u.position);
            match best {
                Some(b) => if d < b {
                    Some(d)
                } else {
                    Some(b)
                },
                None => Some(d),
            }
        } else {
            best
        }
    }
}

pub fn nearest_military_distance(units: &Vec<Unit>, p: Point) -> (r: Option<u64>)
    requires
        crate::registry::units_wf(units@),
        p.wf(),
    ensures
        r matches Some(d) ==> nearest_military(units@, p, units@.len() as int) == Some(d as int),
        r is None ==> nearest_military(units@, p, units@.len() as int) is None,
{
    let mut best: Option<u64> = None;
    let mut i: usize = 0;
    while i < units.len()
        invariant
            i <= units@.len(),
            crate::registry::units_wf(units@),
            p.wf(),
            best matches Some(d) ==> nearest_military(units@, p, i as int) == Some(d as int),
            best is None ==> nearest_military(units@, p, i as int) is None,
        decreases units@.len() - i,
    {
        let u = units[i];
        if u.health > 0 && u.faction == Faction::MexicanMilitary {
            let d = distance(p, u.position);
            best = match best {
                Some(b) => if d < b {
                    Some(d)
                } else {
                    Some(b)
                },
                None => Some(d),
            };
        }
        i = i + 1;
    }
    best
}

/// A live cartel fighter: neither a roadblock nor the VIP.
pub open spec fn is_defender(u: Unit) -> bool {
    &&& u.alive()
    &&& u.faction == Faction::SinaloaCartel
    &&& u.unit_type != UnitType::Roadblock
    &&& u.unit_type != UnitType::OvidioGuzman
}

pub open spec fn defenders_alive(s: Seq<Unit>) -> bool {
    exists|k: int| 0 <= k < s.len() && is_defender(#[trigger] s[k])
}

pub fn any_defender(units: &Vec<Unit>) -> (r: bool)
    ensures
        r == defenders_alive(units@),
{
    let mut i: usize = 0;
    while i < units.len()
        invariant
            i <= units@.len(),
            forall|k: int| 0 <= k < i ==> !is_defender(#[trigger] units@[k]),
        decreases units@.len() - i,
    {
        let u = units[i];
        if u.health > 0 && u.faction == Faction::SinaloaCartel && u.unit_type != UnitType::Roadblock
            && u.unit_type != UnitType::OvidioGuzman {
            assert(is_defender(units@[i as int]));
            return true;
        }
        i = i + 1;
    }
    false
}

/// What the phase transition sees of a set of units and a mission.
pub open spec fn phase_inputs(s: Seq<Unit>, m: MissionProgress) -> PhaseInputs {
    PhaseInputs {
        elapsed_ms: m.elapsed_ms,
        vip_alive: has_vip(s),
        capture_status: m.vip_status,
        defenders_alive: defenders_alive(s),
    }
}

/// The VIP's status after the capture step: unchanged without a VIP;
/// otherwise captured by a military unit close enough while free, and
/// released once captured under enough pressure.
pub open spec fn capture_step(s: Seq<Unit>, c: CaptureStatus, pressure_ppm: u64) -> CaptureStatus {
    match vip_in(s, s.len() as int) {
        Some(k) => next_capture_spec(c, match nearest_military(s, s[k].position, s.len() as int) {
            Some(d) => Some(d as u64),
            None => None,
        }, pressure_ppm),
        None => c,
    }
}

/// Whether the military locates a free VIP among units `s`: a live
/// military unit stands closer than the spotting range.
pub open spec fn spotted(s: Seq<Unit>, c: CaptureStatus) -> bool {
    match vip_in(s, s.len() as int) {
        Some(k) => c == CaptureStatus::Free && (match nearest_military(s, s[k].position, s.len() as int) {
            Some(d) => d < SPOT_RANGE_MILLI,
            None => false,
        }),
        None => false,
    }
}

/// A player command, taken at the start of a tick.
#[derive(Clone, Copy, Debug, PartialEq, Eq, Structural)]
pub enum SpecialAbility {
    Roadblock,
    Reinforcements,
}

#[derive(Clone, Copy, Debug, PartialEq, Eq, Structural)]
pub enum InputEvent {
    SelectAt(Point),
    MoveSelectedTo(Point),
    DeploySpecial(SpecialAbility, Option<Point>),
    Quit,
}

/// The whole state of a match.
pub struct Simulation {
    pub registry: Registry,
    pub progress: MissionProgress,
    pub media: MediaMeter,
    pub balance: AsymmetricBalance,
    pub panic: CivilianPanic,
    pub spawner: WaveSpawner,
    pub scores: Scores,
    /// Identifiers of the units the player has selected.
    pub selected: Vec<u64>,
    /// Everything that happened, oldest first.
    pub events: Vec<GameEvent>,
    pub quit: bool,
    /// The random source of wave spawns and roadblock drops.
    pub rng: StdRng,
}

impl Simulation {
    pub open spec fn wf(&self) -> bool {
        &&& self.registry.wf()
        &&& self.progress.wf()
        &&& self.media.wf()
        &&& self.balance.wf()
        &&& self.spawner.wf()
        &&& forall|k: int| 0 <= k < self.registry@.len() ==> (#[trigger] self.registry@[k]).alive()
    }

    pub open spec fn is_over(&self) -> bool {
        self.quit || is_terminal(self.progress.current_phase)
    }
}

/// Where the VIP starts, in thousandths of a unit.
pub const VIP_START_X: i64 = -300_000;
pub const VIP_START_Y: i64 = 200_000;

/// The units a match starts with: the VIP at its safehouse, then three
/// sicarios on the line y = 150 units, at x = -250, -200 and -150.
pub open spec fn initial_units() -> Seq<Unit> {
    seq![
        unit_from_spec(standard_spec(UnitType::OvidioGuzman, Faction::SinaloaCartel, Point { x: VIP_START_X, y: VIP_START_Y }), 0),
        unit_from_spec(standard_spec(UnitType::Sicario, Faction::SinaloaCartel, Point { x: -250_000i64, y: 150_000i64 }), 1),
        unit_from_spec(standard_spec(UnitType::Sicario, Faction::SinaloaCartel, Point { x: -200_000i64, y: 150_000i64 }), 2),
        unit_from_spec(standard_spec(UnitType::Sicario, Faction::SinaloaCartel, Point { x: -150_000i64, y: 150_000i64 }), 3),
    ]
}

/// Where the military believes the VIP is: its position, once located.
pub open spec fn known_vip(s: Seq<Unit>, m: MissionProgress) -> Option<Point> {
    if m.vip_location_known {
        match vip_in(s, s.len() as int) {
            Some(k) => Some(s[k].position),
            None => None,
        }
    } else {
        None
    }
}

/// The units, reports and scores after the resolvers of one tick, before
/// any wave arrives: policies, then movement, combat and the removal of the
/// dead, burning roadblocks, and civilian panic.
pub open spec fn resolved(
    s: Seq<Unit>,
    m: MissionProgress,
    ev: Seq<GameEvent>,
    sc: Scores,
    dt: u64,
) -> (Seq<Unit>, Seq<GameEvent>, Scores) {
    let s1 = ai_pass(s, m.current_phase, known_vip(s, m));
    let s2 = move_pass(s1, s1.len() as int, dt);
    let c = combat_pass(s2, ev, sc, s2.len() as int, dt);
    let s3 = live_units(c.0);
    let s4 = live_units(s3.map_values(|u: Unit| burn_unit(u, dt)));
    (panic_pass(s4, dt), c.1 + cleared(s3, s3.len() as int, dt), c.2)
}

/// The time the next tick brings: `a + dt`, held at `u64::MAX`.
pub open spec fn later(a: u64, dt: u64) -> u64 {
    crate::events::sat_add(a, dt)
}

impl Simulation {
    /// A fresh match whose random draws follow `seed`.
    pub fn new(seed: u64) -> (r: Simulation)
        ensures
            r.wf(),
            !r.is_over(),
            r.registry@ == initial_units(),
            r.registry.next_id == 4,
            r.progress == MissionProgress::new_spec(),
            r.spawner == WaveSpawner::new_spec(),
            r.scores == (Scores { cartel: 0, military: 0, civilian_casualties: 0 }),
            r.events@ == Seq::<GameEvent>::empty(),
            r.selected@ == Seq::<u64>::empty(),
    {
        let mut registry = Registry::new();
        let r0 = registry.create(
            UnitSpec::standard(UnitType::OvidioGuzman, Faction::SinaloaCartel, Point { x: VIP_START_X, y: VIP_START_Y }),
        );
        assert(r0 is Ok);
        let mut i: i64 = 0;
        while i < 3
            invariant
                0 <= i <= 3,
                registry.wf(),
                registry.next_id == 1 + i,
                registry@.len() == 1 + i,
                registry@[0] == initial_units()[0],
                forall|k: int| 1 <= k <= i ==> #[trigger] registry@[k] == initial_units()[k],
            decreases 3 - i,
        {
            let ghost before = registry@;
            let r = registry.create(
                UnitSpec::standard(UnitType::Sicario, Faction::SinaloaCartel, Point { x: -250_000 + i * 50_000, y: 150_000 }),
            );
            assert(r is Ok);
            assert(registry@[i + 1] == initial_units()[i + 1]);
            assert forall|k: int| 1 <= k <= i + 1 implies #[trigger] registry@[k] == initial_units()[k] by {
                if k <= i {
                    assert(registry@[k] == before[k]);
                }
            }
            i = i + 1;
        }
        assert(registry@ =~= initial_units());
        Simulation {
            registry,
            progress: MissionProgress::new(),
            media: MediaMeter::new(),
            balance: AsymmetricBalance::new(),
            panic: CivilianPanic { city_wide_panic: 0 },
            spawner: WaveSpawner::new(),
            scores: Scores::new(),
            selected: Vec::new(),
            events: Vec::new(),
            quit: false,
            rng: seeded_rng(seed),
        }
    }

    /// The capture step: a free VIP with a military unit close by is located,
    /// and its status follows `capture_step`; a change is reported.
    pub fn ovidio_capture_system(&mut self)
        requires
            old(self).wf(),
        ensures
            final(self).wf(),
            final(self).registry@ == old(self).registry@,
            final(self).registry.next_id == old(self).registry.next_id,
            final(self).progress.vip_status == capture_step(
                old(self).registry@,
                old(self).progress.vip_status,
                old(self).progress.government_pressure,
            ),
            final(self).progress.current_phase == old(self).progress.current_phase,
            final(self).progress.elapsed_ms == old(self).progress.elapsed_ms,
            final(self).progress.government_pressure == old(self).progress.government_pressure,
            final(self).progress.end_reason == old(self).progress.end_reason,
            final(self).scores == old(self).scores,
            final(self).quit == old(self).quit,
            final(self).spawner == old(self).spawner,
            final(self).media == old(self).media,
            final(self).balance == old(self).balance,
            final(self).selected@ == old(self).selected@,
            final(self).progress.vip_location_known == (old(self).progress.vip_location_known || spotted(
                old(self).registry@,
                old(self).progress.vip_status,
            )),
            final(self).events@ == if final(self).progress.vip_status != old(self).progress.vip_status {
                old(self).events@.push(
                    GameEvent::VipStatusChanged {
                        from_status: old(self).progress.vip_status,
                        to_status: final(self).progress.vip_status,
                    },
                )
            } else {
                old(self).events@
            },
            final(self).events@.len() >= old(self).events@.len(),
            final(self).events@.subrange(0, old(self).events@.len() as int) == old(self).events@,
    {
        match find_vip(&self.registry.units) {
            Some(k) => {
                let p = self.registry.units[k].position;
                let near = nearest_military_distance(&self.registry.units, p);
                let status = self.progress.vip_status;
                if status == CaptureStatus::Free {
                    match near {
                        Some(d) => if d < SPOT_RANGE_MILLI {
                            self.progress.vip_location_known = true;
                        },
                        None => {},
                    }
                }
                let ns = next_capture(status, near, self.progress.government_pressure);
                if ns != status {
                    self.events.push(GameEvent::VipStatusChanged { from_status: status, to_status: ns });
                }
                self.progress.vip_status = ns;
            },
            None => {},
        }
    }

    /// The phase step: evaluates the transition once, reporting a change and
    /// recording why the mission ended if it did.
    pub fn mission_trigger_system(&mut self)
        requires
            old(self).wf(),
        ensures
            final(self).wf(),
            final(self).registry@ == old(self).registry@,
            final(self).registry.next_id == old(self).registry.next_id,
            final(self).progress.current_phase == next_phase_spec(
                old(self).progress.current_phase,
                phase_inputs(old(self).registry@, old(self).progress),
            ),
            final(self).progress.vip_status == old(self).progress.vip_status,
            final(self).progress.elapsed_ms == old(self).progress.elapsed_ms,
            final(self).progress.government_pressure == old(self).progress.government_pressure,
            final(self).scores == old(self).scores,
            final(self).quit == old(self).quit,
            final(self).spawner == old(self).spawner,
            final(self).media == old(self).media,
            final(self).balance == old(self).balance,
            final(self).progress.vip_location_known == old(self).progress.vip_location_known,
            ({
                let p = old(self).progress.current_phase;
                let i = phase_inputs(old(self).registry@, old(self).progress);
                let np = next_phase_spec(p, i);
                &&& final(self).progress.end_reason == if np != p {
                    end_reason_spec(p, i)
                } else {
                    old(self).progress.end_reason
                }
                &&& final(self).events@ == if np != p {
                    old(self).events@.push(GameEvent::PhaseChanged { from_phase: p, to_phase: np })
                } else {
                    old(self).events@
                }
            }),
            final(self).events@.len() >= old(self).events@.len(),
            final(self).events@.subrange(0, old(self).events@.len() as int) == old(self).events@,
    {
        let inputs = PhaseInputs {
            elapsed_ms: self.progress.elapsed_ms,
            vip_alive: find_vip(&self.registry.units).is_some(),
            capture_status: self.progress.vip_status,
            defenders_alive: any_defender(&self.registry.units),
        };
        let phase = self.progress.current_phase;
        let np = next_phase(phase, inputs);
        let reason = end_reason(phase, inputs);
        if np != phase {
            self.events.push(GameEvent::PhaseChanged { from_phase: phase, to_phase: np });
            self.progress.current_phase = np;
            self.progress.end_reason = reason;
        }
    }

    /// The resolvers of one tick: policies, movement, combat, burning
    /// roadblocks and civilian panic; see `resolved`.
    fn resolve_units(&mut self, dt: u64)
        requires
            old(self).wf(),
        ensures
            final(self).wf(),
            ({
                let r = resolved(old(self).registry@, old(self).progress, old(self).events@, old(self).scores, dt);
                final(self).registry@ == r.0 && final(self).events@ == r.1 && final(self).scores == r.2
            }),
            final(self).registry.next_id == old(self).registry.next_id,
            final(self).progress == old(self).progress,
            final(self).spawner == old(self).spawner,
            final(self).media == old(self).media,
            final(self).balance == old(self).balance,
            final(self).quit == old(self).quit,
    {
        let phase = self.progress.current_phase;
        let vip_pos = if self.progress.vip_location_known {
            match find_vip(&self.registry.units) {
                Some(k) => Some(self.registry.units[k].position),
                None => None,
            }
        } else {
            None
        };
        assert(vip_pos == known_vip(self.registry@, self.progress));
        ai_behavior_system(&mut self.registry, phase, vip_pos);
        unit_movement_system(&mut self.registry, dt);
        unit_combat_system(&mut self.registry, dt, &mut self.events, &mut self.scores);
        roadblock_system(&mut self.registry, dt, &mut self.events);
        let ghost before_panic = self.registry@;
        civilian_panic_system(&mut self.registry, &mut self.panic, dt);
        assert forall|k: int| 0 <= k < self.registry@.len() implies (#[trigger] self.registry@[k]).alive() by {
            assert(self.registry@[k] == crate::pressure::panic_pass(before_panic, dt)[k]);
        }
    }

    /// Runs the wave timer; when it fires, reports the wave and registers its
    /// units, drawn at random.
    pub fn wave_spawner_system(&mut self, dt: u64)
        requires
            old(self).wf(),
        ensures
            final(self).wf(),
            final(self).progress == old(self).progress,
            final(self).scores == old(self).scores,
            final(self).media == old(self).media,
            final(self).balance == old(self).balance,
            final(self).quit == old(self).quit,
            final(self).events@.len() >= old(self).events@.len(),
            final(self).events@.subrange(0, old(self).events@.len() as int) == old(self).events@,
            final(self).spawner == advanced(old(self).spawner, dt),
            !fires(old(self).spawner, dt) ==> final(self).registry@ == old(self).registry@
                && final(self).registry.next_id == old(self).registry.next_id && final(self).events@
                == old(self).events@,
            fires(old(self).spawner, dt) ==> final(self).events@ == old(self).events@.push(
                GameEvent::WaveStarted {
                    wave: order_of(old(self).spawner).wave,
                    units: order_of(old(self).spawner).units,
                },
            ),
            final(self).registry@.len() >= old(self).registry@.len(),
            final(self).registry@.subrange(0, old(self).registry@.len() as int) == old(self).registry@,
            final(self).registry.next_id == old(self).registry.next_id + (final(self).registry@.len()
                - old(self).registry@.len()),
            fires(old(self).spawner, dt) && old(self).registry.next_id + order_of(old(self).spawner).units
                <= u64::MAX ==> final(self).registry@.len() == old(self).registry@.len() + order_of(
                old(self).spawner,
            ).units,
            drawn_wave(
                final(self).registry@.subrange(old(self).registry@.len() as int, final(self).registry@.len() as int),
                final(self).spawner.wave_number,
                old(self).registry.next_id,
            ),
    {
        let ghost n0 = self.registry@.len();
        let ghost id0 = self.registry.next_id;
        match self.spawner.advance(dt) {
            Some(order) => {
                self.events.push(GameEvent::WaveStarted { wave: order.wave, units: order.units });
                let draws = draw_wave(&mut self.rng, order.wave, order.units);
                let ghost before = self.registry@;
                spawn_wave_with(&mut self.registry, order.wave, &draws);
                proof {
                    assert(order.wave == self.spawner.wave_number);
                    assert forall|k: int| 0 <= k < self.registry@.len() implies (#[trigger] self.registry@[k]).alive() by {
                        if k < before.len() {
                            assert(self.registry@.subrange(0, before.len() as int)[k] == self.registry@[k]);
                        } else {
                            assert(self.registry@[before.len() + (k - before.len())] == self.registry@[k]);
                        }
                    }
                    let m = self.registry@.len() - before.len();
                    let ds = draws@.subrange(0, m);
                    let tail = self.registry@.subrange(before.len() as int, self.registry@.len() as int);
                    assert forall|j: int| 0 <= j < m implies tail[j] == wave_units(order.wave, ds, id0)[j] by {
                        assert(self.registry@[before.len() + j] == wave_unit(order.wave, j, draws@[j], (id0 + j) as u64));
                    }
                    assert(tail =~= wave_units(order.wave, ds, id0));
                    assert(forall|j: int| 0 <= j < ds.len() ==> (#[trigger] ds[j]).wf());
                }
            },
            None => {
                let ghost ds = Seq::<crate::waves::SpawnDraw>::empty();
                assert(self.registry@.subrange(n0 as int, n0 as int) =~= wave_units(self.spawner.wave_number, ds, id0));
            },
        }
    }

    /// Advances the clock and the pressure model by `dt` milliseconds:
    /// hostages, media attention, propaganda, then government pressure.
    fn pressure_system(&mut self, dt: u64)
        requires
            old(self).wf(),
        ensures
            final(self).wf(),
            final(self).registry@ == old(self).registry@,
            final(self).registry.next_id == old(self).registry.next_id,
            final(self).scores == old(self).scores,
            final(self).quit == old(self).quit,
            final(self).spawner == old(self).spawner,
            final(self).progress == (MissionProgress {
                elapsed_ms: later(old(self).progress.elapsed_ms, dt),
                government_pressure: final(self).progress.government_pressure,
                ..old(self).progress
            }),
            old(self).progress.government_pressure <= final(self).progress.government_pressure,
            (final(self).progress.government_pressure, final(self).media, final(self).balance)
                == pressure_step(
                old(self).registry@,
                old(self).progress.government_pressure,
                old(self).media,
                old(self).scores.civilian_casualties,
                final(self).progress.elapsed_ms,
                dt,
            ),
            final(self).events@.len() >= old(self).events@.len(),
            final(self).events@.subrange(0, old(self).events@.len() as int) == old(self).events@,
    {
        let ghost e0 = self.events@;
        self.progress.elapsed_ms = self.progress.elapsed_ms.saturating_add(dt);
        let elapsed = self.progress.elapsed_ms;
        let hostages = count_hostages(&self.registry.units);
        hostage_pressure_system(&mut self.progress.government_pressure, &mut self.media, hostages, dt);
        let arrived = media_meter_system(
            &mut self.media,
            elapsed,
            self.scores.civilian_casualties,
            self.progress.government_pressure,
            dt,
        );
        if arrived {
            self.events.push(GameEvent::ObserversArrived);
        }
        propaganda_system(&mut self.balance, self.media.attention_level, elapsed);
        let roadblocks = count_roadblocks(&self.registry.units);
        let ghost e1 = self.events@;
        government_pressure_system(
            &mut self.progress.government_pressure,
            self.media,
            self.scores.civilian_casualties,
            self.balance.military_morale,
            roadblocks,
            hostages,
            elapsed,
            dt,
            &mut self.events,
        );
        assert(self.events@.subrange(0, e0.len() as int) =~= e0) by {
            assert(self.events@.subrange(0, e1.len() as int) =~= e1);
        }
    }

    /// Advances the match by `dt` milliseconds: the AI sets goals, units move,
    /// fight and die, burned roadblocks are cleared, civilians panic, a wave may arrive, the
    /// pressure model is updated, then the VIP's capture and the mission
    /// phase are evaluated. A match that is over does not change.
    pub fn tick(&mut self, dt: u64)
        requires
            old(self).wf(),
        ensures
            final(self).wf(),
            final(self).quit == old(self).quit,
            old(self).is_over() ==> final(self).registry@ == old(self).registry@ && final(self).progress
                == old(self).progress && final(self).scores == old(self).scores && final(self).events@
                == old(self).events@,
            !old(self).is_over() ==> final(self).progress.elapsed_ms == later(
                old(self).progress.elapsed_ms,
                dt,
            ),
            !old(self).is_over() ==> final(self).progress.vip_status == capture_step(
                final(self).registry@,
                old(self).progress.vip_status,
                final(self).progress.government_pressure,
            ),
            !old(self).is_over() ==> final(self).progress.current_phase == next_phase_spec(
                old(self).progress.current_phase,
                phase_inputs(final(self).registry@, final(self).progress),
            ),
            old(self).progress.government_pressure <= final(self).progress.government_pressure,
            phase_rank(old(self).progress.current_phase) <= phase_rank(final(self).progress.current_phase),
            final(self).progress.current_phase == old(self).progress.current_phase
                || final(self).progress.current_phase == successor(old(self).progress.current_phase)
                || is_terminal(final(self).progress.current_phase),
            !old(self).is_over() ==> (final(self).progress.government_pressure, final(self).media, final(self).balance)
                == pressure_step(
                final(self).registry@,
                old(self).progress.government_pressure,
                old(self).media,
                final(self).scores.civilian_casualties,
                final(self).progress.elapsed_ms,
                dt,
            ),
            !old(self).is_over() ==> final(self).spawner == advanced(old(self).spawner, dt),
            !old(self).is_over() ==> final(self).progress.end_reason == if final(self).progress.current_phase
                != old(self).progress.current_phase {
                end_reason_spec(
                    old(self).progress.current_phase,
                    phase_inputs(final(self).registry@, final(self).progress),
                )
            } else {
                old(self).progress.end_reason
            },
            !old(self).is_over() ==> ({
                let r = resolved(old(self).registry@, old(self).progress, old(self).events@, old(self).scores, dt);
                let order = order_of(old(self).spawner);
                &&& final(self).registry@.len() >= r.0.len()
                &&& final(self).registry@.subrange(0, r.0.len() as int) == r.0
                &&& final(self).registry.next_id == old(self).registry.next_id + (final(self).registry@.len()
                    - r.0.len())
                &&& final(self).scores == r.2
                &&& !fires(old(self).spawner, dt) ==> final(self).registry@ == r.0
                &&& fires(old(self).spawner, dt) ==> final(self).events@.len() > r.1.len()
                    && final(self).events@.subrange(0, r.1.len() + 1int) == r.1.push(
                    GameEvent::WaveStarted { wave: order.wave, units: order.units },
                )
                &&& final(self).events@.len() >= r.1.len()
                &&& final(self).events@.subrange(0, r.1.len() as int) == r.1
                &&& fires(old(self).spawner, dt) && old(self).registry.next_id + order.units <= u64::MAX
                    ==> final(self).registry@.len() == r.0.len() + order.units
                &&& drawn_wave(
                    final(self).registry@.subrange(r.0.len() as int, final(self).registry@.len() as int),
                    final(self).spawner.wave_number,
                    old(self).registry.next_id,
                )
            }),
    {
        if self.quit {
            return;
        }
        match self.progress.current_phase {
            GamePhase::Victory | GamePhase::GameOver => {
                return;
            },
            _ => {},
        }
        let phase = self.progress.current_phase;
        let ghost r = resolved(self.registry@, self.progress, self.events@, self.scores, dt);
        self.resolve_units(dt);
        let ghost e_res = self.events@;
        self.wave_spawner_system(dt);
        let ghost e_wave = self.events@;
        self.pressure_system(dt);
        assert(self.events@.subrange(0, e_wave.len() as int) == e_wave);
        assert(fires(old(self).spawner, dt) ==> self.events@.subrange(0, e_res.len() + 1int) =~= e_wave);
        let ghost e_mid = self.events@;
        let ghost reg_mid = self.registry@;
        assert(fires(old(self).spawner, dt) ==> e_mid.subrange(0, r.1.len() + 1int) == r.1.push(
            GameEvent::WaveStarted { wave: order_of(old(self).spawner).wave, units: order_of(old(self).spawner).units },
        ));
        assert(e_mid.subrange(0, r.1.len() as int) == r.1);
        assert(reg_mid.subrange(0, r.0.len() as int) == r.0);
        self.ovidio_capture_system();
        self.mission_trigger_system();
        proof {
            assert(self.events@.subrange(0, r.1.len() as int) =~= e_mid.subrange(0, r.1.len() as int));
            if fires(old(self).spawner, dt) {
                assert(self.events@.subrange(0, r.1.len() + 1int) =~= e_mid.subrange(0, r.1.len() + 1int));
            }
            assert(self.registry@.subrange(r.0.len() as int, self.registry@.len() as int)
                =~= reg_mid.subrange(r.0.len() as int, reg_mid.len() as int));
            crate::mission::lemma_phase_never_regresses(
                phase,
                phase_inputs(self.registry@, self.progress),
            );
        }
    }
}

} // verus!
