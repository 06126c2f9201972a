use vstd::prelude::*;
use crate::events::GameEvent;
use crate::geometry::{dist_sq, dist_sq_spec};
use crate::registry::{ids_ordered, single_vip, units_wf, Registry};
use crate::units::{Faction, Unit, UnitType, ONE_PPM};

verus! {

/// `level + rate * dt / 1000`, held at one: `rate` is in millionths per
/// second and `dt` in milliseconds.
pub open spec fn accumulated(level: u64, rate: int, dt: u64) -> u64 {
    if level + (rate * dt) / 1000 > ONE_PPM {
        ONE_PPM
    } else {
        (level + (rate * dt) / 1000) as u64
    }
}

/// Adds `rate` millionths per second over `dt` milliseconds to a level,
/// holding the result at one.
pub fn accumulate(level: u64, rate: u128, dt: u64) -> (r: u64)
    requires
        level <= ONE_PPM,
        rate <= 0x1_0000_0000_0000_0000_0000_0000,
    ensures
        r == accumulated(level, rate as int, dt),
        level <= r <= ONE_PPM,
{
    let capped: u128 = if rate > 1_000_000_000 {
        1_000_000_000
    } else {
        rate
    };
    assert(capped * dt <= 1_000_000_000 * 0xffff_ffff_ffff_ffff) by (nonlinear_arith)
        requires capped <= 1_000_000_000, dt <= 0xffff_ffff_ffff_ffffint;
    let inc: u128 = capped * dt as u128 / 1000;
    proof {
        if rate > 1_000_000_000 && dt > 0 {
            assert(rate * dt >= 1_000_000_000) by (nonlinear_arith)
                requires rate > 1_000_000_000, dt >= 1;
            assert(capped * dt >= 1_000_000_000) by (nonlinear_arith)
                requires capped == 1_000_000_000, dt >= 1;
        }
        if dt == 0 {
            assert(rate * dt == 0) by (nonlinear_arith)
                requires dt == 0;
            assert(capped * dt == 0) by (nonlinear_arith)
                requires dt == 0;
        }
    }
    if level as u128 + inc > ONE_PPM as u128 {
        ONE_PPM
    } else {
        level + inc as u64
    }
}

/// Media attention and whether foreign observers have come.
#[derive(Clone, Copy, Debug, PartialEq, Eq, Structural)]
pub struct MediaMeter {
    /// In millionths.
    pub attention_level: u64,
    pub international_observers: bool,
}

/// Attention above which foreign observers arrive, in millionths.
pub const OBSERVERS_THRESHOLD_PPM: u64 = 600_000;

impl MediaMeter {
    pub open spec fn wf(self) -> bool {
        self.attention_level <= ONE_PPM
    }

    pub fn new() -> (r: MediaMeter)
        ensures
            r.wf(),
            r == (MediaMeter { attention_level: 0, international_observers: false }),
    {
        MediaMeter { attention_level: 0, international_observers: false }
    }
}

/// Growth of media attention per second, in millionths: a tenth per half
/// hour of operation, five hundredths per civilian casualty and a fifth of
/// the government pressure.
pub open spec fn media_rate(elapsed_ms: u64, casualties: u64, pressure_ppm: u64) -> int {
    elapsed_ms / 18 + casualties * 50_000 + pressure_ppm / 5
}

/// Updates media attention over `dt` milliseconds. Returns whether foreign
/// observers arrive now: the first time attention exceeds the threshold.
pub fn media_meter_system(
    media: &mut MediaMeter,
    elapsed_ms: u64,
    casualties: u64,
    pressure_ppm: u64,
    dt: u64,
) -> (arrived: bool)
    requires
        old(media).wf(),
    ensures
        final(media).wf(),
        final(media).attention_level == accumulated(
            old(media).attention_level,
            media_rate(elapsed_ms, casualties, pressure_ppm),
            dt,
        ),
        arrived == (!old(media).international_observers && final(media).attention_level
            > OBSERVERS_THRESHOLD_PPM),
        final(media).international_observers == (old(media).international_observers || arrived),
{
    let rate: u128 = elapsed_ms as u128 / 18 + casualties as u128 * 50_000 + pressure_ppm as u128 / 5;
    media.attention_level = accumulate(media.attention_level, rate, dt);
    let arrived = !media.international_observers && media.attention_level > OBSERVERS_THRESHOLD_PPM;
    if arrived {
        media.international_observers = true;
    }
    arrived
}

/// The standing of each side, in millionths.
#[derive(Clone, Copy, Debug, PartialEq, Eq, Structural)]
pub struct AsymmetricBalance {
    pub cartel_coordination: u64,
    pub military_morale: u64,
}

/// Lowest military morale, in millionths.
pub const MORALE_FLOOR_PPM: u64 = 100_000;

/// Cartel coordination: one half, plus half the media attention.
pub open spec fn coordination_spec(attention: u64) -> int {
    500_000 + attention / 2
}

/// Military morale: one, less a tenth per hour of operation and a fifth of
/// the media attention, never below the floor.
pub open spec fn morale_spec(attention: u64, elapsed_ms: u64) -> int {
    let m = ONE_PPM - elapsed_ms / 36 - attention / 5;
    if m < MORALE_FLOOR_PPM {
        MORALE_FLOOR_PPM as int
    } else {
        m
    }
}

impl AsymmetricBalance {
    pub open spec fn wf(self) -> bool {
        self.cartel_coordination <= ONE_PPM && MORALE_FLOOR_PPM <= self.military_morale <= ONE_PPM
    }

    pub fn new() -> (r: AsymmetricBalance)
        ensures
            r.wf(),
            r == (AsymmetricBalance { cartel_coordination: 500_000, military_morale: ONE_PPM }),
    {
        AsymmetricBalance { cartel_coordination: 500_000, military_morale: ONE_PPM }
    }
}

/// Sets coordination and morale from media attention and elapsed time.
pub fn propaganda_system(balance: &mut AsymmetricBalance, attention: u64, elapsed_ms: u64)
    requires
        attention <= ONE_PPM,
    ensures
        final(balance).wf(),
        final(balance).cartel_coordination == coordination_spec(attention),
        final(balance).military_morale == morale_spec(attention, elapsed_ms),
{
    balance.cartel_coordination = 500_000 + attention / 2;
    let penalty: u64 = elapsed_ms / 36 + attention / 5;
    balance.military_morale = if penalty > ONE_PPM - MORALE_FLOOR_PPM {
        MORALE_FLOOR_PPM
    } else {
        ONE_PPM - penalty
    };
}

/// Squared reach of a hostage squad, in squared thousandths (100 units).
pub const HOSTAGE_REACH_SQ: u64 = 100_000 * 100_000;

/// Number of live civilians among the first `n` units strictly within the
/// reach of a hostage squad standing on `h`.
pub open spec fn held_near(s: Seq<Unit>, h: Unit, n: int) -> int
    decreases n,
{
    if n <= 0 {
        0
    } else {
        held_near(s, h, n - 1) + if s[n - 1].faction == Faction::Civilian && s[n - 1].alive()
            && dist_sq_spec(h.position, s[n - 1].position) < HOSTAGE_REACH_SQ {
            1int
        } else {
            0
        }
    }
}

/// Civilians held by the live hostage squads among the first `n` units.
pub open spec fn hostages_held(s: Seq<Unit>, n: int) -> int
    decreases n,
{
    if n <= 0 {
        0
    } else {
        hostages_held(s, n - 1) + if s[n - 1].unit_type == UnitType::HostageSquad
            && s[n - 1].alive() {
            held_near(s, s[n - 1], s.len() as int)
        } else {
            0
        }
    }
}

proof fn lemma_held_near_bounds(s: Seq<Unit>, h: Unit, n: int)
    requires
        0 <= n,
    ensures
        0 <= held_near(s, h, n) <= n,
    decreases n,
{
    if n > 0 {
        lemma_held_near_bounds(s, h, n - 1);
    }
}

proof fn lemma_hostages_bounds(s: Seq<Unit>, n: int)
    requires
        0 <= n,
    ensures
        0 <= hostages_held(s, n) <= n * s.len(),
    decreases n,
{
    if n > 0 {
        lemma_hostages_bounds(s, n - 1);
        lemma_held_near_bounds(s, s[n - 1], s.len() as int);
        assert((n - 1) * s.len() + s.len() == n * s.len()) by (nonlinear_arith);
    }
}

/// `v`, held at `u64::MAX`.
pub open spec fn capped_u64(v: int) -> u64 {
    if v > u64::MAX {
        u64::MAX
    } else {
        v as u64
    }
}

/// Counts the civilians held by hostage squads (held at `u64::MAX`).
pub fn count_hostages(units: &Vec<Unit>) -> (r: u64)
    requires
        units_wf(units@),
    ensures
        r == capped_u64(hostages_held(units@, units@.len() as int)),
{
    let n = units.len();
    let mut total: u64 = 0;
    let mut i: usize = 0;
    while i < n
        invariant
            n == units@.len(),
            i <= n,
            units_wf(units@),
            total == capped_u64(hostages_held(units@, i as int)),
        decreases n - i,
    {
        proof {
            lemma_hostages_bounds(units@, i as int);
        }
        let h = units[i];
        if h.unit_type == UnitType::HostageSquad && h.health > 0 {
            let mut held: u64 = 0;
            let mut j: usize = 0;
            while j < n
                invariant
                    n == units@.len(),
                    j <= n,
                    i < n,
                    h == units@[i as int],
                    units_wf(units@),
                    held == held_near(units@, h, j as int),
                decreases n - j,
            {
                proof {
                    lemma_held_near_bounds(units@, h, j + 1);
                }
                let c = units[j];
                if c.faction == Faction::Civilian && c.health > 0 && dist_sq(h.position, c.position)
                    < HOSTAGE_REACH_SQ {
                    held = held + 1;
                }
                j = j + 1;
            }
            total = total.saturating_add(held);
        }
        i = i + 1;
    }
    total
}

/// Pressure per second from each civilian held, in millionths.
pub const HOSTAGE_RATE_PPM: u64 = 100_000;

/// Applies the pressure of held civilians over `dt` milliseconds: a tenth
/// per second per civilian on the government, and, when that exceeds one
/// half per second, a tenth per second on media attention.
pub fn hostage_pressure_system(pressure_ppm: &mut u64, media: &mut MediaMeter, hostages: u64, dt: u64)
    requires
        *old(pressure_ppm) <= ONE_PPM,
        old(media).wf(),
    ensures
        *final(pressure_ppm) == accumulated(*old(pressure_ppm), hostages * HOSTAGE_RATE_PPM, dt),
        *old(pressure_ppm) <= *final(pressure_ppm) <= ONE_PPM,
        final(media).wf(),
        final(media).international_observers == old(media).international_observers,
        final(media).attention_level == if hostages * HOSTAGE_RATE_PPM > 500_000 {
            accumulated(old(media).attention_level, HOSTAGE_RATE_PPM as int, dt)
        } else {
            old(media).attention_level
        },
{
    assert(hostages * 100_000 <= 0xffff_ffff_ffff_ffff * 100_000) by (nonlinear_arith)
        requires hostages <= 0xffff_ffff_ffff_ffffint;
    let rate: u128 = hostages as u128 * HOSTAGE_RATE_PPM as u128;
    *pressure_ppm = accumulate(*pressure_ppm, rate, dt);
    if rate > 500_000 {
        media.attention_level = accumulate(media.attention_level, HOSTAGE_RATE_PPM as u128, dt);
    }
}

/// Number of live roadblocks among the first `n` units.
pub open spec fn roadblocks_in(s: Seq<Unit>, n: int) -> int
    decreases n,
{
    if n <= 0 {
        0
    } else {
        roadblocks_in(s, n - 1) + if s[n - 1].unit_type == UnitType::Roadblock && s[n - 1].alive() {
            1int
        } else {
            0
        }
    }
}

pub fn count_roadblocks(units: &Vec<Unit>) -> (r: u64)
    ensures
        r == roadblocks_in(units@, units@.len() as int),
{
    let mut count: u64 = 0;
    let mut i: usize = 0;
    while i < units.len()
        invariant
            i <= units@.len(),
            count == roadblocks_in(units@, i as int),
            count <= i,
        decreases units@.len() - i,
    {
        if units[i].unit_type == UnitType::Roadblock && units[i].health > 0 {
            count = count + 1;
        }
        i = i + 1;
    }
    count
}

/// Pressure thresholds whose crossing is reported, in millionths.
pub const SIGNIFICANT_PRESSURE_PPM: u64 = 500_000;
pub const CRITICAL_PRESSURE_PPM: u64 = 800_000;

/// Rate at which the government's pressure grows, in millionths per second:
/// three tenths of media attention, half as much again once foreign
/// observers are there; five hundredths per civilian casualty; a tenth per
/// live roadblock; fifteen hundredths per civilian held; a fifth of what
/// military morale lacks; and a tenth per hour of operation.
pub open spec fn pressure_rate(
    media: MediaMeter,
    casualties: u64,
    morale: u64,
    roadblocks: u64,
    hostages: u64,
    elapsed_ms: u64,
) -> int {
    let m = media.attention_level * 3 / 10;
    let media_term = if media.international_observers {
        m * 3 / 2
    } else {
        m
    };
    media_term + casualties * 50_000 + roadblocks * 100_000 + hostages * 150_000 + (ONE_PPM - morale) / 5
        + elapsed_ms / 36
}

/// The reports of the thresholds that a change of pressure from `a` to `b`
/// goes past, lower threshold first.
pub open spec fn crossings(a: u64, b: u64) -> Seq<GameEvent> {
    let half = if a <= SIGNIFICANT_PRESSURE_PPM < b {
        seq![GameEvent::PressureThresholdCrossed { threshold_ppm: SIGNIFICANT_PRESSURE_PPM }]
    } else {
        Seq::empty()
    };
    let critical = if a <= CRITICAL_PRESSURE_PPM < b {
        seq![GameEvent::PressureThresholdCrossed { threshold_ppm: CRITICAL_PRESSURE_PPM }]
    } else {
        Seq::empty()
    };
    half + critical
}

/// Accumulates government pressure over `dt` milliseconds and reports the
/// thresholds it goes past.
pub fn government_pressure_system(
    pressure_ppm: &mut u64,
    media: MediaMeter,
    casualties: u64,
    morale: u64,
    roadblocks: u64,
    hostages: u64,
    elapsed_ms: u64,
    dt: u64,
    events: &mut Vec<GameEvent>,
)
    requires
        *old(pressure_ppm) <= ONE_PPM,
        media.wf(),
        morale <= ONE_PPM,
    ensures
        *final(pressure_ppm) == accumulated(
            *old(pressure_ppm),
            pressure_rate(media, casualties, morale, roadblocks, hostages, elapsed_ms),
            dt,
        ),
        *old(pressure_ppm) <= *final(pressure_ppm) <= ONE_PPM,
        final(events)@ == old(events)@ + crossings(*old(pressure_ppm), *final(pressure_ppm)),
{
    assert(casualties * 50_000 <= 0xffff_ffff_ffff_ffff * 50_000) by (nonlinear_arith)
        requires casualties <= 0xffff_ffff_ffff_ffffint;
    assert(roadblocks * 100_000 <= 0xffff_ffff_ffff_ffff * 100_000) by (nonlinear_arith)
        requires roadblocks <= 0xffff_ffff_ffff_ffffint;
    assert(hostages * 150_000 <= 0xffff_ffff_ffff_ffff * 150_000) by (nonlinear_arith)
        requires hostages <= 0xffff_ffff_ffff_ffffint;
    let m: u128 = media.attention_level as u128 * 3 / 10;
    let media_term: u128 = if media.international_observers {
        m * 3 / 2
    } else {
        m
    };
    let rate: u128 = media_term + casualties as u128 * 50_000 + roadblocks as u128 * 100_000
        + hostages as u128 * 150_000 + (ONE_PPM - morale) as u128 / 5 + elapsed_ms as u128 / 36;
    let before = *pressure_ppm;
    let after = accumulate(before, rate, dt);
    *pressure_ppm = after;
    let ghost e0 = events@;
    if before <= SIGNIFICANT_PRESSURE_PPM && SIGNIFICANT_PRESSURE_PPM < after {
        events.push(GameEvent::PressureThresholdCrossed { threshold_ppm: SIGNIFICANT_PRESSURE_PPM });
    }
    if before <= CRITICAL_PRESSURE_PPM && CRITICAL_PRESSURE_PPM < after {
        events.push(GameEvent::PressureThresholdCrossed { threshold_ppm: CRITICAL_PRESSURE_PPM });
    }
    assert(events@ =~= e0 + crossings(before, after));
}

/// A unit after its burn timer has run `dt` milliseconds longer: a roadblock
/// whose time is up is left with no health, to be cleared away.
pub open spec fn burn_unit(u: Unit, dt: u64) -> Unit {
    match u.burn_left_ms {
        Some(t) => if t <= dt {
            Unit { burn_left_ms: Some(0), health: 0, ..u }
        } else {
            Unit { burn_left_ms: Some((t - dt) as u64), ..u }
        },
        None => u,
    }
}

pub open spec fn burns_out(u: Unit, dt: u64) -> bool {
    u.alive() && (u.burn_left_ms matches Some(t) && t <= dt)
}

/// Reports of the roadblocks among the first `n` units that burn out.
pub open spec fn cleared(s: Seq<Unit>, n: int, dt: u64) -> Seq<GameEvent>
    decreases n,
{
    if n <= 0 {
        Seq::empty()
    } else if burns_out(s[n - 1], dt) {
        cleared(s, n - 1, dt).push(GameEvent::RoadblockCleared { id: s[n - 1].id })
    } else {
        cleared(s, n - 1, dt)
    }
}

/// Runs the burn timers for `dt` milliseconds and clears away the roadblocks
/// that burn out, reporting each.
pub fn roadblock_system(reg: &mut Registry, dt: u64, events: &mut Vec<GameEvent>)
    requires
        old(reg).wf(),
    ensures
        final(reg).wf(),
        final(reg).next_id == old(reg).next_id,
        final(reg)@ == crate::registry::live_units(
            old(reg)@.map_values(|u: Unit| burn_unit(u, dt)),
        ),
        final(events)@ == old(events)@ + cleared(old(reg)@, old(reg)@.len() as int, dt),
        forall|k: int| 0 <= k < final(reg)@.len() ==> (#[trigger] final(reg)@[k]).alive(),
{
    let ghost s0 = reg.units@;
    let ghost e0 = events@;
    let n = reg.units.len();
    let mut i: usize = 0;
    while i < n
        invariant
            n == s0.len() == reg.units@.len(),
            i <= n,
            s0 == old(reg)@,
            e0 == old(events)@,
            reg.next_id == old(reg).next_id,
            ids_ordered(s0, reg.next_id),
            single_vip(s0),
            units_wf(s0),
            crate::registry::same_identities(s0, reg.units@),
            forall|k: int| 0 <= k < i ==> #[trigger] reg.units@[k] == burn_unit(s0[k], dt),
            forall|k: int| i <= k < n ==> #[trigger] reg.units@[k] == s0[k],
            events@ == e0 + cleared(s0, i as int, dt),
        decreases n - i,
    {
        let u = reg.units[i];
        if let Some(t) = u.burn_left_ms {
            if t <= dt {
                if u.health > 0 {
                    events.push(GameEvent::RoadblockCleared { id: u.id });
                }
                reg.units.set(i, Unit { burn_left_ms: Some(0), health: 0, ..u });
            } else {
                reg.units.set(i, Unit { burn_left_ms: Some(t - dt), ..u });
            }
        }
        proof {
            assert(events@ =~= e0 + cleared(s0, i + 1, dt));
        }
        i = i + 1;
    }
    proof {
        crate::registry::lemma_same_identities_keep_wf(s0, reg.units@, reg.next_id);
        assert(reg.units@ =~= s0.map_values(|u: Unit| burn_unit(u, dt)));
    }
    reg.sweep_dead();
    proof {
        crate::registry::lemma_live_units_alive(s0.map_values(|u: Unit| burn_unit(u, dt)));
    }
}

/// Government pressure, media meter and balance after the pressure step of a
/// tick among units `s`: held civilians press the government (and, past one
/// half per second, the media); media attention grows; coordination and
/// morale follow it; then government pressure grows at `pressure_rate`.
pub open spec fn pressure_step(
    s: Seq<Unit>,
    pressure_ppm: u64,
    media: MediaMeter,
    casualties: u64,
    elapsed_ms: u64,
    dt: u64,
) -> (u64, MediaMeter, AsymmetricBalance) {
    let hostages = capped_u64(hostages_held(s, s.len() as int));
    let held_pressure = accumulated(pressure_ppm, hostages * HOSTAGE_RATE_PPM, dt);
    let held_attention = if hostages * HOSTAGE_RATE_PPM > 500_000 {
        accumulated(media.attention_level, HOSTAGE_RATE_PPM as int, dt)
    } else {
        media.attention_level
    };
    let new_attention = accumulated(held_attention, media_rate(elapsed_ms, casualties, held_pressure), dt);
    let new_media = MediaMeter {
        attention_level: new_attention,
        international_observers: media.international_observers || new_attention > OBSERVERS_THRESHOLD_PPM,
    };
    let b = AsymmetricBalance {
        cartel_coordination: coordination_spec(new_attention) as u64,
        military_morale: morale_spec(new_attention, elapsed_ms) as u64,
    };
    let roadblocks = roadblocks_in(s, s.len() as int) as u64;
    let new_pressure = accumulated(held_pressure, pressure_rate(new_media, casualties, b.military_morale, roadblocks, hostages, elapsed_ms), dt);
    (new_pressure, new_media, b)
}

/// A unit that takes part in the fighting: alive, on a side, and armed.
pub open spec fn is_combatant(u: Unit) -> bool {
    u.alive() && u.faction != Faction::Civilian && u.damage > 0
}

/// Reach of fighting and of roadblocks on civilian panic, in thousandths.
pub const COMBAT_PANIC_REACH: u64 = 150_000;
pub const ROADBLOCK_PANIC_REACH: u64 = 100_000;

/// Panic that unit `u` at distance `d` (in thousandths) adds per second, in
/// millionths: half, scaled down linearly to nothing at 150 units, for a
/// combatant; three tenths, down to nothing at 100 units, for a live
/// roadblock.
pub open spec fn panic_term(u: Unit, d: int) -> int {
    if is_combatant(u) && d < COMBAT_PANIC_REACH {
        (COMBAT_PANIC_REACH - d) * 500_000 / (COMBAT_PANIC_REACH as int)
    } else if u.alive() && u.unit_type == UnitType::Roadblock && d < ROADBLOCK_PANIC_REACH {
        (ROADBLOCK_PANIC_REACH - d) * 3
    } else {
        0
    }
}

/// Panic growth per second of a civilian standing on `c`, from the first
/// `n` units.
pub open spec fn panic_rate(s: Seq<Unit>, c: crate::geometry::Point, n: int) -> int
    decreases n,
{
    if n <= 0 {
        0
    } else {
        panic_rate(s, c, n - 1) + panic_term(s[n - 1], crate::geometry::distance_spec(c, s[n - 1].position))
    }
}

/// Panic above which a calm civilian starts to panic, in millionths.
pub const PANIC_THRESHOLD_PPM: u64 = 700_000;

/// A civilian after `dt` milliseconds among the units of `s`.
pub open spec fn panicked(s: Seq<Unit>, u: Unit, dt: u64) -> Unit {
    if u.faction == Faction::Civilian && u.alive() {
        let p = accumulated(u.panic_ppm, panic_rate(s, u.position, s.len() as int), dt);
        Unit {
            panic_ppm: p,
            evacuation: if p > PANIC_THRESHOLD_PPM && u.evacuation == crate::units::EvacuationStatus::Normal {
                crate::units::EvacuationStatus::Panicking
            } else {
                u.evacuation
            },
            ..u
        }
    } else {
        u
    }
}

/// Every unit after `dt` milliseconds of panic.
pub open spec fn panic_pass(s: Seq<Unit>, dt: u64) -> Seq<Unit> {
    Seq::new(s.len(), |k: int| panicked(s, s[k], dt))
}

/// `a` and `b` agree on everything panic depends on.
pub open spec fn same_panic_sources(a: Seq<Unit>, b: Seq<Unit>) -> bool {
    &&& a.len() == b.len()
    &&& forall|k: int|
        0 <= k < a.len() ==> (#[trigger] b[k]).position == a[k].position && b[k].health == a[k].health
            && b[k].faction == a[k].faction && b[k].damage == a[k].damage && b[k].unit_type
            == a[k].unit_type
}

proof fn lemma_panic_rate_same(a: Seq<Unit>, b: Seq<Unit>, c: crate::geometry::Point, n: int)
    requires
        same_panic_sources(a, b),
        n <= a.len(),
    ensures
        panic_rate(a, c, n) == panic_rate(b, c, n),
    decreases n,
{
    if n > 0 {
        lemma_panic_rate_same(a, b, c, n - 1);
        assert(b[n - 1].position == a[n - 1].position);
    }
}

proof fn lemma_panic_term_bounds(u: Unit, d: int)
    requires
        0 <= d,
    ensures
        0 <= panic_term(u, d) <= 500_000,
{
    if is_combatant(u) && d < COMBAT_PANIC_REACH {
        assert((COMBAT_PANIC_REACH - d) * 500_000 <= 150_000 * 500_000) by (nonlinear_arith)
            requires 0 <= d, d < 150_000;
        assert(0 <= (COMBAT_PANIC_REACH - d) * 500_000) by (nonlinear_arith)
            requires d < 150_000;
        assert((COMBAT_PANIC_REACH - d) * 500_000 / 150_000 <= 500_000) by (nonlinear_arith)
            requires 0 <= (COMBAT_PANIC_REACH - d) * 500_000 <= 150_000 * 500_000;
    }
}

/// Panic growth per second of a civilian standing on `c`.
fn panic_rate_at(units: &Vec<Unit>, c: crate::geometry::Point) -> (r: u128)
    requires
        crate::registry::units_wf(units@),
        c.wf(),
    ensures
        r == panic_rate(units@, c, units@.len() as int),
        r <= units@.len() * 500_000,
{
    let mut rate: u128 = 0;
    let mut i: usize = 0;
    while i < units.len()
        invariant
            i <= units@.len(),
            crate::registry::units_wf(units@),
            c.wf(),
            rate == panic_rate(units@, c, i as int),
            rate <= i * 500_000,
        decreases units@.len() - i,
    {
        let u = units[i];
        let d = crate::geometry::distance(c, u.position);
        proof {
            lemma_panic_term_bounds(u, d as int);
        }
        if u.health > 0 && u.faction != Faction::Civilian && u.damage > 0 && d < COMBAT_PANIC_REACH {
            rate = rate + ((COMBAT_PANIC_REACH - d) as u128 * 500_000 / COMBAT_PANIC_REACH as u128);
        } else if u.health > 0 && u.unit_type == UnitType::Roadblock && d < ROADBLOCK_PANIC_REACH {
            rate = rate + (ROADBLOCK_PANIC_REACH - d) as u128 * 3;
        }
        i = i + 1;
    }
    rate
}

/// City-wide panic: the mean panic of the live civilians, in millionths.
#[derive(Clone, Copy, Debug, PartialEq, Eq, Structural)]
pub struct CivilianPanic {
    pub city_wide_panic: u64,
}

/// Total panic and number of the live civilians among the first `n` units.
pub open spec fn civilian_panic_totals(s: Seq<Unit>, n: int) -> (int, int)
    decreases n,
{
    if n <= 0 {
        (0, 0)
    } else {
        let t = civilian_panic_totals(s, n - 1);
        if s[n - 1].faction == Faction::Civilian && s[n - 1].alive() {
            (t.0 + s[n - 1].panic_ppm, t.1 + 1)
        } else {
            t
        }
    }
}

proof fn lemma_totals_bounds(s: Seq<Unit>, n: int)
    requires
        0 <= n <= s.len(),
        crate::registry::units_wf(s),
    ensures
        0 <= civilian_panic_totals(s, n).0 <= civilian_panic_totals(s, n).1 * ONE_PPM,
        0 <= civilian_panic_totals(s, n).1 <= n,
    decreases n,
{
    if n > 0 {
        lemma_totals_bounds(s, n - 1);
        assert(s[n - 1].wf());
    }
}

/// Raises each live civilian's panic by the fighting and roadblocks around
/// it over `dt` milliseconds; a calm civilian pushed over the threshold
/// starts to panic. The city-wide panic becomes the mean over live
/// civilians, and is kept when there is none.
pub fn civilian_panic_system(reg: &mut Registry, city: &mut CivilianPanic, dt: u64)
    requires
        old(reg).wf(),
    ensures
        final(reg).wf(),
        final(reg).next_id == old(reg).next_id,
        final(reg)@ == panic_pass(old(reg)@, dt),
        ({
            let t = civilian_panic_totals(final(reg)@, final(reg)@.len() as int);
            &&& t.1 > 0 ==> final(city).city_wide_panic == t.0 / t.1
            &&& t.1 == 0 ==> *final(city) == *old(city)
        }),
        final(city).city_wide_panic <= ONE_PPM || *final(city) == *old(city),
{
    let ghost s0 = reg.units@;
    let n = reg.units.len();
    let mut i: usize = 0;
    while i < n
        invariant
            n == s0.len() == reg.units@.len(),
            i <= n,
            s0 == old(reg)@,
            old(reg).wf(),
            reg.next_id == old(reg).next_id,
            crate::registry::same_identities(s0, reg.units@),
            same_panic_sources(s0, reg.units@),
            forall|k: int| 0 <= k < i ==> #[trigger] reg.units@[k] == panicked(s0, s0[k], dt),
            forall|k: int| i <= k < n ==> #[trigger] reg.units@[k] == s0[k],
        decreases n - i,
    {
        let u = reg.units[i];
        if u.faction == Faction::Civilian && u.health > 0 {
            proof {
                crate::registry::lemma_same_identities_keep_wf(s0, reg.units@, reg.next_id);
                lemma_panic_rate_same(s0, reg.units@, u.position, n as int);
            }
            let rate = panic_rate_at(&reg.units, u.position);
            let p = accumulate(u.panic_ppm, rate, dt);
            let ev = if p > PANIC_THRESHOLD_PPM && u.evacuation == crate::units::EvacuationStatus::Normal {
                crate::units::EvacuationStatus::Panicking
            } else {
                u.evacuation
            };
            reg.units.set(i, Unit { panic_ppm: p, evacuation: ev, ..u });
        }
        i = i + 1;
    }
    proof {
        crate::registry::lemma_same_identities_keep_wf(s0, reg.units@, reg.next_id);
        assert(reg.units@ =~= panic_pass(s0, dt));
    }
    let mut total: u128 = 0;
    let mut count: u64 = 0;
    let mut j: usize = 0;
    while j < n
        invariant
            n == reg.units@.len(),
            j <= n,
            reg.wf(),
            total == civilian_panic_totals(reg.units@, j as int).0,
            count == civilian_panic_totals(reg.units@, j as int).1,
        decreases n - j,
    {
        proof {
            lemma_totals_bounds(reg.units@, j as int);
            assert(reg.units@[j as int].wf());
            assert(total <= count * 1_000_000 <= 0xffff_ffff_ffff_ffff * 1_000_000) by (nonlinear_arith)
                requires total <= count * 1_000_000, count <= j, j < 0x1_0000_0000_0000_0000int;
        }
        let u = reg.units[j];
        if u.faction == Faction::Civilian && u.health > 0 {
            total = total + u.panic_ppm as u128;
            count = count + 1;
        }
        j = j + 1;
    }
    if count > 0 {
        proof {
            lemma_totals_bounds(reg.units@, n as int);
            assert((total as int) / (count as int) <= ONE_PPM) by (nonlinear_arith)
                requires total <= count * 1_000_000, count > 0;
        }
        city.city_wide_panic = (total / count as u128) as u64;
    }
}

} // verus!
