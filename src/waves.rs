use vstd::prelude::*;
use rand::rngs::StdRng;
use crate::geometry::Point;
use crate::registry::Registry;
use crate::units::{unit_from_spec, Faction, Unit, UnitSpec, UnitType};

verus! {

#[verifier::external_type_specification]
#[verifier::external_body]
pub struct ExStdRng(rand::rngs::StdRng);

/// Relies on rand's `SeedableRng::seed_from_u64` for `StdRng`: a generator
/// whose stream is fixed by the seed.
#[verifier::external_body]
pub(crate) fn seeded_rng(seed: u64) -> StdRng {
    <StdRng as rand::SeedableRng>::seed_from_u64(seed)
}

/// Relies on rand's `Rng::gen_range` over `lo..hi`: a value of the half-open
/// range, which must not be empty.
#[verifier::external_body]
pub(crate) fn draw_range(rng: &mut StdRng, lo: i64, hi: i64) -> (r: i64)
    requires
        lo < hi,
    ensures
        lo <= r < hi,
{
    rand::Rng::gen_range(rng, lo..hi)
}

/// Relies on rand's `Rng::gen_ratio`: `true` with probability
/// `numerator / denominator`, so never for a zero numerator and always when
/// the two are equal.
#[verifier::external_body]
pub(crate) fn draw_ratio(rng: &mut StdRng, numerator: u32, denominator: u32) -> (r: bool)
    requires
        0 < denominator,
        numerator <= denominator,
    ensures
        numerator == 0 ==> !r,
        numerator == denominator ==> r,
{
    rand::Rng::gen_ratio(rng, numerator, denominator)
}

/// Time between waves, in milliseconds.
pub const WAVE_INTERVAL_MS: u64 = 10_000;
/// Wave sizes are kept in thousandths of a unit.
pub const UNITS_SCALE: u64 = 1000;
/// Wave size of the first wave, in thousandths.
pub const FIRST_WAVE_UNITS_MILLI: u64 = 2000;
/// Largest wave size, in thousandths: growth stops there.
pub const MAX_UNITS_MILLI: u64 = 1_000_000_000;
/// Positional jitter of a spawned unit on each axis, in thousandths: a
/// value in `[-JITTER_MILLI, JITTER_MILLI)`.
pub const JITTER_MILLI: i64 = 50_000;
/// The entry points lie on the line x = 600 units, at y = 300, 0 and -300.
pub const ENTRY_X: i64 = 600_000;
pub const ENTRY_SPACING: i64 = 300_000;

/// Twice the difficulty of a wave: `min(wave * 0.5 + 1.0, 4.0)`, doubled.
pub open spec fn difficulty_halves(wave: u64) -> int {
    if wave + 2 < 8 {
        wave + 2
    } else {
        8
    }
}

/// Units in a wave: `units * difficulty`, rounded to the nearest whole unit
/// (halves up), where `units_milli` is the wave size in thousandths.
pub open spec fn wave_size_spec(units_milli: u64, wave: u64) -> int {
    (units_milli * difficulty_halves(wave) + UNITS_SCALE) / (2 * UNITS_SCALE)
}

/// The wave size after a wave: 1.2 times larger, in thousandths rounded
/// down, held at `MAX_UNITS_MILLI`.
pub open spec fn grown_spec(units_milli: u64) -> u64 {
    if units_milli * 6 / 5 > MAX_UNITS_MILLI {
        MAX_UNITS_MILLI
    } else {
        (units_milli * 6 / 5) as u64
    }
}

pub fn wave_size(units_milli: u64, wave: u64) -> (r: u64)
    requires
        units_milli <= MAX_UNITS_MILLI,
    ensures
        r == wave_size_spec(units_milli, wave),
        r <= 4_000_001,
{
    let halves: u64 = if wave < 6 {
        wave + 2
    } else {
        8
    };
    assert(units_milli * halves <= 8_000_000_000) by (nonlinear_arith)
        requires units_milli <= 1_000_000_000, halves <= 8;
    (units_milli * halves + UNITS_SCALE) / (2 * UNITS_SCALE)
}

pub fn grown(units_milli: u64) -> (r: u64)
    requires
        units_milli <= MAX_UNITS_MILLI,
    ensures
        r == grown_spec(units_milli),
        r <= MAX_UNITS_MILLI,
{
    let g = units_milli * 6 / 5;
    if g > MAX_UNITS_MILLI {
        MAX_UNITS_MILLI
    } else {
        g
    }
}

/// The repeating wave timer and the size of the next wave.
#[derive(Clone, Copy, Debug, PartialEq, Eq, Structural)]
pub struct WaveSpawner {
    /// Time since the timer last fired, in milliseconds.
    pub elapsed_ms: u64,
    pub wave_number: u64,
    /// Size of the next wave before difficulty, in thousandths of a unit.
    pub units_in_wave_milli: u64,
}

/// What a fired timer asks for.
#[derive(Clone, Copy, Debug, PartialEq, Eq, Structural)]
pub struct WaveOrder {
    pub wave: u64,
    pub units: u64,
}

/// Whether the timer of `sp` fires when `dt` more milliseconds pass: the
/// interval is reached and the wave number can still go up.
pub open spec fn fires(sp: WaveSpawner, dt: u64) -> bool {
    sp.elapsed_ms + dt >= WAVE_INTERVAL_MS && sp.wave_number < u64::MAX
}

/// The spawner after `dt` more milliseconds. When it fires, the remainder
/// past the interval is kept, the wave number goes up by one and the wave
/// size grows by a fifth; otherwise only the timer advances (and stays put
/// once the wave numbers have run out).
pub open spec fn advanced(sp: WaveSpawner, dt: u64) -> WaveSpawner {
    let total = sp.elapsed_ms + dt;
    if fires(sp, dt) {
        WaveSpawner {
            elapsed_ms: (total % WAVE_INTERVAL_MS as int) as u64,
            wave_number: (sp.wave_number + 1) as u64,
            units_in_wave_milli: grown_spec(sp.units_in_wave_milli),
        }
    } else if total >= WAVE_INTERVAL_MS {
        sp
    } else {
        WaveSpawner { elapsed_ms: total as u64, ..sp }
    }
}

/// The order a firing spawner `sp` gives: the next wave number, and
/// `round(units * difficulty)` units.
pub open spec fn order_of(sp: WaveSpawner) -> WaveOrder {
    WaveOrder {
        wave: (sp.wave_number + 1) as u64,
        units: wave_size_spec(sp.units_in_wave_milli, (sp.wave_number + 1) as u64) as u64,
    }
}

impl WaveSpawner {
    pub open spec fn wf(self) -> bool {
        self.elapsed_ms < WAVE_INTERVAL_MS && self.units_in_wave_milli <= MAX_UNITS_MILLI
    }

    pub open spec fn new_spec() -> WaveSpawner {
        WaveSpawner { elapsed_ms: 0, wave_number: 0, units_in_wave_milli: FIRST_WAVE_UNITS_MILLI }
    }

    /// A spawner whose first wave comes after one interval, two units strong.
    pub fn new() -> (r: WaveSpawner)
        ensures
            r.wf(),
            r == Self::new_spec(),
            r == (WaveSpawner { elapsed_ms: 0, wave_number: 0, units_in_wave_milli: FIRST_WAVE_UNITS_MILLI }),
    {
        WaveSpawner { elapsed_ms: 0, wave_number: 0, units_in_wave_milli: FIRST_WAVE_UNITS_MILLI }
    }

    /// Advances the timer by `dt` milliseconds. When it reaches the interval
    /// it fires once, keeping the remainder so that no time is lost: the wave
    /// number goes up by one, the order carries `round(units * difficulty)`,
    /// and the wave size then grows by a fifth.
    pub fn advance(&mut self, dt: u64) -> (r: Option<WaveOrder>)
        requires
            old(self).wf(),
        ensures
            final(self).wf(),
            r matches Some(o) ==> o.units == wave_size_spec(old(self).units_in_wave_milli, o.wave),
            *final(self) == advanced(*old(self), dt),
            fires(*old(self), dt) ==> r == Some(order_of(*old(self))),
            !fires(*old(self), dt) ==> r is None,
    {
        let rest: u64 = WAVE_INTERVAL_MS - self.elapsed_ms;
        if dt < rest {
            self.elapsed_ms = self.elapsed_ms + dt;
            return None;
        }
        if self.wave_number == u64::MAX {
            return None;
        }
        let over: u64 = dt - rest;
        self.elapsed_ms = over % WAVE_INTERVAL_MS;
        self.wave_number = self.wave_number + 1;
        let units = wave_size(self.units_in_wave_milli, self.wave_number);
        self.units_in_wave_milli = grown(self.units_in_wave_milli);
        Some(WaveOrder { wave: self.wave_number, units })
    }
}

/// The random part of one spawned unit: its jitter and a coin for its type.
#[derive(Clone, Copy, Debug, PartialEq, Eq, Structural)]
pub struct SpawnDraw {
    pub dx: i64,
    pub dy: i64,
    pub roll: bool,
}

impl SpawnDraw {
    pub open spec fn wf(self) -> bool {
        -JITTER_MILLI <= self.dx < JITTER_MILLI && -JITTER_MILLI <= self.dy < JITTER_MILLI
    }
}

/// Odds, as numerator and denominator, that the coin of a wave shows true.
pub open spec fn roll_odds(wave: u64) -> (u32, u32) {
    if wave <= 2 {
        (10, 10)
    } else if wave <= 4 {
        (7, 10)
    } else {
        (4, 10)
    }
}

/// Type of a spawned unit: soldiers in the first two waves; then soldiers
/// (coin true) or special forces; from the fifth wave vehicles (coin true)
/// or special forces.
pub open spec fn wave_kind(wave: u64, roll: bool) -> UnitType {
    if wave <= 2 {
        UnitType::Soldier
    } else if wave <= 4 {
        if roll {
            UnitType::Soldier
        } else {
            UnitType::SpecialForces
        }
    } else if roll {
        UnitType::Vehicle
    } else {
        UnitType::SpecialForces
    }
}

/// Entry point of the `k`-th unit of a wave: the three points taken in turn.
pub open spec fn entry_point(k: int) -> Point {
    Point { x: ENTRY_X, y: (ENTRY_SPACING - (k % 3) * ENTRY_SPACING) as i64 }
}

/// The `k`-th unit of a wave, drawn `d`, under identifier `id`.
pub open spec fn wave_unit(wave: u64, k: int, d: SpawnDraw, id: u64) -> Unit {
    let e = entry_point(k);
    let t = wave_kind(wave, d.roll);
    let (h, dmg, rng, spd, cd) = crate::units::standard_stats(t, Faction::MexicanMilitary);
    unit_from_spec(
        UnitSpec {
            unit_type: t,
            faction: Faction::MexicanMilitary,
            position: Point { x: (e.x + d.dx) as i64, y: (e.y + d.dy) as i64 },
            health: h,
            damage: dmg,
            range: rng,
            movement_speed: spd,
            attack_cooldown_ms: cd,
        },
        id,
    )
}

/// The units of wave `wave` made from draws `ds`, numbered from `id0`.
pub open spec fn wave_units(wave: u64, ds: Seq<SpawnDraw>, id0: u64) -> Seq<Unit> {
    Seq::new(ds.len(), |j: int| wave_unit(wave, j, ds[j], (id0 + j) as u64))
}

/// `tail` is what some valid draws make of wave `wave`, numbered from `id0`.
pub open spec fn drawn_wave(tail: Seq<Unit>, wave: u64, id0: u64) -> bool {
    exists|ds: Seq<SpawnDraw>|
        (forall|j: int| 0 <= j < ds.len() ==> (#[trigger] ds[j]).wf()) && tail == #[trigger] wave_units(
            wave,
            ds,
            id0,
        )
}

pub fn kind_for(wave: u64, roll: bool) -> (r: UnitType)
    ensures
        r == wave_kind(wave, roll),
{
    if wave <= 2 {
        UnitType::Soldier
    } else if wave <= 4 {
        if roll {
            UnitType::Soldier
        } else {
            UnitType::SpecialForces
        }
    } else if roll {
        UnitType::Vehicle
    } else {
        UnitType::SpecialForces
    }
}

/// Draws the random part of `count` units of wave `wave`.
pub fn draw_wave(rng: &mut StdRng, wave: u64, count: u64) -> (r: Vec<SpawnDraw>)
    ensures
        r@.len() == count,
        forall|k: int| 0 <= k < count ==> (#[trigger] r@[k]).wf(),
        wave <= 2 ==> forall|k: int| 0 <= k < count ==> (#[trigger] r@[k]).roll,
{
    let (num, den): (u32, u32) = if wave <= 2 {
        (10, 10)
    } else if wave <= 4 {
        (7, 10)
    } else {
        (4, 10)
    };
    let mut out: Vec<SpawnDraw> = Vec::new();
    let mut k: u64 = 0;
    while k < count
        invariant
            k <= count,
            out@.len() == k,
            forall|j: int| 0 <= j < k ==> (#[trigger] out@[j]).wf(),
            wave <= 2 ==> num == den && forall|j: int| 0 <= j < k ==> (#[trigger] out@[j]).roll,
            0 < den,
            num <= den,
        decreases count - k,
    {
        let dx = draw_range(rng, -JITTER_MILLI, JITTER_MILLI);
        let dy = draw_range(rng, -JITTER_MILLI, JITTER_MILLI);
        let roll = draw_ratio(rng, num, den);
        out.push(SpawnDraw { dx, dy, roll });
        k = k + 1;
    }
    out
}

/// Registers the units of wave `wave`, one per draw, each at its entry point
/// moved by its jitter, with the type its coin gives and standard military
/// stats. Units are created until the draws or the identifiers run out.
pub fn spawn_wave_with(reg: &mut Registry, wave: u64, draws: &Vec<SpawnDraw>) -> (m: u64)
    requires
        old(reg).wf(),
        forall|k: int| 0 <= k < draws@.len() ==> (#[trigger] draws@[k]).wf(),
    ensures
        final(reg).wf(),
        m == (if draws@.len() <= u64::MAX - old(reg).next_id {
            draws@.len() as int
        } else {
            u64::MAX - old(reg).next_id
        }),
        final(reg).next_id == old(reg).next_id + m,
        final(reg)@.len() == old(reg)@.len() + m,
        final(reg)@.subrange(0, old(reg)@.len() as int) == old(reg)@,
        forall|k: int|
            0 <= k < m ==> #[trigger] final(reg)@[old(reg)@.len() + k] == wave_unit(
                wave,
                k,
                draws@[k],
                (old(reg).next_id + k) as u64,
            ),
{
    let ghost s0 = reg.units@;
    let ghost id0 = reg.next_id;
    let mut k: usize = 0;
    while k < draws.len()
        invariant
            reg.wf(),
            id0 == old(reg).next_id,
            s0 == old(reg)@,
            k <= draws@.len(),
            forall|j: int| 0 <= j < draws@.len() ==> (#[trigger] draws@[j]).wf(),
            reg.next_id == id0 + k,
            reg.units@.len() == s0.len() + k,
            reg.units@.subrange(0, s0.len() as int) == s0,
            forall|j: int|
                0 <= j < k ==> #[trigger] reg.units@[s0.len() + j] == wave_unit(
                    wave,
                    j,
                    draws@[j],
                    (id0 + j) as u64,
                ),
        decreases draws@.len() - k,
    {
        if reg.next_id == u64::MAX {
            return k as u64;
        }
        let d = draws[k];
        let lane: i64 = (k % 3) as i64;
        let entry_y: i64 = ENTRY_SPACING - lane * ENTRY_SPACING;
        let t = kind_for(wave, d.roll);
        let spec = UnitSpec::standard(
            t,
            Faction::MexicanMilitary,
            Point { x: ENTRY_X + d.dx, y: entry_y + d.dy },
        );
        let ghost before = reg.units@;
        let r = reg.create(spec);
        assert(r is Ok);
        proof {
            assert(reg.units@.subrange(0, s0.len() as int) =~= before.subrange(0, s0.len() as int));
            assert forall|j: int| 0 <= j < k + 1 implies #[trigger] reg.units@[s0.len() + j] == wave_unit(
                wave,
                j,
                draws@[j],
                (id0 + j) as u64,
            ) by {
                if j < k {
                    assert(reg.units@[s0.len() + j] == before[s0.len() + j]);
                }
            }
        }
        k = k + 1;
    }
    k as u64
}

} // verus!
