use vstd::prelude::*;
use crate::events::sat_add;
use crate::geometry::{dist_sq, dist_sq_spec, Point};
use crate::mission::EndReason;
use crate::events::Scores;
use crate::registry::{lemma_same_identities_keep_wf, same_identities};
use crate::sim::{InputEvent, Simulation, SpecialAbility};
use crate::units::{
    standard_spec, unit_from_spec, Faction, MovementTarget, Unit, UnitSpec, UnitType, ONE_PPM,
};
use crate::waves::draw_range;

verus! {

/// Squared selection radius, in squared thousandths (30 units).
pub const SELECT_RADIUS_SQ: u64 = 30_000 * 30_000;

/// Cartel points for deploying a roadblock and for calling reinforcements.
pub const ROADBLOCK_POINTS: u64 = 5;
pub const REINFORCEMENT_POINTS: u64 = 10;

/// Half extents of the area where an unplaced roadblock is dropped at
/// random, in thousandths of a unit.
pub const DROP_HALF_WIDTH: i64 = 400_000;
pub const DROP_HALF_HEIGHT: i64 = 300_000;

/// Identifiers of the live cartel units among the first `n` strictly within
/// the selection radius of `p`, in order.
pub open spec fn selection(s: Seq<Unit>, p: Point, n: int) -> Seq<u64>
    decreases n,
{
    if n <= 0 {
        Seq::empty()
    } else {
        let u = s[n - 1];
        if u.alive() && u.faction == Faction::SinaloaCartel && dist_sq_spec(u.position, p)
            < SELECT_RADIUS_SQ {
            selection(s, p, n - 1).push(u.id)
        } else {
            selection(s, p, n - 1)
        }
    }
}

/// A unit ordered to `p`.
pub open spec fn ordered_to(u: Unit, p: Point) -> Unit {
    Unit { movement: MovementTarget { destination: Some(p), is_moving: true }, ..u }
}

/// The reinforcements the cartel can call: an enforcer at (-400, 200) and
/// sicarios at (-350, 150) and (-400, 100), in whole units.
pub open spec fn reinforcement(k: int) -> UnitSpec {
    if k == 0 {
        standard_spec(UnitType::Enforcer, Faction::SinaloaCartel, Point { x: -400_000i64, y: 200_000i64 })
    } else if k == 1 {
        standard_spec(UnitType::Sicario, Faction::SinaloaCartel, Point { x: -350_000i64, y: 150_000i64 })
    } else {
        standard_spec(UnitType::Sicario, Faction::SinaloaCartel, Point { x: -400_000i64, y: 100_000i64 })
    }
}

fn reinforcement_spec(k: u64) -> (r: UnitSpec)
    requires
        k < 3,
    ensures
        r == reinforcement(k as int),
{
    if k == 0 {
        UnitSpec::standard(UnitType::Enforcer, Faction::SinaloaCartel, Point { x: -400_000, y: 200_000 })
    } else if k == 1 {
        UnitSpec::standard(UnitType::Sicario, Faction::SinaloaCartel, Point { x: -350_000, y: 150_000 })
    } else {
        UnitSpec::standard(UnitType::Sicario, Faction::SinaloaCartel, Point { x: -400_000, y: 100_000 })
    }
}

pub fn contains_id(ids: &Vec<u64>, id: u64) -> (r: bool)
    ensures
        r == ids@.contains(id),
{
    let mut i: usize = 0;
    while i < ids.len()
        invariant
            i <= ids@.len(),
            forall|k: int| 0 <= k < i ==> ids@[k] != id,
        decreases ids@.len() - i,
    {
        if ids[i] == id {
            assert(ids@[i as int] == id);
            return true;
        }
        i = i + 1;
    }
    false
}

/// One entry of the picture handed out each tick.
#[derive(Clone, Copy, Debug, PartialEq, Eq, Structural)]
pub struct SnapshotEntry {
    pub id: u64,
    pub faction: Faction,
    pub unit_type: UnitType,
    pub position: Point,
    /// Health as a fraction of the maximum, in millionths, rounded down.
    pub health_ppm: u64,
}

pub open spec fn entry_of(u: Unit) -> SnapshotEntry {
    SnapshotEntry {
        id: u.id,
        faction: u.faction,
        unit_type: u.unit_type,
        position: u.position,
        health_ppm: (u.health * ONE_PPM / (u.max_health as int)) as u64,
    }
}

/// How a match ended or stands.
#[derive(Clone, Copy, Debug, PartialEq, Eq, Structural)]
pub struct MatchSummary {
    pub winner: Option<Faction>,
    pub end_reason: Option<EndReason>,
    pub elapsed_ms: u64,
    pub scores: Scores,
}

/// The side that an ending favours: the military when the VIP dies or is
/// captured with no defender left, the cartel otherwise.
pub open spec fn winner_of(r: EndReason) -> Faction {
    match r {
        EndReason::VipKilled | EndReason::MilitaryVictory => Faction::MexicanMilitary,
        EndReason::VipReleased | EndReason::HistoricalOutcome => Faction::SinaloaCartel,
    }
}

/// What selecting at `p` does: the selection becomes the live cartel units
/// near `p` (nothing for a point outside the world); nothing else changes.
pub open spec fn select_effect(a: &Simulation, b: &Simulation, p: Point) -> bool {
    &&& b.registry@ == a.registry@
    &&& b.registry.next_id == a.registry.next_id
    &&& b.scores == a.scores
    &&& b.selected@ == (if p.wf() {
        selection(a.registry@, p, a.registry@.len() as int)
    } else {
        Seq::empty()
    })
}

/// What ordering the selection to `p` does: each selected unit heads for
/// `p` (nothing for a point outside the world); nothing else changes.
pub open spec fn move_effect(a: &Simulation, b: &Simulation, p: Point) -> bool {
    &&& b.registry.next_id == a.registry.next_id
    &&& b.scores == a.scores
    &&& b.selected@ == a.selected@
    &&& b.registry@.len() == a.registry@.len()
    &&& forall|k: int|
        0 <= k < a.registry@.len() ==> #[trigger] b.registry@[k] == if p.wf()
            && a.selected@.contains(a.registry@[k].id) {
            ordered_to(a.registry@[k], p)
        } else {
            a.registry@[k]
        }
}

/// What dropping a roadblock does: a roadblock is registered at `at`, or at
/// some point of the drop area when `at` is none, for five cartel points;
/// with a point outside the world or no identifier left nothing changes.
pub open spec fn roadblock_effect(a: &Simulation, b: &Simulation, at: Option<Point>) -> bool {
    let placed = a.registry.next_id < u64::MAX && (at matches Some(q) ==> q.wf());
    &&& placed ==> b.scores == (Scores { cartel: sat_add(a.scores.cartel, ROADBLOCK_POINTS), ..a.scores })
    &&& placed ==> b.registry.next_id == a.registry.next_id + 1
    &&& !placed ==> b.registry.next_id == a.registry.next_id
    &&& placed ==> exists|q: Point|
        b.registry@ == a.registry@.push(
            unit_from_spec(standard_spec(UnitType::Roadblock, Faction::SinaloaCartel, q), a.registry.next_id),
        ) && (at matches Some(c) ==> q == c) && (at is None ==> -DROP_HALF_WIDTH <= q.x < DROP_HALF_WIDTH
            && -DROP_HALF_HEIGHT <= q.y < DROP_HALF_HEIGHT)
    &&& !placed ==> b.registry@ == a.registry@ && b.scores == a.scores
    &&& b.selected@ == a.selected@
}

/// What calling reinforcements does: ten cartel points and, while
/// identifiers last, the three reinforcements in order.
pub open spec fn reinforce_effect(a: &Simulation, b: &Simulation) -> bool {
    &&& b.scores == (Scores { cartel: sat_add(a.scores.cartel, REINFORCEMENT_POINTS), ..a.scores })
    &&& a.registry.next_id + 3 <= u64::MAX ==> b.registry.next_id == a.registry.next_id + 3
    &&& a.registry.next_id + 3 <= u64::MAX ==> b.registry@ == a.registry@ + seq![
        unit_from_spec(reinforcement(0), a.registry.next_id),
        unit_from_spec(reinforcement(1), (a.registry.next_id + 1) as u64),
        unit_from_spec(reinforcement(2), (a.registry.next_id + 2) as u64),
    ]
    &&& b.selected@ == a.selected@
}

impl Simulation {
    /// The live units, in registry order, with their health as a fraction.
    pub fn snapshot(&self) -> (r: Vec<SnapshotEntry>)
        requires
            self.wf(),
        ensures
            r@.len() == self.registry@.len(),
            forall|k: int| 0 <= k < r@.len() ==> #[trigger] r@[k] == entry_of(self.registry@[k]),
    {
        let mut out: Vec<SnapshotEntry> = Vec::new();
        let mut i: usize = 0;
        while i < self.registry.units.len()
            invariant
                self.wf(),
                i <= self.registry@.len(),
                out@.len() == i,
                forall|k: int| 0 <= k < i ==> #[trigger] out@[k] == entry_of(self.registry@[k]),
            decreases self.registry@.len() - i,
        {
            let u = self.registry.units[i];
            assert(u.wf());
            assert(u.health * ONE_PPM <= 1_000_000 * 1_000_000) by (nonlinear_arith)
                requires u.health <= 1_000_000, ONE_PPM == 1_000_000;
            out.push(
                SnapshotEntry {
                    id: u.id,
                    faction: u.faction,
                    unit_type: u.unit_type,
                    position: u.position,
                    health_ppm: u.health * ONE_PPM / u.max_health,
                },
            );
            i = i + 1;
        }
        out
    }

    /// The outcome so far: the winner and reason once the mission has ended,
    /// with the elapsed time and the scores.
    pub fn summary(&self) -> (r: MatchSummary)
        ensures
            r.end_reason == self.progress.end_reason,
            r.winner == (match self.progress.end_reason {
                Some(e) => Some(winner_of(e)),
                None => None,
            }),
            r.elapsed_ms == self.progress.elapsed_ms,
            r.scores == self.scores,
    {
        let winner = match self.progress.end_reason {
            Some(EndReason::VipKilled) => Some(Faction::MexicanMilitary),
            Some(EndReason::MilitaryVictory) => Some(Faction::MexicanMilitary),
            Some(EndReason::VipReleased) => Some(Faction::SinaloaCartel),
            Some(EndReason::HistoricalOutcome) => Some(Faction::SinaloaCartel),
            None => None,
        };
        MatchSummary {
            winner,
            end_reason: self.progress.end_reason,
            elapsed_ms: self.progress.elapsed_ms,
            scores: self.scores,
        }
    }

    /// Selects the live cartel units near `p`, replacing the selection.
    pub fn select_at(&mut self, p: Point)
        requires
            old(self).wf(),
        ensures
            final(self).wf(),
            final(self).registry@ == old(self).registry@,
            final(self).progress == old(self).progress,
            final(self).quit == old(self).quit,
            select_effect(old(self), final(self), p),
    {
        let mut chosen: Vec<u64> = Vec::new();
        if p.x >= -crate::geometry::WORLD_LIMIT && p.x <= crate::geometry::WORLD_LIMIT
            && p.y >= -crate::geometry::WORLD_LIMIT && p.y <= crate::geometry::WORLD_LIMIT {
            let mut i: usize = 0;
            while i < self.registry.units.len()
                invariant
                    self.wf(),
                    p.wf(),
                    i <= self.registry@.len(),
                    chosen@ == selection(self.registry@, p, i as int),
                decreases self.registry@.len() - i,
            {
                let u = self.registry.units[i];
                assert(u.wf());
                if u.health > 0 && u.faction == Faction::SinaloaCartel && dist_sq(u.position, p)
                    < SELECT_RADIUS_SQ {
                    chosen.push(u.id);
                }
                i = i + 1;
            }
        }
        self.selected = chosen;
    }

    /// Orders the selected units to `p`; a point outside the world is ignored.
    pub fn move_selected_to(&mut self, p: Point)
        requires
            old(self).wf(),
        ensures
            final(self).wf(),
            final(self).registry.next_id == old(self).registry.next_id,
            final(self).progress == old(self).progress,
            final(self).quit == old(self).quit,
            move_effect(old(self), final(self), p),
    {
        if !(p.x >= -crate::geometry::WORLD_LIMIT && p.x <= crate::geometry::WORLD_LIMIT
            && p.y >= -crate::geometry::WORLD_LIMIT && p.y <= crate::geometry::WORLD_LIMIT) {
            return;
        }
        let ghost s0 = self.registry@;
        let n = self.registry.units.len();
        let mut i: usize = 0;
        while i < n
            invariant
                n == s0.len() == self.registry@.len(),
                i <= n,
                p.wf(),
                s0 == old(self).registry@,
                self.selected@ == old(self).selected@,
                self.registry.next_id == old(self).registry.next_id,
                old(self).wf(),
                same_identities(s0, self.registry@),
                forall|k: int| 0 <= k < n ==> (#[trigger] self.registry@[k]).health == s0[k].health,
                forall|k: int|
                    0 <= k < i ==> #[trigger] self.registry@[k] == if self.selected@.contains(s0[k].id) {
                        ordered_to(s0[k], p)
                    } else {
                        s0[k]
                    },
                forall|k: int| i <= k < n ==> #[trigger] self.registry@[k] == s0[k],
                self.progress == old(self).progress,
                self.quit == old(self).quit,
                self.media == old(self).media,
                self.balance == old(self).balance,
                self.spawner == old(self).spawner,
                self.scores == old(self).scores,
            decreases n - i,
        {
            let u = self.registry.units[i];
            if contains_id(&self.selected, u.id) {
                self.registry.units.set(
                    i,
                    Unit { movement: MovementTarget { destination: Some(p), is_moving: true }, ..u },
                );
            }
            i = i + 1;
        }
        proof {
            lemma_same_identities_keep_wf(s0, self.registry@, self.registry.next_id);
        }
    }

    fn add_cartel_points(&mut self, points: u64)
        ensures
            final(self).scores == (Scores { cartel: sat_add(old(self).scores.cartel, points), ..old(self).scores }),
            final(self).selected@ == old(self).selected@,
            final(self).registry@ == old(self).registry@,
            final(self).registry.next_id == old(self).registry.next_id,
            final(self).progress == old(self).progress,
            final(self).quit == old(self).quit,
            final(self).media == old(self).media,
            final(self).balance == old(self).balance,
            final(self).spawner == old(self).spawner,
    {
        self.scores.cartel = self.scores.cartel.saturating_add(points);
    }

    /// Drops a burning roadblock at `p`, or at a random point of the drop
    /// area when no point is given, for five cartel points. A point outside
    /// the world, or a registry out of identifiers, drops nothing.
    pub fn deploy_roadblock(&mut self, at: Option<Point>)
        requires
            old(self).wf(),
        ensures
            final(self).wf(),
            final(self).progress == old(self).progress,
            final(self).quit == old(self).quit,
            roadblock_effect(old(self), final(self), at),
    {
        let q = match at {
            Some(q) => q,
            None => {
                let x = draw_range(&mut self.rng, -DROP_HALF_WIDTH, DROP_HALF_WIDTH);
                let y = draw_range(&mut self.rng, -DROP_HALF_HEIGHT, DROP_HALF_HEIGHT);
                Point { x, y }
            },
        };
        let ghost before = self.registry@;
        match self.registry.create(UnitSpec::standard(UnitType::Roadblock, Faction::SinaloaCartel, q)) {
            Ok(_) => {
                proof {
                    crate::registry::lemma_live_units_alive(before);
                    assert forall|k: int| 0 <= k < self.registry@.len() implies (#[trigger] self.registry@[k]).alive() by {
                        if k < before.len() {
                            assert(self.registry@[k] == before[k]);
                        }
                    }
                }
                self.add_cartel_points(ROADBLOCK_POINTS);
            },
            Err(_) => {},
        }
    }

    /// Calls three cartel reinforcements, for ten cartel points. Units are
    /// created until the identifiers run out.
    pub fn call_reinforcements(&mut self)
        requires
            old(self).wf(),
        ensures
            final(self).wf(),
            final(self).progress == old(self).progress,
            final(self).quit == old(self).quit,
            reinforce_effect(old(self), final(self)),
    {
        let ghost s0 = self.registry@;
        let ghost id0 = self.registry.next_id;
        let mut k: u64 = 0;
        while k < 3
            invariant
                k <= 3,
                old(self).wf(),
                self.registry.wf(),
                forall|j: int| 0 <= j < self.registry@.len() ==> (#[trigger] self.registry@[j]).alive(),
                s0 == old(self).registry@,
                id0 == old(self).registry.next_id,
                self.progress == old(self).progress,
                self.quit == old(self).quit,
                self.media == old(self).media,
                self.balance == old(self).balance,
                self.spawner == old(self).spawner,
                self.scores == old(self).scores,
                self.selected@ == old(self).selected@,
                id0 + 3 <= u64::MAX ==> self.registry.next_id == id0 + k && self.registry@ =~= s0
                    + Seq::new(k as nat, |j: int| unit_from_spec(reinforcement(j), (id0 + j) as u64)),
            decreases 3 - k,
        {
            let ghost before = self.registry@;
            match self.registry.create(reinforcement_spec(k)) {
                Ok(_) => {
                    assert forall|j: int| 0 <= j < self.registry@.len() implies (#[trigger] self.registry@[j]).alive() by {
                        if j < before.len() {
                            assert(self.registry@[j] == before[j]);
                        }
                    }
                },
                Err(_) => {},
            }
            k = k + 1;
        }
        proof {
            if id0 + 3 <= u64::MAX {
                assert(Seq::new(3 as nat, |j: int| unit_from_spec(reinforcement(j), (id0 + j) as u64)) =~= seq![
                    unit_from_spec(reinforcement(0), id0),
                    unit_from_spec(reinforcement(1), (id0 + 1) as u64),
                    unit_from_spec(reinforcement(2), (id0 + 2) as u64),
                ]);
            }
        }
        self.add_cartel_points(REINFORCEMENT_POINTS);
    }

    /// Applies one player command. Once the match is over only `Quit` has an
    /// effect.
    pub fn handle_player_input(&mut self, ev: InputEvent)
        requires
            old(self).wf(),
        ensures
            final(self).wf(),
            final(self).progress == old(self).progress,
            final(self).quit == (old(self).quit || ev == InputEvent::Quit),
            old(self).is_over() || ev == InputEvent::Quit ==> final(self).registry@ == old(self).registry@
                && final(self).scores == old(self).scores && final(self).selected@ == old(self).selected@,
            !old(self).is_over() ==> match ev {
                InputEvent::SelectAt(p) => select_effect(old(self), final(self), p),
                InputEvent::MoveSelectedTo(p) => move_effect(old(self), final(self), p),
                InputEvent::DeploySpecial(SpecialAbility::Roadblock, at) => roadblock_effect(old(self), final(self), at),
                InputEvent::DeploySpecial(SpecialAbility::Reinforcements, _) => reinforce_effect(old(self), final(self)),
                InputEvent::Quit => true,
            },
    {
        if let InputEvent::Quit = ev {
            self.quit = true;
            return;
        }
        if self.quit {
            return;
        }
        match self.progress.current_phase {
            crate::mission::GamePhase::Victory | crate::mission::GamePhase::GameOver => {
                return;
            },
            _ => {},
        }
        match ev {
            InputEvent::SelectAt(p) => self.select_at(p),
            InputEvent::MoveSelectedTo(p) => self.move_selected_to(p),
            InputEvent::DeploySpecial(SpecialAbility::Roadblock, at) => self.deploy_roadblock(at),
            InputEvent::DeploySpecial(SpecialAbility::Reinforcements, _) => self.call_reinforcements(),
            InputEvent::Quit => {},
        }
    }
}

} // verus!
