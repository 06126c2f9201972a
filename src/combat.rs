use vstd::prelude::*;
use crate::events::{sat_add, score_death, GameEvent, Scores};
use crate::geometry::{dist_sq, dist_sq_spec, MILLI};
use crate::registry::{ids_ordered, live_units, single_vip, units_wf, Registry};
use crate::units::{factions_oppose, opposes, CombatTarget, Unit};

verus! {

/// Square of a unit's attack range, in squared thousandths.
pub open spec fn range_sq(a: Unit) -> int {
    (a.range * MILLI) * (a.range * MILLI)
}

/// Whether `a` can strike `b` from where both stand.
pub open spec fn can_hit(a: Unit, b: Unit) -> bool {
    &&& b.alive()
    &&& opposes(a.faction, b.faction)
    &&& dist_sq_spec(a.position, b.position) <= range_sq(a)
}

/// Index of the nearest unit among the first `n` that `a` can hit; the
/// first such unit wins a tie.
pub open spec fn nearest_in(s: Seq<Unit>, a: Unit, n: int) -> Option<int>
    decreases n,
{
    if n <= 0 {
        None
    } else {
        let best = nearest_in(s, a, n - 1);
        if can_hit(a, s[n - 1]) && (best matches Some(b) ==> dist_sq_spec(a.position, s[n - 1].position)
            < dist_sq_spec(a.position, s[b].position)) {
            Some(n - 1)
        } else {
            best
        }
    }
}

/// Whether a live unit carries identifier `id`.
pub open spec fn holds_live(s: Seq<Unit>, id: u64) -> bool {
    exists|k: int| 0 <= k < s.len() && s[k].id == id && s[k].alive()
}

pub open spec fn with_combat(a: Unit, target: Option<u64>, since: u64) -> Unit {
    Unit {
        combat: CombatTarget {
            target_entity: target,
            since_last_attack_ms: since,
            attack_cooldown_ms: a.combat.attack_cooldown_ms,
        },
        ..a
    }
}

pub open spec fn with_health(a: Unit, h: u64) -> Unit {
    Unit { health: h, ..a }
}

/// Health left after a blow, never below zero.
pub open spec fn health_after(h: u64, damage: u64) -> u64 {
    if h > damage {
        (h - damage) as u64
    } else {
        0
    }
}

/// One unit's turn in the combat step, `dt` milliseconds after the last.
///
/// A dead unit does nothing. A live unit's attack timer advances by `dt`.
/// A unit without damage does nothing more. Once the timer reaches the
/// cooldown, the unit takes the nearest enemy in range as its target
/// (lowest identifier on a tie); if there is one it strikes: the target
/// loses `damage` health, the timer restarts, an attack is reported, and a
/// target brought to zero is reported eliminated, scored, and dropped as a
/// target. Before the cooldown the unit keeps a target that is still alive;
/// without one it takes the nearest enemy in range, if any, as its target.
pub open spec fn combat_turn(
    s: Seq<Unit>,
    ev: Seq<GameEvent>,
    sc: Scores,
    i: int,
    dt: u64,
) -> (Seq<Unit>, Seq<GameEvent>, Scores) {
    let a = s[i];
    let since = sat_add(a.combat.since_last_attack_ms, dt);
    if !a.alive() {
        (s, ev, sc)
    } else if a.damage == 0 {
        (s.update(i, with_combat(a, a.combat.target_entity, since)), ev, sc)
    } else if since >= a.combat.attack_cooldown_ms {
        match nearest_in(s, a, s.len() as int) {
            None => (s.update(i, with_combat(a, None, since)), ev, sc),
            Some(k) => {
                let t = s[k];
                let h = health_after(t.health, a.damage);
                let s2 = s.update(k, with_health(t, h)).update(
                    i,
                    with_combat(a, if h == 0 { None } else { Some(t.id) }, 0),
                );
                let ev2 = ev.push(
                    GameEvent::Attack { attacker: a.id, target: t.id, damage: a.damage, health_after: h },
                );
                if h == 0 {
                    (
                        s2,
                        ev2.push(
                            GameEvent::Eliminated { id: t.id, unit_type: t.unit_type, faction: t.faction },
                        ),
                        score_death(sc, t.unit_type, t.faction),
                    )
                } else {
                    (s2, ev2, sc)
                }
            },
        }
    } else {
        let keep = match a.combat.target_entity {
            Some(id) => holds_live(s, id),
            None => false,
        };
        let target = if keep {
            a.combat.target_entity
        } else {
            match nearest_in(s, a, s.len() as int) {
                Some(k) => Some(s[k].id),
                None => None,
            }
        };
        (s.update(i, with_combat(a, target, since)), ev, sc)
    }
}

/// The turns of the first `n` units, in order.
pub open spec fn combat_pass(
    s: Seq<Unit>,
    ev: Seq<GameEvent>,
    sc: Scores,
    n: int,
    dt: u64,
) -> (Seq<Unit>, Seq<GameEvent>, Scores)
    decreases n,
{
    if n <= 0 {
        (s, ev, sc)
    } else {
        let p = combat_pass(s, ev, sc, n - 1, dt);
        combat_turn(p.0, p.1, p.2, n - 1, dt)
    }
}

/// `b` is `a` with at most its health lowered and its combat state changed.
pub open spec fn same_frame(a: Unit, b: Unit) -> bool {
    &&& b.id == a.id
    &&& b.unit_type == a.unit_type
    &&& b.faction == a.faction
    &&& b.max_health == a.max_health
    &&& b.health <= a.health
    &&& b.damage == a.damage
    &&& b.range == a.range
    &&& b.movement_speed == a.movement_speed
    &&& b.position == a.position
    &&& b.movement == a.movement
    &&& b.combat.attack_cooldown_ms == a.combat.attack_cooldown_ms
    &&& b.burn_left_ms == a.burn_left_ms
    &&& b.panic_ppm == a.panic_ppm
}

pub open spec fn frames_kept(s: Seq<Unit>, r: Seq<Unit>) -> bool {
    r.len() == s.len() && forall|k: int| 0 <= k < s.len() ==> same_frame(s[k], #[trigger] r[k])
}

proof fn lemma_nearest_in_bounds(s: Seq<Unit>, a: Unit, n: int)
    requires
        n <= s.len(),
    ensures
        nearest_in(s, a, n) matches Some(k) ==> 0 <= k < n && can_hit(a, s[k]),
    decreases n,
{
    if n > 0 {
        lemma_nearest_in_bounds(s, a, n - 1);
    }
}

pub proof fn lemma_turn_keeps_frames(s: Seq<Unit>, ev: Seq<GameEvent>, sc: Scores, i: int, dt: u64)
    requires
        0 <= i < s.len(),
    ensures
        frames_kept(s, combat_turn(s, ev, sc, i, dt).0),
{
    lemma_nearest_in_bounds(s, s[i], s.len() as int);
}

pub proof fn lemma_frames_kept_trans(a: Seq<Unit>, b: Seq<Unit>, c: Seq<Unit>)
    requires
        frames_kept(a, b),
        frames_kept(b, c),
    ensures
        frames_kept(a, c),
{
    assert forall|k: int| 0 <= k < a.len() implies same_frame(a[k], #[trigger] c[k]) by {
        assert(same_frame(a[k], b[k]));
        assert(same_frame(b[k], c[k]));
    }
}

pub proof fn lemma_frames_keep_wf(s: Seq<Unit>, r: Seq<Unit>, next: u64)
    requires
        frames_kept(s, r),
        ids_ordered(s, next),
        single_vip(s),
        units_wf(s),
    ensures
        ids_ordered(r, next),
        single_vip(r),
        units_wf(r),
{
    assert forall|i: int, j: int| 0 <= i < j < r.len() implies r[i].id < r[j].id by {
        assert(same_frame(s[i], r[i]));
        assert(same_frame(s[j], r[j]));
    }
    assert forall|i: int| 0 <= i < r.len() implies r[i].id < next && r[i].wf() by {
        assert(same_frame(s[i], r[i]));
    }
    assert forall|i: int, j: int|
        0 <= i < r.len() && 0 <= j < r.len() && r[i].is_vip() && r[j].is_vip() implies i == j by {
        assert(same_frame(s[i], r[i]));
        assert(same_frame(s[j], r[j]));
    }
}

pub proof fn lemma_pass_keeps_frames(s: Seq<Unit>, ev: Seq<GameEvent>, sc: Scores, n: int, dt: u64)
    requires
        0 <= n <= s.len(),
    ensures
        frames_kept(s, combat_pass(s, ev, sc, n, dt).0),
    decreases n,
{
    if n > 0 {
        lemma_pass_keeps_frames(s, ev, sc, n - 1, dt);
        let p = combat_pass(s, ev, sc, n - 1, dt);
        lemma_turn_keeps_frames(p.0, p.1, p.2, n - 1, dt);
        lemma_frames_kept_trans(s, p.0, combat_turn(p.0, p.1, p.2, n - 1, dt).0);
    } else {
        assert forall|k: int| 0 <= k < s.len() implies same_frame(s[k], #[trigger] s[k]) by {}
    }
}

/// The cooldown holds: in its turn a unit strikes (reports an attack) only
/// once its timer, advanced by `dt`, has reached the cooldown, and striking
/// restarts its timer at zero. A turn without a strike leaves the timer of a
/// live unit advanced by `dt`. So two strikes of one unit are always at
/// least a cooldown of simulated time apart.
pub proof fn lemma_cooldown_respected(s: Seq<Unit>, ev: Seq<GameEvent>, sc: Scores, i: int, dt: u64)
    requires
        0 <= i < s.len(),
    ensures
        ({
            let r = combat_turn(s, ev, sc, i, dt);
            let since = sat_add(s[i].combat.since_last_attack_ms, dt);
            &&& r.1.len() >= ev.len()
            &&& r.1.subrange(0, ev.len() as int) == ev
            &&& r.1.len() > ev.len() ==> r.1[ev.len() as int] == (GameEvent::Attack {
                attacker: s[i].id,
                target: r.1[ev.len() as int]->Attack_target,
                damage: s[i].damage,
                health_after: r.1[ev.len() as int]->Attack_health_after,
            })
            &&& r.1.len() > ev.len() ==> since >= s[i].combat.attack_cooldown_ms && r.0[i].combat.since_last_attack_ms == 0
            &&& r.1.len() == ev.len() && s[i].alive() ==> r.0[i].combat.since_last_attack_ms == since
        }),
{
    lemma_nearest_in_bounds(s, s[i], s.len() as int);
    let r = combat_turn(s, ev, sc, i, dt);
    assert(r.1.subrange(0, ev.len() as int) =~= ev);
}

/// No blow lands on the dead: a strike in a turn goes to a unit that was
/// alive, of the opposing side and in range, and it is the only unit whose
/// health changes.
pub proof fn lemma_blows_hit_the_living(s: Seq<Unit>, ev: Seq<GameEvent>, sc: Scores, i: int, dt: u64)
    requires
        0 <= i < s.len(),
    ensures
        ({
            let r = combat_turn(s, ev, sc, i, dt);
            r.1.len() > ev.len() ==> exists|k: int|
                0 <= k < s.len() && #[trigger] s[k].id == r.1[ev.len() as int]->Attack_target
                    && can_hit(s[i], s[k]) && r.0[k].health == health_after(s[k].health, s[i].damage)
                    && forall|m: int| 0 <= m < s.len() && m != k ==> #[trigger] r.0[m].health == s[m].health
        }),
{
    lemma_nearest_in_bounds(s, s[i], s.len() as int);
}

/// How a unit's attack timer goes over one combat step of `dt` milliseconds:
/// restarted at zero once it has reached the cooldown, or advanced by `dt`.
pub open spec fn timer_step(before: Unit, after: Unit, dt: u64) -> bool {
    let advanced = sat_add(before.combat.since_last_attack_ms, dt);
    (after.combat.since_last_attack_ms == 0 && advanced >= before.combat.attack_cooldown_ms)
        || after.combat.since_last_attack_ms == advanced
}

proof fn lemma_turn_timer(s: Seq<Unit>, ev: Seq<GameEvent>, sc: Scores, i: int, dt: u64)
    requires
        0 <= i < s.len(),
    ensures
        ({
            let r = combat_turn(s, ev, sc, i, dt).0;
            &&& s[i].alive() ==> timer_step(s[i], r[i], dt)
            &&& forall|m: int|
                0 <= m < s.len() && m != i ==> (#[trigger] r[m]).combat.since_last_attack_ms
                    == s[m].combat.since_last_attack_ms
        }),
{
    lemma_nearest_in_bounds(s, s[i], s.len() as int);
}

proof fn lemma_pass_timer(s: Seq<Unit>, ev: Seq<GameEvent>, sc: Scores, n: int, dt: u64)
    requires
        0 <= n <= s.len(),
    ensures
        ({
            let r = combat_pass(s, ev, sc, n, dt).0;
            &&& forall|k: int| 0 <= k < n && (#[trigger] r[k]).alive() ==> timer_step(s[k], r[k], dt)
            &&& forall|k: int|
                n <= k < s.len() ==> (#[trigger] r[k]).combat.since_last_attack_ms
                    == s[k].combat.since_last_attack_ms
        }),
    decreases n,
{
    if n > 0 {
        lemma_pass_timer(s, ev, sc, n - 1, dt);
        lemma_pass_keeps_frames(s, ev, sc, n - 1, dt);
        let p = combat_pass(s, ev, sc, n - 1, dt);
        lemma_turn_timer(p.0, p.1, p.2, n - 1, dt);
        lemma_turn_keeps_frames(p.0, p.1, p.2, n - 1, dt);
        let r = combat_pass(s, ev, sc, n, dt).0;
        assert forall|k: int| 0 <= k < n && (#[trigger] r[k]).alive() implies timer_step(s[k], r[k], dt) by {
            assert(same_frame(s[k], p.0[k]));
            assert(same_frame(p.0[k], r[k]));
            if k < n - 1 {
                assert(p.0[k].alive());
            }
        }
        assert forall|k: int| n <= k < s.len() implies (#[trigger] r[k]).combat.since_last_attack_ms
            == s[k].combat.since_last_attack_ms by {
            assert(p.0[k].combat.since_last_attack_ms == s[k].combat.since_last_attack_ms);
        }
    }
}

/// Simulated time covered by steps `a` up to `b` (excluded) of durations `dts`.
pub open spec fn elapsed_between(dts: Seq<u64>, a: int, b: int) -> int
    decreases b - a,
{
    if b <= a {
        0
    } else {
        elapsed_between(dts, a, b - 1) + dts[b - 1]
    }
}

/// One unit's attack timer over consecutive combat steps: `timer[m]` is the
/// timer before step `m`, `dts[m]` the step's duration, `struck[m]` whether
/// the unit struck in it. A strike needs the cooldown reached and restarts
/// the timer (`lemma_cooldown_respected`); any step goes by `timer_step`
/// (`unit_combat_system`).
pub open spec fn timer_history(timer: Seq<u64>, dts: Seq<u64>, struck: Seq<bool>, cooldown: u64) -> bool {
    &&& timer.len() == dts.len() + 1
    &&& struck.len() == dts.len()
    &&& forall|m: int|
        0 <= m < dts.len() && #[trigger] struck[m] ==> sat_add(timer[m], dts[m]) >= cooldown
            && timer[m + 1] == 0
    &&& forall|m: int|
        0 <= m < dts.len() && !#[trigger] struck[m] ==> (timer[m + 1] == 0 && sat_add(timer[m], dts[m])
            >= cooldown) || timer[m + 1] == sat_add(timer[m], dts[m])
}

proof fn lemma_timer_bounded(timer: Seq<u64>, dts: Seq<u64>, struck: Seq<bool>, cooldown: u64, j: int, m: int)
    requires
        timer_history(timer, dts, struck, cooldown),
        0 <= j < dts.len(),
        struck[j],
        j + 1 <= m <= dts.len(),
    ensures
        timer[m] <= elapsed_between(dts, j + 1, m),
    decreases m - j,
{
    if m > j + 1 {
        lemma_timer_bounded(timer, dts, struck, cooldown, j, m - 1);
        if struck[m - 1] {
            assert(timer[m] == 0);
        } else {
            assert(timer[m] == 0 || timer[m] == sat_add(timer[m - 1], dts[m - 1]));
        }
    } else {
        assert(struck[j] ==> timer[j + 1] == 0);
    }
}

/// The cooldown window: whatever the step durations, two strikes of one unit,
/// in steps `j < k`, are at least a cooldown of simulated time apart (the time
/// of steps `j + 1` through `k`).
pub proof fn lemma_cooldown_window(
    timer: Seq<u64>,
    dts: Seq<u64>,
    struck: Seq<bool>,
    cooldown: u64,
    j: int,
    k: int,
)
    requires
        timer_history(timer, dts, struck, cooldown),
        0 <= j < k < dts.len(),
        struck[j],
        struck[k],
    ensures
        elapsed_between(dts, j + 1, k + 1) >= cooldown,
{
    lemma_timer_bounded(timer, dts, struck, cooldown, j, k);
    assert(struck[k] ==> sat_add(timer[k], dts[k]) >= cooldown);
}

/// Index of the nearest unit that `a` can hit, if any.
pub fn find_nearest(units: &Vec<Unit>, a: &Unit) -> (r: Option<usize>)
    requires
        units_wf(units@),
        a.wf(),
    ensures
        r matches Some(k) ==> nearest_in(units@, *a, units@.len() as int) == Some(k as int),
        r is None ==> nearest_in(units@, *a, units@.len() as int) is None,
        r matches Some(k) ==> k < units@.len() && can_hit(*a, units@[k as int]),
        r matches Some(k) ==> forall|j: int|
            0 <= j < units@.len() && can_hit(*a, #[trigger] units@[j]) ==> dist_sq_spec(
                a.position,
                units@[k as int].position,
            ) <= dist_sq_spec(a.position, units@[j].position),
        r is None ==> forall|j: int| 0 <= j < units@.len() ==> !can_hit(*a, #[trigger] units@[j]),
{
    assert(a.range <= 1_000_000);
    let reach: u64 = a.range * 1000;
    assert(reach * reach <= 1_000_000_000 * 1_000_000_000) by (nonlinear_arith)
        requires reach <= 1_000_000_000;
    let reach_sq: u64 = reach * reach;
    let mut best: Option<usize> = None;
    let mut best_d: u64 = 0;
    let mut i: usize = 0;
    while i < units.len()
        invariant
            i <= units@.len(),
            units_wf(units@),
            a.wf(),
            reach_sq == range_sq(*a),
            best matches Some(k) ==> nearest_in(units@, *a, i as int) == Some(k as int),
            best is None ==> nearest_in(units@, *a, i as int) is None,
            best matches Some(k) ==> k < i && can_hit(*a, units@[k as int]) && best_d
                == dist_sq_spec(a.position, units@[k as int].position),
            best matches Some(k) ==> forall|j: int|
                0 <= j < i && can_hit(*a, #[trigger] units@[j]) ==> best_d <= dist_sq_spec(
                    a.position,
                    units@[j].position,
                ),
            best is None ==> forall|j: int| 0 <= j < i ==> !can_hit(*a, #[trigger] units@[j]),
        decreases units@.len() - i,
    {
        proof {
            lemma_nearest_in_bounds(units@, *a, i as int);
        }
        let u = &units[i];
        if u.health > 0 && factions_oppose(a.faction, u.faction) {
            let d = dist_sq(a.position, u.position);
            if d <= reach_sq {
                let better = match best {
                    None => true,
                    Some(_) => d < best_d,
                };
                if better {
                    best = Some(i);
                    best_d = d;
                }
            }
        }
        i = i + 1;
    }
    best
}

/// Whether a live unit carries identifier `id`.
pub fn is_live_id(units: &Vec<Unit>, id: u64) -> (r: bool)
    ensures
        r == holds_live(units@, id),
{
    let mut i: usize = 0;
    while i < units.len()
        invariant
            i <= units@.len(),
            forall|k: int| 0 <= k < i ==> !(units@[k].id == id && units@[k].alive()),
        decreases units@.len() - i,
    {
        if units[i].id == id && units[i].health > 0 {
            return true;
        }
        i = i + 1;
    }
    false
}

/// Plays the turn of unit `i`; see `combat_turn`.
pub fn resolve_turn(
    units: &mut Vec<Unit>,
    i: usize,
    dt: u64,
    events: &mut Vec<GameEvent>,
    scores: &mut Scores,
)
    requires
        i < old(units)@.len(),
        units_wf(old(units)@),
    ensures
        (final(units)@, final(events)@, *final(scores)) == combat_turn(
            old(units)@,
            old(events)@,
            *old(scores),
            i as int,
            dt,
        ),
{
    let a = units[i];
    let since = a.combat.since_last_attack_ms.saturating_add(dt);
    if a.health == 0 {
        return;
    }
    if a.damage == 0 {
        units.set(i, Unit { combat: CombatTarget { since_last_attack_ms: since, ..a.combat }, ..a });
        return;
    }
    if since >= a.combat.attack_cooldown_ms {
        match find_nearest(units, &a) {
            None => {
                units.set(
                    i,
                    Unit {
                        combat: CombatTarget {
                            target_entity: None,
                            since_last_attack_ms: since,
                            ..a.combat
                        },
                        ..a
                    },
                );
            },
            Some(k) => {
                proof {
                    lemma_nearest_in_bounds(units@, a, units@.len() as int);
                }
                let t = units[k];
                let h: u64 = if t.health > a.damage {
                    t.health - a.damage
                } else {
                    0
                };
                units.set(k, Unit { health: h, ..t });
                let target = if h == 0 {
                    None
                } else {
                    Some(t.id)
                };
                units.set(
                    i,
                    Unit {
                        combat: CombatTarget {
                            target_entity: target,
                            since_last_attack_ms: 0,
                            ..a.combat
                        },
                        ..a
                    },
                );
                events.push(
                    GameEvent::Attack {
                        attacker: a.id,
                        target: t.id,
                        damage: a.damage,
                        health_after: h,
                    },
                );
                if h == 0 {
                    events.push(
                        GameEvent::Eliminated { id: t.id, unit_type: t.unit_type, faction: t.faction },
                    );
                    scores.record_death(t.unit_type, t.faction);
                }
            },
        }
    } else {
        let keep = match a.combat.target_entity {
            Some(id) => is_live_id(units, id),
            None => false,
        };
        let target = if keep {
            a.combat.target_entity
        } else {
            match find_nearest(units, &a) {
                Some(k) => {
                    proof {
                        lemma_nearest_in_bounds(units@, a, units@.len() as int);
                    }
                    Some(units[k].id)
                },
                None => None,
            }
        };
        units.set(
            i,
            Unit {
                combat: CombatTarget { target_entity: target, since_last_attack_ms: since, ..a.combat },
                ..a
            },
        );
    }
}

/// The combat step: every unit plays its turn in registry order, then the
/// dead are removed. No unit at zero health is left afterwards.
pub fn unit_combat_system(
    reg: &mut Registry,
    dt: u64,
    events: &mut Vec<GameEvent>,
    scores: &mut Scores,
)
    requires
        old(reg).wf(),
    ensures
        final(reg).wf(),
        final(reg).next_id == old(reg).next_id,
        ({
            let r = combat_pass(old(reg)@, old(events)@, *old(scores), old(reg)@.len() as int, dt);
            final(reg)@ == live_units(r.0) && final(events)@ == r.1 && *final(scores) == r.2
        }),
        forall|k: int| 0 <= k < final(reg)@.len() ==> (#[trigger] final(reg)@[k]).alive(),
        forall|k: int|
            0 <= k < final(reg)@.len() ==> exists|j: int|
                0 <= j < old(reg)@.len() && #[trigger] old(reg)@[j].id == (#[trigger] final(reg)@[k]).id
                    && timer_step(old(reg)@[j], final(reg)@[k], dt),
{
    let ghost s0 = reg.units@;
    let ghost ev0 = events@;
    let ghost sc0 = *scores;
    let n = reg.units.len();
    let mut i: usize = 0;
    while i < n
        invariant
            n == s0.len(),
            i <= n,
            reg.next_id == old(reg).next_id,
            ids_ordered(s0, reg.next_id),
            single_vip(s0),
            units_wf(s0),
            (reg.units@, events@, *scores) == combat_pass(s0, ev0, sc0, i as int, dt),
            frames_kept(s0, reg.units@),
        decreases n - i,
    {
        proof {
            lemma_pass_keeps_frames(s0, ev0, sc0, i as int, dt);
            lemma_frames_keep_wf(s0, reg.units@, reg.next_id);
        }
        resolve_turn(&mut reg.units, i, dt, events, scores);
        proof {
            lemma_pass_keeps_frames(s0, ev0, sc0, i + 1, dt);
        }
        i = i + 1;
    }
    proof {
        lemma_frames_keep_wf(s0, reg.units@, reg.next_id);
    }
    reg.sweep_dead();
    proof {
        let c = combat_pass(s0, ev0, sc0, n as int, dt).0;
        crate::registry::lemma_live_units_alive(c);
        lemma_pass_timer(s0, ev0, sc0, n as int, dt);
        lemma_pass_keeps_frames(s0, ev0, sc0, n as int, dt);
        assert forall|k: int| 0 <= k < reg.units@.len() implies exists|j: int|
            0 <= j < s0.len() && #[trigger] s0[j].id == (#[trigger] reg.units@[k]).id
                && timer_step(s0[j], reg.units@[k], dt) by {
            let f = |u: Unit| u.alive();
            assert(c.filter(f).contains(reg.units@[k]));
            c.lemma_filter_contains_rev(f, reg.units@[k]);
            let jj = choose|jj: int| 0 <= jj < c.len() && c[jj] == reg.units@[k];
            assert(same_frame(s0[jj], c[jj]));
            assert(c[jj].alive());
        }
    }
}

} // verus!
