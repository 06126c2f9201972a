use vstd::prelude::*;
use crate::geometry::{dist_sq, dist_sq_spec, distance, distance_spec, step_toward, step_toward_spec, Point};
use crate::registry::{ids_ordered, lemma_same_identities_keep_wf, same_identities, single_vip, units_wf, Registry};
use crate::units::{MovementTarget, Unit};

verus! {

/// A unit closer than this to its destination, in thousandths, has arrived.
pub const ARRIVAL_MILLI: u64 = 5_000;

/// Index of the first live unit among the first `n` that carries `id`.
pub open spec fn live_index(s: Seq<Unit>, id: u64, n: int) -> Option<int>
    decreases n,
{
    if n <= 0 {
        None
    } else {
        match live_index(s, id, n - 1) {
            Some(k) => Some(k),
            None => if s[n - 1].id == id && s[n - 1].alive() {
                Some(n - 1)
            } else {
                None
            },
        }
    }
}

/// Square of 80% of a unit's range, in squared thousandths: a target
/// farther than that is chased.
pub open spec fn engage_sq(a: Unit) -> int {
    (a.range * 800) * (a.range * 800)
}

/// How far a unit goes in `dt` milliseconds, in thousandths of a unit.
pub open spec fn stride(a: Unit, dt: u64) -> int {
    a.movement_speed * dt
}

/// Where the unit chases its target to, if it does: a live target farther
/// than 80% of the range.
pub open spec fn chase_point(s: Seq<Unit>, a: Unit) -> Option<Point> {
    match a.combat.target_entity {
        Some(id) => match live_index(s, id, s.len() as int) {
            Some(k) => if dist_sq_spec(a.position, s[k].position) > engage_sq(a) {
                Some(s[k].position)
            } else {
                None
            },
            None => None,
        },
        None => None,
    }
}

/// One unit's move over `dt` milliseconds. Chasing a target out of
/// effective range comes first; otherwise a moving unit heads for its
/// destination, and one that is within the arrival distance lands on it and
/// stops. Each move advances by `speed * dt` along the straight line, but
/// never past the point it heads for (see `step_toward_spec`).
pub open spec fn move_turn(s: Seq<Unit>, i: int, dt: u64) -> Seq<Unit> {
    let a = s[i];
    match chase_point(s, a) {
        Some(p) => s.update(i, Unit { position: step_toward_spec(a.position, p, stride(a, dt)), ..a }),
        None => match a.movement.destination {
            Some(p) => if !a.movement.is_moving {
                s
            } else if distance_spec(a.position, p) < ARRIVAL_MILLI {
                s.update(
                    i,
                    Unit { position: p, movement: MovementTarget { destination: Some(p), is_moving: false }, ..a },
                )
            } else {
                s.update(i, Unit { position: step_toward_spec(a.position, p, stride(a, dt)), ..a })
            },
            None => s,
        },
    }
}

/// The moves of the first `n` units, in order.
pub open spec fn move_pass(s: Seq<Unit>, n: int, dt: u64) -> Seq<Unit>
    decreases n,
{
    if n <= 0 {
        s
    } else {
        move_turn(move_pass(s, n - 1, dt), n - 1, dt)
    }
}

/// Index of the first live unit that carries `id`.
pub fn find_live(units: &Vec<Unit>, id: u64) -> (r: Option<usize>)
    ensures
        r matches Some(k) ==> live_index(units@, id, units@.len() as int) == Some(k as int) && k
            < units@.len(),
        r is None ==> live_index(units@, id, units@.len() as int) is None,
{
    let mut i: usize = 0;
    while i < units.len()
        invariant
            i <= units@.len(),
            live_index(units@, id, i as int) is None,
        decreases units@.len() - i,
    {
        if units[i].id == id && units[i].health > 0 {
            proof {
                lemma_live_index_stable(units@, id, i + 1, units@.len() as int);
            }
            return Some(i);
        }
        i = i + 1;
    }
    None
}

proof fn lemma_live_index_stable(s: Seq<Unit>, id: u64, m: int, n: int)
    requires
        0 <= m <= n,
        live_index(s, id, m) is Some,
    ensures
        live_index(s, id, n) == live_index(s, id, m),
    decreases n - m,
{
    if n > m {
        lemma_live_index_stable(s, id, m, n - 1);
    }
}

/// Plays the move of unit `i`; see `move_turn`.
pub fn move_unit(units: &mut Vec<Unit>, i: usize, dt: u64)
    requires
        i < old(units)@.len(),
        units_wf(old(units)@),
    ensures
        final(units)@ == move_turn(old(units)@, i as int, dt),
        same_identities(old(units)@, final(units)@),
{
    let a = units[i];
    assert(a.wf());
    assert((a.movement_speed as int) * (dt as int) <= 1_000_000 * 0xffff_ffff_ffff_ffff) by (nonlinear_arith)
        requires a.movement_speed <= 1_000_000, dt <= 0xffff_ffff_ffff_ffffint;
    let step: u128 = a.movement_speed as u128 * dt as u128;
    let mut chase: Option<Point> = None;
    if let Some(id) = a.combat.target_entity {
        if let Some(k) = find_live(units, id) {
            let reach: u64 = a.range * 800;
            assert(reach * reach <= 800_000_000 * 800_000_000) by (nonlinear_arith)
                requires reach <= 800_000_000;
            let t = units[k].position;
            if dist_sq(a.position, t) > reach * reach {
                chase = Some(t);
            }
        }
    }
    match chase {
        Some(p) => {
            units.set(i, Unit { position: step_toward(a.position, p, step), ..a });
        },
        None => {
            if let Some(p) = a.movement.destination {
                if a.movement.is_moving {
                    if distance(a.position, p) < ARRIVAL_MILLI {
                        units.set(
                            i,
                            Unit {
                                position: p,
                                movement: MovementTarget { destination: Some(p), is_moving: false },
                                ..a
                            },
                        );
                    } else {
                        units.set(i, Unit { position: step_toward(a.position, p, step), ..a });
                    }
                }
            }
        },
    }
}

/// The movement step: every unit moves in registry order.
pub fn unit_movement_system(reg: &mut Registry, dt: u64)
    requires
        old(reg).wf(),
    ensures
        final(reg).wf(),
        final(reg).next_id == old(reg).next_id,
        final(reg)@ == move_pass(old(reg)@, old(reg)@.len() as int, dt),
{
    let ghost s0 = reg.units@;
    let n = reg.units.len();
    let mut i: usize = 0;
    while i < n
        invariant
            n == s0.len(),
            i <= n,
            reg.next_id == old(reg).next_id,
            ids_ordered(s0, reg.next_id),
            single_vip(s0),
            reg.units@ == move_pass(s0, i as int, dt),
            same_identities(s0, reg.units@),
        decreases n - i,
    {
        proof {
            lemma_same_identities_keep_wf(s0, reg.units@, reg.next_id);
        }
        move_unit(&mut reg.units, i, dt);
        i = i + 1;
    }
    proof {
        lemma_same_identities_keep_wf(s0, reg.units@, reg.next_id);
    }
}

} // verus!
