use vstd::prelude::*;
use crate::combat::{holds_live, is_live_id};
use crate::geometry::Point;
use crate::mission::GamePhase;
use crate::registry::{lemma_same_identities_keep_wf, same_identities, Registry};
use crate::units::{Faction, MovementTarget, Unit};

verus! {

/// The cartel safehouse, where the military heads when it knows nothing
/// better, in thousandths of a unit.
pub const SAFEHOUSE_X: i64 = -300_000;
pub const SAFEHOUSE_Y: i64 = 200_000;
/// Where the military takes its convoy out, its base at (600, 200), in
/// thousandths of a unit.
pub const EXTRACTION_X: i64 = 600_000;
pub const EXTRACTION_Y: i64 = 200_000;

pub open spec fn safehouse() -> Point {
    Point { x: SAFEHOUSE_X, y: SAFEHOUSE_Y }
}

pub open spec fn extraction_point() -> Point {
    Point { x: EXTRACTION_X, y: EXTRACTION_Y }
}

/// What a unit's policy asks of its movement this tick.
#[derive(Clone, Copy, Debug, PartialEq, Eq, Structural)]
pub enum MoveIntent {
    /// Leave the movement state as it is.
    Hold,
    /// Head for this point.
    GoTo(Point),
}

/// The policy table, keyed by faction and phase. The cartel and civilians
/// hold. The military holds once the mission is over;
/// during the convoy phase it heads for the extraction point whatever it is
/// fighting; in the other phases a unit that is not engaged heads for the
/// VIP if its location is known, else for the safehouse.
pub open spec fn decide_spec(f: Faction, p: GamePhase, engaged: bool, vip: Option<Point>) -> MoveIntent {
    match f {
        Faction::MexicanMilitary => match p {
            GamePhase::Victory | GamePhase::GameOver => MoveIntent::Hold,
            GamePhase::BlockConvoy => MoveIntent::GoTo(extraction_point()),
            _ => if engaged {
                MoveIntent::Hold
            } else {
                match vip {
                    Some(v) => MoveIntent::GoTo(v),
                    None => MoveIntent::GoTo(safehouse()),
                }
            },
        },
        _ => MoveIntent::Hold,
    }
}

pub fn decide(f: Faction, p: GamePhase, engaged: bool, vip: Option<Point>) -> (r: MoveIntent)
    ensures
        r == decide_spec(f, p, engaged, vip),
{
    match f {
        Faction::MexicanMilitary => match p {
            GamePhase::Victory | GamePhase::GameOver => MoveIntent::Hold,
            GamePhase::BlockConvoy => MoveIntent::GoTo(Point { x: EXTRACTION_X, y: EXTRACTION_Y }),
            _ => if engaged {
                MoveIntent::Hold
            } else {
                match vip {
                    Some(v) => MoveIntent::GoTo(v),
                    None => MoveIntent::GoTo(Point { x: SAFEHOUSE_X, y: SAFEHOUSE_Y }),
                }
            },
        },
        _ => MoveIntent::Hold,
    }
}

/// Whether a unit is fighting a live target.
pub open spec fn engaged(s: Seq<Unit>, a: Unit) -> bool {
    a.combat.target_entity matches Some(id) && holds_live(s, id)
}

/// A unit after its policy has been applied.
pub open spec fn apply_intent(a: Unit, m: MoveIntent) -> Unit {
    match m {
        MoveIntent::Hold => a,
        MoveIntent::GoTo(p) => Unit { movement: MovementTarget { destination: Some(p), is_moving: true }, ..a },
    }
}

/// Every unit after its policy has been applied.
pub open spec fn ai_pass(s: Seq<Unit>, phase: GamePhase, vip: Option<Point>) -> Seq<Unit> {
    Seq::new(s.len(), |k: int| apply_intent(s[k], decide_spec(s[k].faction, phase, engaged(s, s[k]), vip)))
}

/// The AI step: each unit's movement follows its policy, given the phase and
/// the VIP's position if the military knows it (a well-formed point).
pub fn ai_behavior_system(reg: &mut Registry, phase: GamePhase, vip: Option<Point>)
    requires
        old(reg).wf(),
        vip matches Some(v) ==> v.wf(),
    ensures
        final(reg).wf(),
        final(reg).next_id == old(reg).next_id,
        final(reg)@ == ai_pass(old(reg)@, phase, vip),
{
    let ghost s0 = reg.units@;
    let n = reg.units.len();
    let mut i: usize = 0;
    while i < n
        invariant
            n == s0.len() == reg.units@.len(),
            i <= n,
            reg.next_id == old(reg).next_id,
            old(reg).wf(),
            s0 == old(reg)@,
            vip matches Some(v) ==> v.wf(),
            same_identities(s0, reg.units@),
            forall|k: int| 0 <= k < n ==> (#[trigger] reg.units@[k]).health == s0[k].health,
            forall|k: int|
                0 <= k < i ==> #[trigger] reg.units@[k] == apply_intent(
                    s0[k],
                    decide_spec(s0[k].faction, phase, engaged(s0, s0[k]), vip),
                ),
            forall|k: int| i <= k < n ==> #[trigger] reg.units@[k] == s0[k],
        decreases n - i,
    {
        let a = reg.units[i];
        let live = match a.combat.target_entity {
            Some(id) => is_live_id(&reg.units, id),
            None => false,
        };
        proof {
            if let Some(id) = a.combat.target_entity {
                if holds_live(reg.units@, id) {
                    let k = choose|k: int| 0 <= k < reg.units@.len() && reg.units@[k].id == id && reg.units@[k].alive();
                    assert(s0[k].id == id && s0[k].alive());
                }
                if holds_live(s0, id) {
                    let k = choose|k: int| 0 <= k < s0.len() && s0[k].id == id && s0[k].alive();
                    assert(reg.units@[k].id == id && reg.units@[k].alive());
                }
            }
        }
        match decide(a.faction, phase, live, vip) {
            MoveIntent::Hold => {},
            MoveIntent::GoTo(p) => {
                reg.units.set(
                    i,
                    Unit { movement: MovementTarget { destination: Some(p), is_moving: true }, ..a },
                );
            },
        }
        i = i + 1;
    }
    proof {
        lemma_same_identities_keep_wf(s0, reg.units@, reg.next_id);
        assert(reg.units@ =~= ai_pass(s0, phase, vip));
    }
}

} // verus!
