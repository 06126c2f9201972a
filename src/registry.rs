use vstd::prelude::*;
use crate::units::{
    spec_problem, unit_from_spec, CombatTarget, ConfigError, EvacuationStatus, MovementTarget, Unit, UnitSpec,
    UnitType, ROADBLOCK_BURN_MS,
};

verus! {

/// Owns every unit of a match, in increasing order of identifier.
/// Identifiers are handed out in increasing order and never reused, so a
/// stale identifier never finds a newer unit.
pub struct Registry {
    pub units: Vec<Unit>,
    pub next_id: u64,
}

/// Identifiers strictly increase along the sequence and stay below `next`.
pub open spec fn ids_ordered(s: Seq<Unit>, next: u64) -> bool {
    &&& forall|i: int, j: int| 0 <= i < j < s.len() ==> s[i].id < s[j].id
    &&& forall|i: int| 0 <= i < s.len() ==> s[i].id < next
}

/// At most one VIP.
pub open spec fn single_vip(s: Seq<Unit>) -> bool {
    forall|i: int, j: int|
        0 <= i < s.len() && 0 <= j < s.len() && s[i].is_vip() && s[j].is_vip() ==> i == j
}

pub open spec fn units_wf(s: Seq<Unit>) -> bool {
    forall|i: int| 0 <= i < s.len() ==> s[i].wf()
}

pub open spec fn has_id(s: Seq<Unit>, id: u64) -> bool {
    exists|i: int| 0 <= i < s.len() && s[i].id == id
}

pub open spec fn has_vip(s: Seq<Unit>) -> bool {
    exists|i: int| 0 <= i < s.len() && s[i].is_vip()
}

/// The units of `s` still alive, in order.
pub open spec fn live_units(s: Seq<Unit>) -> Seq<Unit> {
    s.filter(|u: Unit| u.alive())
}

pub proof fn lemma_live_units_alive(s: Seq<Unit>)
    ensures
        forall|k: int| 0 <= k < live_units(s).len() ==> (#[trigger] live_units(s)[k]).alive(),
{
    assert forall|k: int| 0 <= k < live_units(s).len() implies (#[trigger] live_units(s)[k]).alive() by {
        s.lemma_filter_pred(|u: Unit| u.alive(), k);
    }
}

/// `r` holds the same units as `s`, in the same places, each still
/// well-formed.
pub open spec fn same_identities(s: Seq<Unit>, r: Seq<Unit>) -> bool {
    &&& r.len() == s.len()
    &&& forall|k: int|
        0 <= k < s.len() ==> (#[trigger] r[k]).id == s[k].id && r[k].unit_type == s[k].unit_type
            && r[k].wf()
}

pub proof fn lemma_same_identities_keep_wf(s: Seq<Unit>, r: Seq<Unit>, next: u64)
    requires
        same_identities(s, r),
        ids_ordered(s, next),
        single_vip(s),
    ensures
        ids_ordered(r, next),
        single_vip(r),
        units_wf(r),
{
    assert forall|i: int, j: int| 0 <= i < j < r.len() implies r[i].id < r[j].id by {
        assert(r[i].id == s[i].id && r[j].id == s[j].id);
    }
    assert forall|i: int, j: int|
        0 <= i < r.len() && 0 <= j < r.len() && r[i].is_vip() && r[j].is_vip() implies i == j by {
        assert(r[i].unit_type == s[i].unit_type && r[j].unit_type == s[j].unit_type);
    }
}

impl Registry {
    pub open spec fn view(&self) -> Seq<Unit> {
        self.units@
    }

    pub open spec fn wf(&self) -> bool {
        &&& ids_ordered(self.units@, self.next_id)
        &&& single_vip(self.units@)
        &&& units_wf(self.units@)
    }

    /// An empty registry.
    pub fn new() -> (r: Registry)
        ensures
            r.wf(),
            r@ == Seq::<Unit>::empty(),
            r.next_id == 0,
    {
        Registry { units: Vec::new(), next_id: 0 }
    }

    pub fn len(&self) -> (r: usize)
        ensures
            r == self@.len(),
    {
        self.units.len()
    }

    /// Whether a VIP is registered.
    pub fn vip_present(&self) -> (r: bool)
        ensures
            r == has_vip(self@),
    {
        let mut i: usize = 0;
        while i < self.units.len()
            invariant
                i <= self.units.len(),
                forall|k: int| 0 <= k < i ==> !self.units@[k].is_vip(),
            decreases self.units.len() - i,
        {
            if self.units[i].unit_type == UnitType::OvidioGuzman {
                return true;
            }
            i = i + 1;
        }
        false
    }

    /// Position of the unit with identifier `id`.
    pub fn index_of(&self, id: u64) -> (r: Option<usize>)
        ensures
            r matches Some(i) ==> i < self@.len() && self@[i as int].id == id,
            r is None <==> !has_id(self@, id),
    {
        let mut i: usize = 0;
        while i < self.units.len()
            invariant
                i <= self.units.len(),
                forall|k: int| 0 <= k < i ==> self.units@[k].id != id,
            decreases self.units.len() - i,
        {
            if self.units[i].id == id {
                return Some(i);
            }
            i = i + 1;
        }
        None
    }

    /// The unit with identifier `id`, if it is registered.
    pub fn get(&self, id: u64) -> (r: Option<&Unit>)
        ensures
            r matches Some(u) ==> u.id == id && self@.contains(*u),
            r is None <==> !has_id(self@, id),
    {
        match self.index_of(id) {
            Some(i) => Some(&self.units[i]),
            None => None,
        }
    }

    /// Registers a unit made from `spec` and returns its identifier.
    pub fn create(&mut self, spec: UnitSpec) -> (r: Result<u64, ConfigError>)
        requires
            old(self).wf(),
        ensures
            final(self).wf(),
            r is Ok <==> spec_problem(spec) is None && !(spec.unit_type == UnitType::OvidioGuzman
                && has_vip(old(self)@)) && old(self).next_id < u64::MAX,
            r matches Ok(id) ==> id == old(self).next_id && final(self)@ == old(self)@.push(
                unit_from_spec(spec, id),
            ) && final(self).next_id == id + 1,
            r matches Err(e) ==> final(self)@ == old(self)@ && final(self).next_id == old(
                self,
            ).next_id && (spec_problem(spec) matches Some(p) ==> e == p) && (spec_problem(spec) is None
                && spec.unit_type == UnitType::OvidioGuzman && has_vip(old(self)@)
                ==> e == ConfigError::SecondVip),
    {
        match spec.validate() {
            Err(e) => {
                return Err(e);
            },
            Ok(()) => {},
        }
        if spec.unit_type == UnitType::OvidioGuzman && self.vip_present() {
            return Err(ConfigError::SecondVip);
        }
        if self.next_id == u64::MAX {
            return Err(ConfigError::IdsExhausted);
        }
        let id = self.next_id;
        let burn = if spec.unit_type == UnitType::Roadblock {
            Some(ROADBLOCK_BURN_MS)
        } else {
            None
        };
        let u = Unit {
            id,
            unit_type: spec.unit_type,
            faction: spec.faction,
            health: spec.health as u64,
            max_health: spec.health as u64,
            damage: spec.damage as u64,
            range: spec.range as u64,
            movement_speed: spec.movement_speed as u64,
            position: spec.position,
            movement: MovementTarget { destination: None, is_moving: false },
            combat: CombatTarget {
                target_entity: None,
                since_last_attack_ms: 0,
                attack_cooldown_ms: spec.attack_cooldown_ms as u64,
            },
            burn_left_ms: burn,
            panic_ppm: 0,
            evacuation: EvacuationStatus::Normal,
        };
        self.units.push(u);
        self.next_id = id + 1;
        assert(single_vip(self.units@)) by {
            if spec.unit_type == UnitType::OvidioGuzman {
                assert forall|k: int| 0 <= k < old(self)@.len() implies !old(self)@[k].is_vip() by {
                    if old(self)@[k].is_vip() {
                        assert(has_vip(old(self)@));
                    }
                }
            }
        }
        Ok(id)
    }

    /// Removes the unit with identifier `id`; nothing happens if there is none.
    pub fn destroy(&mut self, id: u64)
        requires
            old(self).wf(),
        ensures
            final(self).wf(),
            final(self).next_id == old(self).next_id,
            !has_id(final(self)@, id),
            has_id(old(self)@, id) ==> exists|i: int|
                0 <= i < old(self)@.len() && old(self)@[i].id == id && final(self)@ == old(
                    self,
                )@.remove(i),
            !has_id(old(self)@, id) ==> final(self)@ == old(self)@,
    {
        match self.index_of(id) {
            Some(i) => {
                let ghost before = self.units@;
                self.units.remove(i);
                assert(self.units@ == before.remove(i as int));
                assert forall|k: int| 0 <= k < self.units@.len() implies self.units@[k].id != id by {
                    if k < i {
                        assert(before[k].id < before[i as int].id);
                    } else {
                        assert(before[k + 1].id > before[i as int].id);
                    }
                }
            },
            None => {},
        }
    }

    /// Removes every dead unit, keeping the others in order.
    pub fn sweep_dead(&mut self)
        requires
            old(self).wf(),
        ensures
            final(self).wf(),
            final(self).next_id == old(self).next_id,
            final(self)@ == live_units(old(self)@),
    {
        let ghost s = self.units@;
        let mut kept: Vec<Unit> = Vec::new();
        let mut i: usize = 0;
        while i < self.units.len()
            invariant
                s == self.units@,
                i <= s.len(),
                kept@ == live_units(s.subrange(0, i as int)),
                forall|k: int| 0 <= k < kept@.len() ==> exists|j: int| 0 <= j < i && #[trigger] kept@[k] == s[j],
                ids_ordered(s, self.next_id),
                ids_ordered(kept@, self.next_id),
                forall|k: int| 0 <= k < kept@.len() ==> kept@[k].id < (if i < s.len() { s[i as int].id } else { self.next_id }),
            decreases s.len() - i,
        {
            let u = self.units[i];
            proof {
                assert(s.subrange(0, i + 1) == s.subrange(0, i as int).push(u));
                reveal(Seq::filter);
                assert(s.subrange(0, i + 1).drop_last() == s.subrange(0, i as int));
            }
            if u.health > 0 {
                kept.push(u);
            }
            i = i + 1;
            proof {
                if i < s.len() {
                    assert forall|k: int| 0 <= k < kept@.len() implies kept@[k].id < s[i as int].id by {
                        let j = choose|j: int| 0 <= j < i && kept@[k] == s[j];
                        assert(s[j].id < s[i as int].id);
                    }
                }
            }
        }
        assert(s.subrange(0, s.len() as int) == s);
        self.units = kept;
        assert forall|a: int, b: int|
            0 <= a < self.units@.len() && 0 <= b < self.units@.len() && self.units@[a].is_vip()
                && self.units@[b].is_vip() implies a == b by {
            let ja = choose|j: int| 0 <= j < s.len() && self.units@[a] == s[j];
            let jb = choose|j: int| 0 <= j < s.len() && self.units@[b] == s[j];
            assert(ja == jb);
            if a < b {
                assert(self.units@[a].id < self.units@[b].id);
            } else if b < a {
                assert(self.units@[b].id < self.units@[a].id);
            }
        }
    }
}

} // verus!
