use culiacan_sim::combat::unit_combat_system;
use culiacan_sim::events::{GameEvent, Scores};
use culiacan_sim::geometry::Point;
use culiacan_sim::registry::Registry;
use culiacan_sim::units::{Faction, UnitSpec, UnitType};

fn attacker(x: i64, cooldown_ms: i64) -> UnitSpec {
    UnitSpec {
        unit_type: UnitType::Soldier,
        faction: Faction::MexicanMilitary,
        position: Point { x, y: 0 },
        health: 100,
        damage: 25,
        range: 100,
        movement_speed: 0,
        attack_cooldown_ms: cooldown_ms,
    }
}

fn count_attacks(events: &[GameEvent], attacker: u64) -> usize {
    events
        .iter()
        .filter(|e| matches!(e, GameEvent::Attack { attacker: a, .. } if *a == attacker))
        .count()
}

#[test]
fn attacker_kills_defender_in_four_blows() {
    let mut reg = Registry::new();
    let a = reg.create(attacker(0, 800)).unwrap();
    let d = reg
        .create(UnitSpec::standard(UnitType::Sicario, Faction::SinaloaCartel, Point { x: 50_000, y: 0 }))
        .unwrap();
    let mut events = Vec::new();
    let mut scores = Scores::new();
    unit_combat_system(&mut reg, 400, &mut events, &mut scores);
    assert_eq!(reg.get(d).unwrap().health, 80);
    assert_eq!(reg.get(a).unwrap().combat.target_entity, Some(d));
    unit_combat_system(&mut reg, 400, &mut events, &mut scores);
    assert_eq!(reg.get(d).unwrap().health, 55);
    assert_eq!(reg.get(a).unwrap().combat.target_entity, Some(d));
    for _ in 0..3 {
        unit_combat_system(&mut reg, 800, &mut events, &mut scores);
    }
    assert!(reg.get(d).is_none());
    assert_eq!(count_attacks(&events, a), 4);
    let deaths: Vec<&GameEvent> =
        events.iter().filter(|e| matches!(e, GameEvent::Eliminated { .. })).collect();
    assert_eq!(deaths.len(), 1);
    assert_eq!(
        *deaths[0],
        GameEvent::Eliminated { id: d, unit_type: UnitType::Sicario, faction: Faction::SinaloaCartel }
    );
    assert_eq!(scores.military, 10);
    assert_eq!(scores.cartel, 0);
    unit_combat_system(&mut reg, 800, &mut events, &mut scores);
    assert_eq!(scores.military, 10);
    assert_eq!(reg.get(a).unwrap().combat.target_entity, None);
}

#[test]
fn cooldown_spaces_out_blows() {
    let mut reg = Registry::new();
    let a = reg.create(attacker(0, 1000)).unwrap();
    let mut tough = UnitSpec::standard(UnitType::Sicario, Faction::SinaloaCartel, Point { x: 10_000, y: 0 });
    tough.health = 1_000_000;
    tough.damage = 0;
    reg.create(tough).unwrap();
    let mut events = Vec::new();
    let mut scores = Scores::new();
    let mut blow_times = Vec::new();
    let mut t: u64 = 0;
    for step in [300u64, 300, 300, 300, 50, 900, 100, 999, 1, 250] {
        t += step;
        let before = count_attacks(&events, a);
        unit_combat_system(&mut reg, step, &mut events, &mut scores);
        if count_attacks(&events, a) > before {
            blow_times.push(t);
        }
    }
    assert_eq!(blow_times, vec![1200, 2250, 3250]);
    for w in blow_times.windows(2) {
        assert!(w[1] - w[0] >= 1000);
    }
}

#[test]
fn nearest_target_wins_and_ties_go_to_lowest_id() {
    let mut reg = Registry::new();
    let a = reg.create(attacker(0, 0)).unwrap();
    let mut far = UnitSpec::standard(UnitType::Sicario, Faction::SinaloaCartel, Point { x: 0, y: 60_000 });
    far.damage = 0;
    let mut near1 = far;
    near1.position = Point { x: 40_000, y: 0 };
    let mut near2 = far;
    near2.position = Point { x: -40_000, y: 0 };
    reg.create(far).unwrap();
    let first = reg.create(near1).unwrap();
    reg.create(near2).unwrap();
    let mut events = Vec::new();
    let mut scores = Scores::new();
    unit_combat_system(&mut reg, 0, &mut events, &mut scores);
    assert_eq!(
        events[0],
        GameEvent::Attack { attacker: a, target: first, damage: 25, health_after: 55 }
    );
}

#[test]
fn out_of_range_and_friendly_units_are_not_attacked() {
    let mut reg = Registry::new();
    reg.create(attacker(0, 0)).unwrap();
    reg.create(attacker(-1000, 0)).unwrap();
    let mut far = UnitSpec::standard(UnitType::Sicario, Faction::SinaloaCartel, Point { x: 100_001, y: 0 });
    far.damage = 0;
    reg.create(far).unwrap();
    let civilian = UnitSpec::standard(UnitType::Civilian, Faction::Civilian, Point { x: 500, y: 0 });
    reg.create(civilian).unwrap();
    let mut events = Vec::new();
    let mut scores = Scores::new();
    unit_combat_system(&mut reg, 1000, &mut events, &mut scores);
    assert!(events.is_empty());
}

#[test]
fn military_death_scores_for_the_cartel() {
    let mut reg = Registry::new();
    let mut weak = attacker(0, 0);
    weak.health = 10;
    weak.damage = 0;
    reg.create(weak).unwrap();
    let mut killer = UnitSpec::standard(UnitType::Enforcer, Faction::SinaloaCartel, Point { x: 1000, y: 0 });
    killer.attack_cooldown_ms = 0;
    reg.create(killer).unwrap();
    let mut events = Vec::new();
    let mut scores = Scores::new();
    unit_combat_system(&mut reg, 1, &mut events, &mut scores);
    assert_eq!(scores.cartel, 15);
    assert_eq!(reg.len(), 1);
}
