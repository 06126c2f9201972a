use culiacan_sim::geometry::Point;
use culiacan_sim::registry::Registry;
use culiacan_sim::units::{ConfigError, Faction, UnitSpec, UnitType};

fn soldier_at(x: i64, y: i64) -> UnitSpec {
    UnitSpec::standard(UnitType::Soldier, Faction::MexicanMilitary, Point { x, y })
}

#[test]
fn create_hands_out_increasing_ids() {
    let mut reg = Registry::new();
    assert_eq!(reg.create(soldier_at(0, 0)), Ok(0));
    assert_eq!(reg.create(soldier_at(1000, 0)), Ok(1));
    assert_eq!(reg.len(), 2);
    let u = reg.get(1).unwrap();
    assert_eq!(u.health, 100);
    assert_eq!(u.max_health, 100);
    assert_eq!(u.damage, 30);
    assert_eq!(u.range, 140);
    assert_eq!(u.movement_speed, 90);
    assert_eq!(u.combat.attack_cooldown_ms, 800);
}

#[test]
fn destroyed_ids_are_not_reused() {
    let mut reg = Registry::new();
    reg.create(soldier_at(0, 0)).unwrap();
    reg.destroy(0);
    assert!(reg.get(0).is_none());
    assert_eq!(reg.create(soldier_at(0, 0)), Ok(1));
    assert!(reg.get(0).is_none());
    reg.destroy(7);
    assert_eq!(reg.len(), 1);
}

#[test]
fn negative_stats_are_refused() {
    let mut reg = Registry::new();
    let mut s = soldier_at(0, 0);
    s.damage = -1;
    assert_eq!(reg.create(s), Err(ConfigError::NegativeStat));
    let mut s = soldier_at(0, 0);
    s.attack_cooldown_ms = -5;
    assert_eq!(reg.create(s), Err(ConfigError::NegativeStat));
    assert_eq!(reg.len(), 0);
}

#[test]
fn zero_health_is_refused() {
    let mut reg = Registry::new();
    let mut s = soldier_at(0, 0);
    s.health = 0;
    assert_eq!(reg.create(s), Err(ConfigError::ZeroHealth));
}

#[test]
fn oversized_stats_are_refused() {
    let mut reg = Registry::new();
    let mut s = soldier_at(0, 0);
    s.range = 1_000_001;
    assert_eq!(reg.create(s), Err(ConfigError::StatTooLarge));
    let mut s = soldier_at(0, 0);
    s.attack_cooldown_ms = 3_600_001;
    assert_eq!(reg.create(s), Err(ConfigError::StatTooLarge));
}

#[test]
fn positions_outside_the_world_are_refused() {
    let mut reg = Registry::new();
    assert_eq!(reg.create(soldier_at(1_000_000_001, 0)), Err(ConfigError::OutsideWorld));
}

#[test]
fn a_second_vip_is_refused() {
    let mut reg = Registry::new();
    let vip = UnitSpec::standard(UnitType::OvidioGuzman, Faction::SinaloaCartel, Point { x: 0, y: 0 });
    assert_eq!(reg.create(vip), Ok(0));
    assert!(reg.vip_present());
    assert_eq!(reg.create(vip), Err(ConfigError::SecondVip));
    reg.destroy(0);
    assert_eq!(reg.create(vip), Ok(1));
}

#[test]
fn sweep_removes_only_the_dead() {
    let mut reg = Registry::new();
    reg.create(soldier_at(0, 0)).unwrap();
    reg.create(soldier_at(0, 0)).unwrap();
    reg.create(soldier_at(0, 0)).unwrap();
    reg.units[1].health = 0;
    reg.sweep_dead();
    let ids: Vec<u64> = reg.units.iter().map(|u| u.id).collect();
    assert_eq!(ids, vec![0, 2]);
}

#[test]
fn standard_stats_by_type() {
    let p = Point { x: 0, y: 0 };
    let s = UnitSpec::standard(UnitType::Sicario, Faction::SinaloaCartel, p);
    assert_eq!((s.health, s.damage, s.range, s.movement_speed, s.attack_cooldown_ms), (80, 25, 120, 100, 800));
    let s = UnitSpec::standard(UnitType::Vehicle, Faction::MexicanMilitary, p);
    assert_eq!((s.health, s.damage, s.range, s.movement_speed), (200, 60, 200, 70));
    let s = UnitSpec::standard(UnitType::OvidioGuzman, Faction::SinaloaCartel, p);
    assert_eq!((s.health, s.damage, s.range), (50, 0, 0));
    let s = UnitSpec::standard(UnitType::Sicario, Faction::MexicanMilitary, p);
    assert_eq!((s.health, s.damage, s.range, s.movement_speed), (100, 20, 100, 80));
}

#[test]
fn non_combatant_rows_follow_the_table() {
    let p = Point { x: 0, y: 0 };
    let s = UnitSpec::standard(UnitType::Roadblock, Faction::SinaloaCartel, p);
    assert_eq!((s.health, s.damage, s.range, s.movement_speed, s.attack_cooldown_ms), (75, 0, 0, 0, 800));
    let s = UnitSpec::standard(UnitType::Civilian, Faction::Civilian, p);
    assert_eq!((s.health, s.damage, s.range, s.movement_speed, s.attack_cooldown_ms), (100, 20, 100, 80, 800));
    let s = UnitSpec::standard(UnitType::OvidioGuzman, Faction::SinaloaCartel, p);
    assert_eq!((s.movement_speed, s.attack_cooldown_ms), (60, 1000));
}
