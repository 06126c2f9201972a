use culiacan_sim::registry::Registry;
use culiacan_sim::units::{Faction, UnitType};
use culiacan_sim::waves::{draw_wave, grown, kind_for, spawn_wave_with, wave_size, SpawnDraw, WaveOrder, WaveSpawner};

#[test]
fn first_two_wave_sizes() {
    assert_eq!(wave_size(2000, 1), 3);
    assert_eq!(grown(2000), 2400);
    assert_eq!(wave_size(2400, 2), 5);
}

#[test]
fn difficulty_is_capped_at_four() {
    assert_eq!(wave_size(1000, 6), 4);
    assert_eq!(wave_size(1000, 60), 4);
    assert_eq!(wave_size(1000, 5), 4);
    assert_eq!(wave_size(1000, 4), 3);
}

#[test]
fn growth_stops_at_the_cap() {
    assert_eq!(grown(1_000_000_000), 1_000_000_000);
    assert_eq!(grown(900_000_000), 1_000_000_000);
}

#[test]
fn spawner_fires_every_interval() {
    let mut s = WaveSpawner::new();
    assert_eq!(s.advance(9_999), None);
    assert_eq!(s.advance(1), Some(WaveOrder { wave: 1, units: 3 }));
    assert_eq!(s.units_in_wave_milli, 2400);
    assert_eq!(s.elapsed_ms, 0);
    assert_eq!(s.advance(10_500), Some(WaveOrder { wave: 2, units: 5 }));
    assert_eq!(s.elapsed_ms, 500);
    assert_eq!(s.advance(9_499), None);
}

#[test]
fn wave_kinds_follow_the_wave() {
    assert_eq!(kind_for(1, false), UnitType::Soldier);
    assert_eq!(kind_for(2, false), UnitType::Soldier);
    assert_eq!(kind_for(3, true), UnitType::Soldier);
    assert_eq!(kind_for(4, false), UnitType::SpecialForces);
    assert_eq!(kind_for(5, true), UnitType::Vehicle);
    assert_eq!(kind_for(9, false), UnitType::SpecialForces);
}

#[test]
fn spawned_units_use_entry_points_in_turn() {
    let mut reg = Registry::new();
    let draws = vec![
        SpawnDraw { dx: 10, dy: -20, roll: true },
        SpawnDraw { dx: 0, dy: 0, roll: false },
        SpawnDraw { dx: -50_000, dy: 49_999, roll: true },
        SpawnDraw { dx: 1, dy: 1, roll: false },
    ];
    assert_eq!(spawn_wave_with(&mut reg, 5, &draws), 4);
    let u = &reg.units;
    assert_eq!((u[0].position.x, u[0].position.y), (600_010, 299_980));
    assert_eq!((u[1].position.x, u[1].position.y), (600_000, 0));
    assert_eq!((u[2].position.x, u[2].position.y), (550_000, -250_001));
    assert_eq!((u[3].position.x, u[3].position.y), (600_001, 300_001));
    assert_eq!(u[0].unit_type, UnitType::Vehicle);
    assert_eq!(u[1].unit_type, UnitType::SpecialForces);
    assert!(u.iter().all(|x| x.faction == Faction::MexicanMilitary));
    assert_eq!(u[0].health, 200);
}

#[test]
fn drawn_waves_stay_in_bounds_and_mix_types() {
    let mut rng = <rand::rngs::StdRng as rand::SeedableRng>::seed_from_u64(17);
    let early = draw_wave(&mut rng, 2, 40);
    assert_eq!(early.len(), 40);
    assert!(early.iter().all(|d| d.roll));
    let late = draw_wave(&mut rng, 6, 200);
    assert_eq!(late.len(), 200);
    assert!(late.iter().any(|d| d.roll));
    assert!(late.iter().any(|d| !d.roll));
    for d in early.iter().chain(late.iter()) {
        assert!(d.dx >= -50_000 && d.dx < 50_000 && d.dy >= -50_000 && d.dy < 50_000);
    }
    assert!(late.iter().any(|d| d.dx != -50_000));
    assert!(late.iter().any(|d| d.dx != late[0].dx));
}
