use culiacan_sim::events::GameEvent;
use culiacan_sim::geometry::Point;
use culiacan_sim::pressure::{
    accumulate, civilian_panic_system, CivilianPanic, count_hostages, count_roadblocks, government_pressure_system, hostage_pressure_system,
    media_meter_system, propaganda_system, AsymmetricBalance, MediaMeter,
};
use culiacan_sim::registry::Registry;
use culiacan_sim::units::{EvacuationStatus, Faction, UnitSpec, UnitType};

#[test]
fn accumulate_adds_rate_over_time_and_clamps() {
    assert_eq!(accumulate(0, 100_000, 1_000), 100_000);
    assert_eq!(accumulate(0, 100_000, 16), 1_600);
    assert_eq!(accumulate(950_000, 100_000, 1_000), 1_000_000);
    assert_eq!(accumulate(1_000_000, u64::MAX as u128, u64::MAX), 1_000_000);
    assert_eq!(accumulate(5, 7, 0), 5);
}

#[test]
fn media_attention_grows_and_observers_arrive_once() {
    let mut m = MediaMeter::new();
    assert!(!media_meter_system(&mut m, 1_800_000, 0, 0, 1_000));
    assert_eq!(m.attention_level, 100_000);
    assert!(!media_meter_system(&mut m, 0, 10, 0, 1_000));
    assert_eq!(m.attention_level, 600_000);
    assert!(!m.international_observers);
    assert!(media_meter_system(&mut m, 0, 0, 5, 1_000));
    assert_eq!(m.attention_level, 600_001);
    assert!(m.international_observers);
    assert!(!media_meter_system(&mut m, 0, 100, 0, 1_000));
    assert_eq!(m.attention_level, 1_000_000);
}

#[test]
fn propaganda_sets_coordination_and_morale() {
    let mut b = AsymmetricBalance::new();
    propaganda_system(&mut b, 400_000, 3_600_000);
    assert_eq!(b.cartel_coordination, 700_000);
    assert_eq!(b.military_morale, 820_000);
    propaganda_system(&mut b, 1_000_000, 100_000_000);
    assert_eq!(b.military_morale, 100_000);
}

#[test]
fn government_pressure_rate_and_thresholds() {
    let media = MediaMeter { attention_level: 500_000, international_observers: true };
    let mut p: u64 = 400_000;
    let mut events = Vec::new();
    government_pressure_system(&mut p, media, 1, 900_000, 2, 1, 36_000, 1_000, &mut events);
    // 225_000 + 50_000 + 200_000 + 150_000 + 20_000 + 1_000 per second
    assert_eq!(p, 1_000_000);
    assert_eq!(
        events,
        vec![
            GameEvent::PressureThresholdCrossed { threshold_ppm: 500_000 },
            GameEvent::PressureThresholdCrossed { threshold_ppm: 800_000 },
        ]
    );
    let mut q: u64 = 0;
    let calm = MediaMeter::new();
    government_pressure_system(&mut q, calm, 0, 1_000_000, 0, 0, 36_000, 100, &mut events);
    assert_eq!(q, 100);
    assert_eq!(events.len(), 2);
}

#[test]
fn hostages_press_the_government() {
    let mut reg = Registry::new();
    let squad = UnitSpec::standard(UnitType::HostageSquad, Faction::SinaloaCartel, Point { x: 0, y: 0 });
    reg.create(squad).unwrap();
    for x in [10_000i64, 50_000, 99_999, 100_000] {
        reg.create(UnitSpec::standard(UnitType::Civilian, Faction::Civilian, Point { x, y: 0 })).unwrap();
    }
    assert_eq!(count_hostages(&reg.units), 3);
    let mut p: u64 = 0;
    let mut m = MediaMeter::new();
    hostage_pressure_system(&mut p, &mut m, 3, 1_000);
    assert_eq!(p, 300_000);
    assert_eq!(m.attention_level, 0);
    hostage_pressure_system(&mut p, &mut m, 6, 500);
    assert_eq!(p, 600_000);
    assert_eq!(m.attention_level, 50_000);
}

#[test]
fn roadblocks_are_counted() {
    let mut reg = Registry::new();
    let rb = UnitSpec::standard(UnitType::Roadblock, Faction::SinaloaCartel, Point { x: 0, y: 0 });
    reg.create(rb).unwrap();
    reg.create(rb).unwrap();
    reg.create(UnitSpec::standard(UnitType::Sicario, Faction::SinaloaCartel, Point { x: 0, y: 0 })).unwrap();
    assert_eq!(count_roadblocks(&reg.units), 2);
}

#[test]
fn civilians_panic_near_fighting_and_roadblocks() {
    let mut reg = Registry::new();
    let near = reg.create(UnitSpec::standard(UnitType::Civilian, Faction::Civilian, Point { x: 0, y: 0 })).unwrap();
    let far = reg
        .create(UnitSpec::standard(UnitType::Civilian, Faction::Civilian, Point { x: 10_000_000, y: 0 }))
        .unwrap();
    reg.create(UnitSpec::standard(UnitType::Sicario, Faction::SinaloaCartel, Point { x: 50_000, y: 0 })).unwrap();
    reg.create(UnitSpec::standard(UnitType::Roadblock, Faction::SinaloaCartel, Point { x: 0, y: 20_000 })).unwrap();
    let mut city = CivilianPanic { city_wide_panic: 0 };
    civilian_panic_system(&mut reg, &mut city, 1_000);
    assert_eq!(reg.get(near).unwrap().panic_ppm, 573_333);
    assert_eq!(reg.get(near).unwrap().evacuation, EvacuationStatus::Normal);
    assert_eq!(reg.get(far).unwrap().panic_ppm, 0);
    assert_eq!(city.city_wide_panic, 286_666);
    civilian_panic_system(&mut reg, &mut city, 1_000);
    assert_eq!(reg.get(near).unwrap().panic_ppm, 1_000_000);
    assert_eq!(reg.get(near).unwrap().evacuation, EvacuationStatus::Panicking);
    assert_eq!(city.city_wide_panic, 500_000);
}

#[test]
fn city_panic_is_kept_without_civilians() {
    let mut reg = Registry::new();
    reg.create(UnitSpec::standard(UnitType::Sicario, Faction::SinaloaCartel, Point { x: 0, y: 0 })).unwrap();
    let mut city = CivilianPanic { city_wide_panic: 123 };
    civilian_panic_system(&mut reg, &mut city, 1_000);
    assert_eq!(city.city_wide_panic, 123);
}
