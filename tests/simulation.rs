use culiacan_sim::events::GameEvent;
use culiacan_sim::geometry::Point;
use culiacan_sim::input::SnapshotEntry;
use culiacan_sim::mission::{CaptureStatus, EndReason, GamePhase};
use culiacan_sim::sim::{InputEvent, Simulation, SpecialAbility};
use culiacan_sim::units::{Faction, UnitSpec, UnitType};

fn rank(p: GamePhase) -> u32 {
    match p {
        GamePhase::Preparation => 0,
        GamePhase::InitialRaid => 1,
        GamePhase::BlockConvoy => 2,
        GamePhase::ApplyPressure => 3,
        GamePhase::HoldTheLine => 4,
        GamePhase::Victory | GamePhase::GameOver => 5,
    }
}

#[test]
fn new_match_has_vip_and_three_sicarios() {
    let sim = Simulation::new(7);
    let snap = sim.snapshot();
    assert_eq!(snap.len(), 4);
    assert_eq!(
        snap[0],
        SnapshotEntry {
            id: 0,
            faction: Faction::SinaloaCartel,
            unit_type: UnitType::OvidioGuzman,
            position: Point { x: -300_000, y: 200_000 },
            health_ppm: 1_000_000,
        }
    );
    assert_eq!(snap[3].position, Point { x: -150_000, y: 150_000 });
    assert_eq!(sim.progress.current_phase, GamePhase::Preparation);
}

#[test]
fn long_run_keeps_health_pressure_and_phase_order() {
    let mut sim = Simulation::new(42);
    let mut last = rank(sim.progress.current_phase);
    for step in 0..1_200u64 {
        if step % 500 == 0 {
            sim.handle_player_input(InputEvent::DeploySpecial(SpecialAbility::Roadblock, None));
        }
        sim.tick(100);
        for u in &sim.registry.units {
            assert!(u.health > 0 && u.health <= u.max_health);
        }
        assert!(sim.progress.government_pressure <= 1_000_000);
        assert!(sim.media.attention_level <= 1_000_000);
        let r = rank(sim.progress.current_phase);
        assert!(r >= last);
        last = r;
    }
    assert!(last >= 1);
}

#[test]
fn same_seed_gives_same_match() {
    let mut a = Simulation::new(99);
    let mut b = Simulation::new(99);
    for _ in 0..400 {
        a.tick(100);
        b.tick(100);
    }
    assert_eq!(a.registry.units, b.registry.units);
    assert_eq!(a.events, b.events);
    assert!(a.events.iter().any(|e| matches!(e, GameEvent::WaveStarted { wave: 1, units: 3 })));
    assert!(a.events.iter().any(|e| matches!(e, GameEvent::WaveStarted { wave: 2, units: 5 })));
}

#[test]
fn wave_units_are_jittered_around_entry_points() {
    let mut sim = Simulation::new(3);
    for _ in 0..100 {
        sim.tick(100);
    }
    let military: Vec<_> =
        sim.registry.units.iter().filter(|u| u.faction == Faction::MexicanMilitary).collect();
    assert_eq!(military.len(), 3);
    let first = military[0].position;
    assert!(military.iter().any(|u| u.position != first));
    assert!(military.iter().all(|u| u.unit_type == UnitType::Soldier));
}

#[test]
fn vip_killed_while_free_ends_the_game_that_tick() {
    let mut sim = Simulation::new(1);
    sim.registry.units[0].health = 1;
    let mut hitter = UnitSpec::standard(UnitType::Soldier, Faction::MexicanMilitary, Point { x: -300_000, y: 200_000 });
    hitter.attack_cooldown_ms = 0;
    sim.registry.create(hitter).unwrap();
    sim.tick(16);
    assert!(!sim.registry.vip_present());
    assert_eq!(sim.progress.current_phase, GamePhase::GameOver);
    assert_eq!(sim.progress.end_reason, Some(EndReason::VipKilled));
    assert_eq!(sim.summary().winner, Some(Faction::MexicanMilitary));
    assert_eq!(sim.scores.military, 0);
    let before = sim.registry.units.clone();
    sim.tick(1_000);
    assert_eq!(sim.registry.units, before);
    assert_eq!(sim.progress.current_phase, GamePhase::GameOver);
}

#[test]
fn pressure_releases_captured_vip_and_wins_last_stand() {
    let mut sim = Simulation::new(2);
    sim.progress.vip_status = CaptureStatus::Captured;
    sim.progress.government_pressure = 810_000;
    sim.progress.current_phase = GamePhase::HoldTheLine;
    sim.progress.elapsed_ms = 500_000;
    sim.tick(16);
    assert_eq!(sim.progress.vip_status, CaptureStatus::Released);
    assert_eq!(sim.progress.current_phase, GamePhase::Victory);
    assert_eq!(sim.summary().winner, Some(Faction::SinaloaCartel));
    assert!(sim.events.contains(&GameEvent::VipStatusChanged {
        from_status: CaptureStatus::Captured,
        to_status: CaptureStatus::Released,
    }));
}

#[test]
fn release_outside_last_stand_is_not_yet_victory() {
    let mut sim = Simulation::new(2);
    sim.progress.vip_status = CaptureStatus::Captured;
    sim.progress.government_pressure = 810_000;
    sim.tick(16);
    assert_eq!(sim.progress.vip_status, CaptureStatus::Released);
    assert_eq!(sim.progress.current_phase, GamePhase::Preparation);
}

#[test]
fn military_close_to_free_vip_captures_it() {
    let mut sim = Simulation::new(5);
    let mut grabber = UnitSpec::standard(UnitType::Soldier, Faction::MexicanMilitary, Point { x: -290_000, y: 200_000 });
    grabber.damage = 0;
    sim.registry.create(grabber).unwrap();
    sim.tick(16);
    assert_eq!(sim.progress.vip_status, CaptureStatus::Captured);
    assert!(sim.progress.vip_location_known);
}

#[test]
fn phase_follows_the_clock() {
    let mut sim = Simulation::new(8);
    sim.tick(5_000);
    assert_eq!(sim.progress.current_phase, GamePhase::Preparation);
    sim.tick(1);
    assert_eq!(sim.progress.current_phase, GamePhase::InitialRaid);
    assert!(sim.events.contains(&GameEvent::PhaseChanged {
        from_phase: GamePhase::Preparation,
        to_phase: GamePhase::InitialRaid,
    }));
}

#[test]
fn select_and_move_cartel_units() {
    let mut sim = Simulation::new(4);
    sim.handle_player_input(InputEvent::SelectAt(Point { x: -240_000, y: 150_000 }));
    assert_eq!(sim.selected, vec![1]);
    sim.handle_player_input(InputEvent::SelectAt(Point { x: -225_000, y: 150_000 }));
    assert_eq!(sim.selected, vec![1, 2]);
    sim.handle_player_input(InputEvent::MoveSelectedTo(Point { x: 0, y: 0 }));
    let u = sim.registry.get(2).unwrap();
    assert_eq!(u.movement.destination, Some(Point { x: 0, y: 0 }));
    assert!(u.movement.is_moving);
    assert!(!sim.registry.get(3).unwrap().movement.is_moving);
    sim.tick(1_000);
    assert_eq!(sim.registry.get(2).unwrap().position, Point { x: -120_000, y: 90_000 });
}

#[test]
fn moving_unit_arrives_and_stops() {
    let mut sim = Simulation::new(4);
    sim.handle_player_input(InputEvent::SelectAt(Point { x: -150_000, y: 150_000 }));
    sim.handle_player_input(InputEvent::MoveSelectedTo(Point { x: -150_000, y: 154_000 }));
    sim.tick(10);
    let u = sim.registry.get(3).unwrap();
    assert_eq!(u.position, Point { x: -150_000, y: 154_000 });
    assert!(!u.movement.is_moving);
}

#[test]
fn roadblock_deploys_at_point_and_burns_out() {
    let mut sim = Simulation::new(6);
    sim.handle_player_input(InputEvent::DeploySpecial(SpecialAbility::Roadblock, Some(Point { x: 5_000, y: 6_000 })));
    assert_eq!(sim.scores.cartel, 5);
    let rb = sim.registry.get(4).unwrap();
    assert_eq!(rb.unit_type, UnitType::Roadblock);
    assert_eq!(rb.position, Point { x: 5_000, y: 6_000 });
    assert_eq!(rb.health, 75);
    for _ in 0..299 {
        sim.tick(1_000);
    }
    if !matches!(sim.progress.current_phase, GamePhase::Victory | GamePhase::GameOver) {
        sim.tick(1_000);
        assert!(sim.registry.get(4).is_none());
        assert!(sim.events.contains(&GameEvent::RoadblockCleared { id: 4 }));
    }
}

#[test]
fn random_roadblocks_land_in_the_drop_area() {
    let mut sim = Simulation::new(12);
    for _ in 0..5 {
        sim.handle_player_input(InputEvent::DeploySpecial(SpecialAbility::Roadblock, None));
    }
    let blocks: Vec<Point> = sim
        .registry
        .units
        .iter()
        .filter(|u| u.unit_type == UnitType::Roadblock)
        .map(|u| u.position)
        .collect();
    assert_eq!(blocks.len(), 5);
    for p in &blocks {
        assert!(p.x >= -400_000 && p.x < 400_000 && p.y >= -300_000 && p.y < 300_000);
    }
    assert!(blocks.iter().any(|p| *p != Point { x: -400_000, y: -300_000 }));
    assert!(blocks.iter().any(|p| *p != blocks[0]));
    assert_eq!(sim.scores.cartel, 25);
}

#[test]
fn reinforcements_arrive_for_ten_points() {
    let mut sim = Simulation::new(9);
    sim.handle_player_input(InputEvent::DeploySpecial(SpecialAbility::Reinforcements, None));
    assert_eq!(sim.scores.cartel, 10);
    assert_eq!(sim.registry.len(), 7);
    assert_eq!(sim.registry.get(4).unwrap().unit_type, UnitType::Enforcer);
    assert_eq!(sim.registry.get(5).unwrap().position, Point { x: -350_000, y: 150_000 });
    assert_eq!(sim.registry.get(6).unwrap().unit_type, UnitType::Sicario);
}

#[test]
fn quit_freezes_the_match() {
    let mut sim = Simulation::new(10);
    sim.handle_player_input(InputEvent::Quit);
    assert!(sim.quit);
    sim.tick(60_000);
    assert_eq!(sim.progress.elapsed_ms, 0);
    sim.handle_player_input(InputEvent::DeploySpecial(SpecialAbility::Reinforcements, None));
    assert_eq!(sim.registry.len(), 4);
    assert_eq!(sim.summary().winner, None);
}

#[test]
fn commands_take_effect_in_the_next_tick() {
    let mut sim = Simulation::new(13);
    sim.handle_player_input(InputEvent::SelectAt(Point { x: -150_000, y: 150_000 }));
    sim.handle_player_input(InputEvent::MoveSelectedTo(Point { x: -150_000, y: 250_000 }));
    sim.tick(1_000);
    assert_eq!(sim.registry.get(3).unwrap().position, Point { x: -150_000, y: 250_000 });
    assert_eq!(sim.progress.elapsed_ms, 1_000);
    sim.handle_player_input(InputEvent::SelectAt(Point { x: 2_000_000_000, y: 0 }));
    assert!(sim.selected.is_empty());
}

#[test]
fn wave_step_fires_after_the_interval_and_grows() {
    let mut sim = Simulation::new(21);
    sim.wave_spawner_system(9_999);
    assert_eq!(sim.spawner.wave_number, 0);
    assert_eq!(sim.spawner.elapsed_ms, 9_999);
    assert_eq!(sim.registry.len(), 4);
    assert!(sim.events.is_empty());
    sim.wave_spawner_system(1);
    assert_eq!(sim.spawner.wave_number, 1);
    assert_eq!(sim.spawner.units_in_wave_milli, 2_400);
    assert_eq!(sim.registry.len(), 7);
    assert_eq!(sim.events, vec![GameEvent::WaveStarted { wave: 1, units: 3 }]);
    sim.wave_spawner_system(10_000);
    assert_eq!(sim.spawner.wave_number, 2);
    assert_eq!(sim.registry.len(), 12);
    assert_eq!(sim.events[1], GameEvent::WaveStarted { wave: 2, units: 5 });
}

#[test]
fn military_nearby_locates_free_vip_without_capture() {
    let mut sim = Simulation::new(5);
    let mut scout = UnitSpec::standard(UnitType::Soldier, Faction::MexicanMilitary, Point { x: -280_000, y: 200_000 });
    scout.damage = 0;
    sim.registry.create(scout).unwrap();
    sim.ovidio_capture_system();
    assert!(sim.progress.vip_location_known);
    assert_eq!(sim.progress.vip_status, CaptureStatus::Free);
    assert!(sim.events.is_empty());
}

#[test]
fn roadblock_and_reinforcements_in_one_frame() {
    let mut sim = Simulation::new(14);
    sim.handle_player_input(InputEvent::DeploySpecial(SpecialAbility::Roadblock, None));
    sim.handle_player_input(InputEvent::DeploySpecial(SpecialAbility::Reinforcements, None));
    assert_eq!(sim.registry.next_id, 8);
    assert_eq!(sim.registry.get(4).unwrap().unit_type, UnitType::Roadblock);
    assert_eq!(sim.registry.get(5).unwrap().unit_type, UnitType::Enforcer);
    assert_eq!(sim.registry.get(7).unwrap().position, Point { x: -400_000, y: 100_000 });
    assert_eq!(sim.scores.cartel, 15);
}
