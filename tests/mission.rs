use culiacan_sim::mission::{
    end_reason, next_capture, next_phase, CaptureStatus, EndReason, GamePhase, PhaseInputs,
};

fn inputs(elapsed_ms: u64) -> PhaseInputs {
    PhaseInputs {
        elapsed_ms,
        vip_alive: true,
        capture_status: CaptureStatus::Free,
        defenders_alive: true,
    }
}

#[test]
fn timed_phases_advance_after_their_time() {
    assert_eq!(next_phase(GamePhase::Preparation, inputs(5_000)), GamePhase::Preparation);
    assert_eq!(next_phase(GamePhase::Preparation, inputs(5_001)), GamePhase::InitialRaid);
    assert_eq!(next_phase(GamePhase::InitialRaid, inputs(120_001)), GamePhase::BlockConvoy);
    assert_eq!(next_phase(GamePhase::BlockConvoy, inputs(300_001)), GamePhase::ApplyPressure);
    assert_eq!(next_phase(GamePhase::ApplyPressure, inputs(480_001)), GamePhase::HoldTheLine);
    assert_eq!(next_phase(GamePhase::HoldTheLine, inputs(500_000)), GamePhase::HoldTheLine);
}

#[test]
fn phases_advance_one_step_at_a_time() {
    assert_eq!(next_phase(GamePhase::Preparation, inputs(490_000)), GamePhase::InitialRaid);
}

#[test]
fn dead_free_vip_ends_the_mission() {
    let mut i = inputs(1_000);
    i.vip_alive = false;
    assert_eq!(next_phase(GamePhase::Preparation, i), GamePhase::GameOver);
    assert_eq!(end_reason(GamePhase::Preparation, i), Some(EndReason::VipKilled));
    i.capture_status = CaptureStatus::Captured;
    assert_eq!(next_phase(GamePhase::Preparation, i), GamePhase::Preparation);
}

#[test]
fn release_during_last_stand_is_victory() {
    let mut i = inputs(500_000);
    i.capture_status = CaptureStatus::Released;
    assert_eq!(next_phase(GamePhase::HoldTheLine, i), GamePhase::Victory);
    assert_eq!(end_reason(GamePhase::HoldTheLine, i), Some(EndReason::VipReleased));
    assert_eq!(next_phase(GamePhase::InitialRaid, inputs(10_000)), GamePhase::InitialRaid);
}

#[test]
fn capture_with_no_defender_is_military_victory() {
    let mut i = inputs(10_000);
    i.capture_status = CaptureStatus::Captured;
    i.defenders_alive = false;
    assert_eq!(next_phase(GamePhase::InitialRaid, i), GamePhase::GameOver);
    assert_eq!(end_reason(GamePhase::InitialRaid, i), Some(EndReason::MilitaryVictory));
}

#[test]
fn defenders_standing_at_the_end_is_historical_outcome() {
    assert_eq!(next_phase(GamePhase::HoldTheLine, inputs(600_001)), GamePhase::GameOver);
    assert_eq!(end_reason(GamePhase::HoldTheLine, inputs(600_001)), Some(EndReason::HistoricalOutcome));
    let mut i = inputs(600_001);
    i.defenders_alive = false;
    assert_eq!(next_phase(GamePhase::HoldTheLine, i), GamePhase::HoldTheLine);
}

#[test]
fn ended_mission_stays_ended() {
    let mut i = inputs(700_000);
    i.vip_alive = false;
    assert_eq!(next_phase(GamePhase::Victory, i), GamePhase::Victory);
    assert_eq!(next_phase(GamePhase::GameOver, i), GamePhase::GameOver);
    assert_eq!(end_reason(GamePhase::GameOver, i), None);
}

#[test]
fn capture_and_release_rules() {
    assert_eq!(next_capture(CaptureStatus::Free, Some(14_999), 0), CaptureStatus::Captured);
    assert_eq!(next_capture(CaptureStatus::Free, Some(15_000), 0), CaptureStatus::Free);
    assert_eq!(next_capture(CaptureStatus::Free, None, 900_000), CaptureStatus::Free);
    assert_eq!(next_capture(CaptureStatus::Captured, None, 810_000), CaptureStatus::Released);
    assert_eq!(next_capture(CaptureStatus::Captured, None, 800_000), CaptureStatus::Captured);
    assert_eq!(next_capture(CaptureStatus::Free, Some(0), 810_000), CaptureStatus::Released);
}

#[test]
fn time_running_out_comes_before_release() {
    let mut i = inputs(700_000);
    i.capture_status = CaptureStatus::Released;
    assert_eq!(next_phase(GamePhase::HoldTheLine, i), GamePhase::GameOver);
    assert_eq!(end_reason(GamePhase::HoldTheLine, i), Some(EndReason::HistoricalOutcome));
    i.defenders_alive = false;
    assert_eq!(next_phase(GamePhase::HoldTheLine, i), GamePhase::Victory);
}
