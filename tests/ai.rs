use culiacan_sim::ai::{decide, MoveIntent};
use culiacan_sim::geometry::Point;
use culiacan_sim::mission::GamePhase;
use culiacan_sim::units::Faction;

#[test]
fn convoy_heads_for_the_base_whatever_it_fights() {
    let base = MoveIntent::GoTo(Point { x: 600_000, y: 200_000 });
    assert_eq!(decide(Faction::MexicanMilitary, GamePhase::BlockConvoy, true, None), base);
    assert_eq!(decide(Faction::MexicanMilitary, GamePhase::BlockConvoy, false, Some(Point { x: 1, y: 2 })), base);
}

#[test]
fn military_seeks_vip_or_safehouse_when_free() {
    let vip = Point { x: 5_000, y: -7_000 };
    assert_eq!(decide(Faction::MexicanMilitary, GamePhase::InitialRaid, false, Some(vip)), MoveIntent::GoTo(vip));
    assert_eq!(
        decide(Faction::MexicanMilitary, GamePhase::HoldTheLine, false, None),
        MoveIntent::GoTo(Point { x: -300_000, y: 200_000 })
    );
    assert_eq!(decide(Faction::MexicanMilitary, GamePhase::ApplyPressure, true, None), MoveIntent::Hold);
    assert_eq!(
        decide(Faction::MexicanMilitary, GamePhase::Preparation, false, None),
        MoveIntent::GoTo(Point { x: -300_000, y: 200_000 })
    );
    assert_eq!(decide(Faction::MexicanMilitary, GamePhase::GameOver, false, None), MoveIntent::Hold);
}

#[test]
fn defenders_and_civilians_hold() {
    assert_eq!(decide(Faction::SinaloaCartel, GamePhase::BlockConvoy, false, None), MoveIntent::Hold);
    assert_eq!(decide(Faction::Civilian, GamePhase::InitialRaid, false, None), MoveIntent::Hold);
}
