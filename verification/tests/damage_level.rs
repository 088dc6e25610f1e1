use lib::damage_level::{hp_delta_for_judgment, DamageEvent, DamageLevel, HpState, JudgmentKind};

#[test]
fn hp_starts_at_max() {
    let hp = HpState::new(1000);
    assert_eq!(hp.current, 1000);
    assert!(!hp.stage_failed);
}

#[test]
fn hp_default_zero() {
    let hp = HpState::default();
    assert_eq!(hp.current, 0);
    assert_eq!(hp.max, 0);
}

#[test]
fn small_perfect_gains_1() {
    assert_eq!(hp_delta_for_judgment(DamageLevel::Small, JudgmentKind::Perfect), 1);
}

#[test]
fn small_miss_drains_2() {
    assert_eq!(hp_delta_for_judgment(DamageLevel::Small, JudgmentKind::Miss), -2);
}

#[test]
fn normal_perfect_gains_1_miss_drains_3() {
    assert_eq!(hp_delta_for_judgment(DamageLevel::Normal, JudgmentKind::Perfect), 1);
    assert_eq!(hp_delta_for_judgment(DamageLevel::Normal, JudgmentKind::Miss), -3);
}

#[test]
fn high_miss_drains_5() {
    assert_eq!(hp_delta_for_judgment(DamageLevel::High, JudgmentKind::Miss), -5);
}

#[test]
fn apply_hp_drain() {
    let mut hp = HpState::new(1000);
    hp.apply(DamageEvent::HpDrain(3));
    assert_eq!(hp.current, 997);
    assert!(!hp.stage_failed);
}

#[test]
fn apply_hp_drain_clamps_to_zero() {
    let mut hp = HpState::new(10);
    hp.apply(DamageEvent::HpDrain(20));
    assert_eq!(hp.current, 0);
    assert!(hp.stage_failed);
}

#[test]
fn apply_hp_gain_clamps_to_max() {
    let mut hp = HpState::new(100);
    hp.apply(DamageEvent::HpGain(50));
    assert_eq!(hp.current, 100);
}

#[test]
fn apply_judgment_perfect_gains() {
    let mut hp = HpState::new(100);
    hp.apply_judgment(DamageLevel::Normal, JudgmentKind::Perfect);
    assert!(hp.current >= 100);
}

#[test]
fn apply_judgment_miss_drains() {
    let mut hp = HpState::new(100);
    hp.apply_judgment(DamageLevel::Normal, JudgmentKind::Miss);
    assert_eq!(hp.current, 97);
}

#[test]
fn stage_failed_when_hp_zero() {
    let mut hp = HpState::new(5);
    hp.apply(DamageEvent::HpDrain(5));
    assert!(hp.stage_failed);
}

#[test]
fn reset_restores_max() {
    let mut hp = HpState::new(100);
    hp.apply(DamageEvent::HpDrain(50));
    assert_eq!(hp.current, 50);
    hp.reset();
    assert_eq!(hp.current, 100);
    assert!(!hp.stage_failed);
}

#[test]
fn no_change_event_does_nothing() {
    let mut hp = HpState::new(100);
    hp.apply(DamageEvent::NoChange);
    assert_eq!(hp.current, 100);
}

#[test]
fn stage_failed_event_sets_zero() {
    let mut hp = HpState::new(100);
    hp.apply(DamageEvent::StageFailed);
    assert_eq!(hp.current, 0);
    assert!(hp.stage_failed);
}

#[test]
fn damage_table_is_exact_for_every_level() {
    let small: Vec<i8> = [JudgmentKind::Perfect, JudgmentKind::Great, JudgmentKind::Good, JudgmentKind::Poor, JudgmentKind::Miss]
        .iter()
        .map(|k| hp_delta_for_judgment(DamageLevel::Small, *k))
        .collect();
    assert_eq!(small, vec![1, 0, 0, -1, -2]);
    let normal: Vec<i8> = [JudgmentKind::Perfect, JudgmentKind::Great, JudgmentKind::Good, JudgmentKind::Poor, JudgmentKind::Miss]
        .iter()
        .map(|k| hp_delta_for_judgment(DamageLevel::Normal, *k))
        .collect();
    assert_eq!(normal, vec![1, 0, -1, -2, -3]);
    let high: Vec<i8> = [JudgmentKind::Perfect, JudgmentKind::Great, JudgmentKind::Good, JudgmentKind::Poor, JudgmentKind::Miss]
        .iter()
        .map(|k| hp_delta_for_judgment(DamageLevel::High, *k))
        .collect();
    assert_eq!(high, vec![0, 0, -1, -3, -5]);
}

#[test]
fn combo_broken_leaves_hp_alone_and_failure_is_sticky() {
    let mut hp = HpState::new(10);
    hp.apply(DamageEvent::ComboBroken);
    assert_eq!(hp, HpState::new(10));
    hp.apply(DamageEvent::StageFailed);
    hp.apply(DamageEvent::HpGain(5));
    assert_eq!(hp.current, 5);
    assert!(hp.stage_failed, "a failed stage stays failed after a gain");
}

#[test]
fn high_level_perfect_does_not_change_hp() {
    let mut hp = HpState::new(100);
    hp.apply(DamageEvent::HpDrain(10));
    hp.apply_judgment(DamageLevel::High, JudgmentKind::Perfect);
    assert_eq!(hp.current, 90);
    hp.apply_judgment(DamageLevel::High, JudgmentKind::Poor);
    assert_eq!(hp.current, 87);
}
