use gshot::enemy::{DespawnDecision, EnemyStatus, StageOutcome, VolleyCounter};
use gshot::explosion::ExplosionType;
use gshot::score::TipBurst;
use gshot::boss::{bit_spawn_candidate, choose_bit_spawn, next_boss_phase, BossPhase, ZakoWaves, BIT_SPAWN_CANDIDATES};

#[test]
fn single_stage_enemy_explodes() {
    let mut e = EnemyStatus::new(1, 300, 3, ExplosionType::Enemy);
    assert_eq!(e.remaining_stages(), 0);
    assert_eq!(e.on_stage_depleted(), StageOutcome::Explode(ExplosionType::Enemy));
    assert_eq!(e.hp_index, 0);
}

#[test]
fn boss_passes_stages_then_explodes() {
    let mut e = EnemyStatus::new(3, 50000, 100, ExplosionType::BossEnemy);
    assert_eq!(e.remaining_stages(), 2);
    assert_eq!(
        e.on_stage_depleted(),
        StageOutcome::NextStage(TipBurst { num: 50, score: 100 })
    );
    assert_eq!(e.hp_index, 1);
    assert_eq!(e.remaining_stages(), 1);
    assert_eq!(
        e.on_stage_depleted(),
        StageOutcome::NextStage(TipBurst { num: 50, score: 100 })
    );
    assert_eq!(e.remaining_stages(), 0);
    assert!(e.is_final_stage_cleared(true));
    assert!(!e.is_final_stage_cleared(false));
    assert_eq!(e.on_stage_depleted(), StageOutcome::Explode(ExplosionType::BossEnemy));
}

#[test]
fn odd_tip_count_rounds_up_on_stage() {
    let mut e = EnemyStatus::new(2, 10, 5, ExplosionType::Enemy);
    assert_eq!(
        e.on_stage_depleted(),
        StageOutcome::NextStage(TipBurst { num: 3, score: 100 })
    );
}

#[test]
fn despawn_order() {
    let mut e = EnemyStatus::new(1, 900, 5, ExplosionType::Enemy);
    assert_eq!(e.despawn_decision(false), DespawnDecision::Keep);
    assert_eq!(
        e.despawn_decision(true),
        DespawnDecision::Destroyed { score: 900, tips: TipBurst { num: 5, score: 300 } }
    );
    e.touch_player();
    assert!(e.is_hited_player);
    assert_eq!(e.despawn_decision(false), DespawnDecision::Remove);
    e.is_out_of_screen = true;
    assert_eq!(e.despawn_decision(true), DespawnDecision::Remove);
}

#[test]
fn middle_boss_survives_touch() {
    let mut e = EnemyStatus::new(1, 10000, 30, ExplosionType::MiddleBoss);
    e.is_destroy_touch_player = false;
    e.touch_player();
    assert!(!e.is_hited_player);
    assert_eq!(e.despawn_decision(false), DespawnDecision::Keep);
}

#[test]
fn volley_of_three() {
    let mut v = VolleyCounter::new();
    assert!(!v.record_shot());
    assert!(!v.record_shot());
    assert!(v.record_shot());
    assert!(!v.record_shot());
}

#[test]
fn boss_phases_follow_stages() {
    assert_eq!(next_boss_phase(BossPhase::AttackOne, 0), BossPhase::AttackOne);
    assert_eq!(next_boss_phase(BossPhase::AttackOne, 1), BossPhase::AttackTwo);
    assert_eq!(next_boss_phase(BossPhase::AttackOne, 2), BossPhase::AttackTwo);
    assert_eq!(next_boss_phase(BossPhase::AttackTwo, 1), BossPhase::AttackTwo);
    assert_eq!(next_boss_phase(BossPhase::AttackTwo, 2), BossPhase::AttackThird);
    assert_eq!(next_boss_phase(BossPhase::AttackThird, 0), BossPhase::AttackThird);
}

#[test]
fn bit_spot_from_random() {
    assert_eq!(bit_spawn_candidate(0), 0);
    assert_eq!(bit_spawn_candidate(7), 2);
    assert_eq!(bit_spawn_candidate(u32::MAX), (u32::MAX % 5) as usize);
    for _ in 0..100 {
        assert!(choose_bit_spawn().candidate < BIT_SPAWN_CANDIDATES);
    }
}

#[test]
fn bit_side_is_random() {
    let mut right = 0;
    for _ in 0..400 {
        if choose_bit_spawn().right_side {
            right += 1;
        }
    }
    assert!(right > 0 && right < 400);
}

#[test]
fn zako_waves_limited_to_five() {
    let mut w = ZakoWaves::new();
    assert!(!w.on_turn(false));
    for _ in 0..5 {
        assert!(w.on_turn(true));
    }
    assert!(!w.on_turn(true));
    assert_eq!(w.count(), 5);
}
