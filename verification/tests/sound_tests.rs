use gshot::se::{select_sounds, SEType};
use gshot::explosion::{explosion_response, ExplosionBurst, ExplosionType};

#[test]
fn paths_of_sounds() {
    assert_eq!(SEType::HitPlayerShot.get_path(), "sounds/hit_shot.ogg");
    assert_eq!(SEType::PlayerDyson.get_path(), "sounds/shot_dyson.ogg");
    assert_eq!(SEType::DestroyEnemy.get_path(), "sounds/destroy_enemy.ogg");
    assert_eq!(SEType::DestroyBoss.get_path(), "sounds/destroy_boss.ogg");
}

#[test]
fn names_of_sounds() {
    assert_eq!(SEType::HitPlayerShot.name(), "HitPlayerShot");
    assert_eq!(SEType::PlayerDyson.name(), "PlayerDyson");
    assert_eq!(SEType::DestroyEnemy.name(), "DestroyEnemy");
    assert_eq!(SEType::DestroyBoss.name(), "DestroyBoss");
}

#[test]
fn repeated_sounds_play_once_in_first_order() {
    let req = vec![
        SEType::DestroyEnemy,
        SEType::HitPlayerShot,
        SEType::DestroyEnemy,
        SEType::HitPlayerShot,
        SEType::DestroyBoss,
    ];
    assert_eq!(
        select_sounds(&req),
        vec![SEType::DestroyEnemy, SEType::HitPlayerShot, SEType::DestroyBoss]
    );
    assert_eq!(select_sounds(&vec![]), vec![]);
}

#[test]
fn explosions_by_type() {
    let r = explosion_response(ExplosionType::Enemy);
    assert_eq!(r.burst, ExplosionBurst::Single);
    assert_eq!(r.sound, SEType::DestroyEnemy);
    let r = explosion_response(ExplosionType::Player);
    assert_eq!(r.burst, ExplosionBurst::Single);
    assert_eq!(r.sound, SEType::DestroyEnemy);
    let r = explosion_response(ExplosionType::MiddleBoss);
    assert_eq!(r.burst, ExplosionBurst::Scattered { count: 20, radius: 40 });
    assert_eq!(r.sound, SEType::DestroyBoss);
    let r = explosion_response(ExplosionType::BossEnemy);
    assert_eq!(r.burst, ExplosionBurst::Scattered { count: 40, radius: 60 });
    assert_eq!(r.sound, SEType::DestroyBoss);
}
