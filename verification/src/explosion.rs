use vstd::prelude::*;
use crate::se::SEType;

verus! {

/// What exploded.
#[derive(Clone, Copy, Debug, PartialEq, Eq, Structural)]
pub enum ExplosionType {
    Player,
    Enemy,
    MiddleBoss,
    BossEnemy,
}

/// How an explosion is drawn.
#[derive(Clone, Copy, Debug, PartialEq, Eq, Structural)]
pub enum ExplosionBurst {
    /// One blast at the position.
    Single,
    /// `count` blasts at random points within `radius` of the position.
    Scattered { count: usize, radius: u32 },
}

/// The blasts and the sound of an explosion.
#[derive(Clone, Copy, Debug, PartialEq, Eq, Structural)]
pub struct ExplosionResponse {
    pub burst: ExplosionBurst,
    pub sound: SEType,
}

/// Players and small enemies burst once with the enemy sound; the middle
/// boss bursts 20 times within 40 units and the boss 40 times within 60,
/// both with the boss sound.
pub fn explosion_response(explosion_type: ExplosionType) -> (r: ExplosionResponse)
    ensures
        r == (match explosion_type {
            ExplosionType::Enemy | ExplosionType::Player => ExplosionResponse {
                burst: ExplosionBurst::Single,
                sound: SEType::DestroyEnemy,
            },
            ExplosionType::MiddleBoss => ExplosionResponse {
                burst: ExplosionBurst::Scattered { count: 20, radius: 40 },
                sound: SEType::DestroyBoss,
            },
            ExplosionType::BossEnemy => ExplosionResponse {
                burst: ExplosionBurst::Scattered { count: 40, radius: 60 },
                sound: SEType::DestroyBoss,
            },
        }),
{
    match explosion_type {
        ExplosionType::Enemy | ExplosionType::Player => ExplosionResponse {
            burst: ExplosionBurst::Single,
            sound: SEType::DestroyEnemy,
        },
        ExplosionType::MiddleBoss => ExplosionResponse {
            burst: ExplosionBurst::Scattered { count: 20, radius: 40 },
            sound: SEType::DestroyBoss,
        },
        ExplosionType::BossEnemy => ExplosionResponse {
            burst: ExplosionBurst::Scattered { count: 40, radius: 60 },
            sound: SEType::DestroyBoss,
        },
    }
}

} // verus!
