use vstd::prelude::*;
use crate::explosion::ExplosionType;
use crate::score::{TipBurst, tip_split_count, STAGE_TIP_SCORE, DESTROY_TIP_SCORE, EXACT_TIP_COUNT_LIMIT};

verus! {

/// What every enemy carries besides its health values: which health stage
/// is current, what destroying it is worth, and the flags that decide when
/// it leaves the field. The health of stage `i` is kept beside it, outside
/// this record.
pub struct EnemyStatus {
    pub hp_index: usize,
    pub stage_count: usize,
    pub score: u32,
    pub score_tip_num: usize,
    pub explosion_type: ExplosionType,
    pub is_destroy_touch_player: bool,
    pub is_hited_player: bool,
    pub is_out_of_screen: bool,
}

/// What happens when the current health stage runs out.
#[derive(Clone, Copy, Debug, PartialEq, Eq, Structural)]
pub enum StageOutcome {
    /// The last stage ran out: the enemy explodes.
    Explode(ExplosionType),
    /// The next stage begins, and tips are thrown out.
    NextStage(TipBurst),
}

/// Whether an enemy leaves the field at the end of a frame.
#[derive(Clone, Copy, Debug, PartialEq, Eq, Structural)]
pub enum DespawnDecision {
    Keep,
    /// It left the screen or rammed the player: removed without reward.
    Remove,
    /// It was destroyed: its score is added and tips are thrown out.
    Destroyed { score: u32, tips: TipBurst },
}

impl EnemyStatus {
    /// The current stage is one of the enemy's stages, and the tip count is
    /// small enough to be halved exactly.
    pub open spec fn wf(&self) -> bool {
        &&& self.hp_index < self.stage_count
        &&& self.score_tip_num <= EXACT_TIP_COUNT_LIMIT
    }

    /// A fresh enemy with `stage_count` health stages, at its first stage,
    /// touching nothing.
    pub fn new(stage_count: usize, score: u32, score_tip_num: usize, explosion_type: ExplosionType) -> (e: Self)
        requires
            stage_count >= 1,
            score_tip_num <= EXACT_TIP_COUNT_LIMIT,
        ensures
            e.wf(),
            e.hp_index == 0,
            e.stage_count == stage_count,
            e.score == score,
            e.score_tip_num == score_tip_num,
            e.explosion_type == explosion_type,
            e.is_destroy_touch_player,
            !e.is_hited_player,
            !e.is_out_of_screen,
    {
        EnemyStatus {
            hp_index: 0,
            stage_count,
            score,
            score_tip_num,
            explosion_type,
            is_destroy_touch_player: true,
            is_hited_player: false,
            is_out_of_screen: false,
        }
    }

    /// The stages left after the current one, as the health gauge shows them.
    pub fn remaining_stages(&self) -> (n: usize)
        requires
            self.wf(),
        ensures
            n == self.stage_count - 1 - self.hp_index,
    {
        self.stage_count - 1 - self.hp_index
    }

    /// The current stage ran out of health: on the last stage the enemy
    /// explodes; otherwise the next stage begins and half the enemy's tips,
    /// rounded up, are thrown out, worth `STAGE_TIP_SCORE` each.
    pub fn on_stage_depleted(&mut self) -> (outcome: StageOutcome)
        requires
            old(self).wf(),
        ensures
            final(self).wf(),
            (*final(self), outcome) == old(self).spec_on_stage_depleted(),
            final(self).score == old(self).score,
            final(self).score_tip_num == old(self).score_tip_num,
            final(self).explosion_type == old(self).explosion_type,
            final(self).stage_count == old(self).stage_count,
            final(self).is_destroy_touch_player == old(self).is_destroy_touch_player,
            final(self).is_hited_player == old(self).is_hited_player,
            final(self).is_out_of_screen == old(self).is_out_of_screen,
            final(self).hp_index == (if old(self).hp_index + 1 == old(self).stage_count {
                old(self).hp_index as int
            } else {
                old(self).hp_index + 1
            }),
    {
        if self.hp_index + 1 == self.stage_count {
            StageOutcome::Explode(self.explosion_type)
        } else {
            self.hp_index = self.hp_index + 1;
            let num = tip_split_count(self.score_tip_num);
            StageOutcome::NextStage(TipBurst { num, score: STAGE_TIP_SCORE })
        }
    }

    /// The status and outcome after the current stage runs out.
    pub open spec fn spec_on_stage_depleted(self) -> (EnemyStatus, StageOutcome) {
        if self.hp_index + 1 == self.stage_count {
            (self, StageOutcome::Explode(self.explosion_type))
        } else {
            (
                EnemyStatus { hp_index: (self.hp_index + 1) as usize, ..self },
                StageOutcome::NextStage(
                    TipBurst { num: ((self.score_tip_num + 1) / 2) as usize, score: STAGE_TIP_SCORE },
                ),
            )
        }
    }

    /// The enemy touched the player: one that is destroyed by touching is
    /// marked for removal.
    pub fn touch_player(&mut self)
        ensures
            final(self).is_hited_player == (old(self).is_hited_player || old(self).is_destroy_touch_player),
            final(self).hp_index == old(self).hp_index,
            final(self).stage_count == old(self).stage_count,
            final(self).score == old(self).score,
            final(self).score_tip_num == old(self).score_tip_num,
            final(self).explosion_type == old(self).explosion_type,
            final(self).is_destroy_touch_player == old(self).is_destroy_touch_player,
            final(self).is_out_of_screen == old(self).is_out_of_screen,
    {
        if self.is_destroy_touch_player {
            self.is_hited_player = true;
        }
    }

    /// Whether the enemy leaves the field this frame, given whether its
    /// current stage has run out of health: leaving the screen comes first,
    /// then destruction (score and `score_tip_num` tips worth
    /// `DESTROY_TIP_SCORE`), then having rammed the player.
    pub fn despawn_decision(&self, current_stage_depleted: bool) -> (d: DespawnDecision)
        ensures
            d == (if self.is_out_of_screen {
                DespawnDecision::Remove
            } else if current_stage_depleted {
                DespawnDecision::Destroyed {
                    score: self.score,
                    tips: TipBurst { num: self.score_tip_num, score: DESTROY_TIP_SCORE },
                }
            } else if self.is_hited_player {
                DespawnDecision::Remove
            } else {
                DespawnDecision::Keep
            }),
    {
        if self.is_out_of_screen {
            DespawnDecision::Remove
        } else if current_stage_depleted {
            DespawnDecision::Destroyed {
                score: self.score,
                tips: TipBurst { num: self.score_tip_num, score: DESTROY_TIP_SCORE },
            }
        } else if self.is_hited_player {
            DespawnDecision::Remove
        } else {
            DespawnDecision::Keep
        }
    }

    /// Whether the enemy's last stage has run out: for the boss, the game
    /// is cleared.
    pub fn is_final_stage_cleared(&self, current_stage_depleted: bool) -> (cleared: bool)
        requires
            self.wf(),
        ensures
            cleared == (self.hp_index + 1 == self.stage_count && current_stage_depleted),
    {
        self.hp_index + 1 == self.stage_count && current_stage_depleted
    }
}

/// The state after `k` more stages of `e` ran out, each one after the other.
pub open spec fn depleted_times(e: EnemyStatus, k: nat) -> EnemyStatus
    decreases k,
{
    if k == 0 {
        e
    } else {
        depleted_times(e, (k - 1) as nat).spec_on_stage_depleted().0
    }
}

/// An enemy with `n` health stages passes its first `n - 1` stages, each
/// throwing out tips, and explodes exactly when its last stage runs out;
/// the gauge shows the stages still to come.
pub proof fn lemma_stages_until_explosion(e: EnemyStatus, k: nat)
    requires
        e.wf(),
        e.hp_index == 0,
        k < e.stage_count,
    ensures
        depleted_times(e, k).wf(),
        depleted_times(e, k).hp_index == k,
        depleted_times(e, k).stage_count == e.stage_count,
        k + 1 < e.stage_count ==> depleted_times(e, k).spec_on_stage_depleted().1 is NextStage,
        k + 1 == e.stage_count ==> depleted_times(e, k).spec_on_stage_depleted().1
            == StageOutcome::Explode(e.explosion_type),
        k + 1 == e.stage_count ==> depleted_times(e, k).spec_on_stage_depleted().0
            == depleted_times(e, k),
    decreases k,
{
    if k > 0 {
        lemma_stages_until_explosion(e, (k - 1) as nat);
    }
    let cur = depleted_times(e, k);
    assert(cur.explosion_type == e.explosion_type) by {
        lemma_depletion_keeps_fields(e, k);
    }
}

/// Running out of health stages changes nothing but the current stage: an
/// enemy keeps its score, its tips, its explosion, its stage count and its
/// flags however many stages it loses, so an enemy destroyed after losing
/// its earlier stages is worth its full score.
pub proof fn lemma_depletion_keeps_fields(e: EnemyStatus, k: nat)
    ensures
        depleted_times(e, k).score == e.score,
        depleted_times(e, k).explosion_type == e.explosion_type,
        depleted_times(e, k).score_tip_num == e.score_tip_num,
        depleted_times(e, k).stage_count == e.stage_count,
        depleted_times(e, k).is_destroy_touch_player == e.is_destroy_touch_player,
        depleted_times(e, k).is_hited_player == e.is_hited_player,
        depleted_times(e, k).is_out_of_screen == e.is_out_of_screen,
    decreases k,
{
    if k > 0 {
        lemma_depletion_keeps_fields(e, (k - 1) as nat);
    }
}

/// After the boss's last stage is cleared, the gauge shows no stage left;
/// while a stage remains, the current stage and those after it make up all
/// stages.
pub proof fn lemma_gauge_counts_stages(e: EnemyStatus)
    requires
        e.wf(),
    ensures
        (e.stage_count - 1 - e.hp_index) + e.hp_index + 1 == e.stage_count,
        e.hp_index + 1 == e.stage_count ==> e.stage_count - 1 - e.hp_index == 0,
{
}

/// Shots fired in one volley by the enemy that stops and aims at the player.
pub const ENEMY1_BULLET_SHOT_NUM: i32 = 3;

/// The count of shots fired in the current volley.
pub struct VolleyCounter {
    shoted_num: i32,
}

impl VolleyCounter {
    pub closed spec fn spec_shoted_num(&self) -> int {
        self.shoted_num as int
    }

    /// No shot fired yet.
    pub fn new() -> (c: Self)
        ensures
            c.spec_shoted_num() == 0,
    {
        VolleyCounter { shoted_num: 0 }
    }

    /// Records a fired shot; the result tells whether the volley is complete,
    /// in which case the count starts over.
    pub fn record_shot(&mut self) -> (volley_complete: bool)
        requires
            0 <= old(self).spec_shoted_num() < ENEMY1_BULLET_SHOT_NUM,
        ensures
            volley_complete == (old(self).spec_shoted_num() + 1 >= ENEMY1_BULLET_SHOT_NUM),
            final(self).spec_shoted_num() == (if volley_complete {
                0
            } else {
                old(self).spec_shoted_num() + 1
            }),
            0 <= final(self).spec_shoted_num() < ENEMY1_BULLET_SHOT_NUM,
    {
        self.shoted_num = self.shoted_num + 1;
        if self.shoted_num >= ENEMY1_BULLET_SHOT_NUM {
            self.shoted_num = 0;
            true
        } else {
            false
        }
    }
}

} // verus!
