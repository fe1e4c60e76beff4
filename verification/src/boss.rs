use vstd::prelude::*;

verus! {

/// The boss's attack patterns, one per health stage.
#[derive(Clone, Copy, Debug, PartialEq, Eq, Structural)]
pub enum BossPhase {
    /// Sends out small bits from its sides.
    AttackOne,
    /// Fires rotating streams of bullets.
    AttackTwo,
    /// Fires rings of bullets.
    AttackThird,
}

/// The order of the phases.
pub open spec fn phase_rank(p: BossPhase) -> int {
    match p {
        BossPhase::AttackOne => 0,
        BossPhase::AttackTwo => 1,
        BossPhase::AttackThird => 2,
    }
}

/// The phase for the next frame: the first attack lasts while the boss is at
/// its first health stage and the second while it is at its second; each
/// change moves one phase on.
pub open spec fn spec_next_boss_phase(phase: BossPhase, hp_index: int) -> BossPhase {
    match phase {
        BossPhase::AttackOne => if hp_index != 0 {
            BossPhase::AttackTwo
        } else {
            BossPhase::AttackOne
        },
        BossPhase::AttackTwo => if hp_index != 1 {
            BossPhase::AttackThird
        } else {
            BossPhase::AttackTwo
        },
        BossPhase::AttackThird => BossPhase::AttackThird,
    }
}

/// The phase for the next frame, as `spec_next_boss_phase` says.
pub fn next_boss_phase(phase: BossPhase, hp_index: usize) -> (next: BossPhase)
    ensures
        next == spec_next_boss_phase(phase, hp_index as int),
{
    match phase {
        BossPhase::AttackOne => if hp_index != 0 {
            BossPhase::AttackTwo
        } else {
            BossPhase::AttackOne
        },
        BossPhase::AttackTwo => if hp_index != 1 {
            BossPhase::AttackThird
        } else {
            BossPhase::AttackTwo
        },
        BossPhase::AttackThird => BossPhase::AttackThird,
    }
}

/// A frame's phase change never goes back to an earlier attack and moves at
/// most one attack on.
pub proof fn lemma_phase_progress(phase: BossPhase, hp_index: int)
    ensures
        phase_rank(phase) <= phase_rank(spec_next_boss_phase(phase, hp_index)) <= phase_rank(phase) + 1,
{
}

/// The number of spots around the boss where a bit can appear.
pub const BIT_SPAWN_CANDIDATES: usize = 5;

/// Where the next bit appears: which spot, and on which side of the boss.
#[derive(Clone, Copy, Debug, PartialEq, Eq, Structural)]
pub struct BitSpawnChoice {
    pub candidate: usize,
    pub right_side: bool,
    /// The random number drawn; the spot is this number modulo
    /// `BIT_SPAWN_CANDIDATES`.
    pub random: u32,
}

/// The spot that a random number picks.
pub fn bit_spawn_candidate(random: u32) -> (index: usize)
    ensures
        index == random as int % BIT_SPAWN_CANDIDATES as int,
        index < BIT_SPAWN_CANDIDATES,
{
    (random as usize) % BIT_SPAWN_CANDIDATES
}

/// `rand::random::<u32>()`: any 32-bit number; nothing is promised of which.
#[verifier::external_body]
fn random_u32() -> (r: u32) {
    rand::random::<u32>()
}

/// `rand::random_ratio(numerator, denominator)`: true with chance
/// numerator/denominator. The crate documents that it panics when the
/// denominator is 0 or the numerator exceeds it, always returns true when
/// they are equal and always false when the numerator is 0.
#[verifier::external_body]
fn random_ratio(numerator: u32, denominator: u32) -> (r: bool)
    requires
        denominator > 0,
        numerator <= denominator,
    ensures
        numerator == denominator ==> r,
        numerator == 0 ==> !r,
{
    rand::random_ratio(numerator, denominator)
}

/// Picks, at random, the side (even odds) and the spot of the next bit: the
/// spot is a random 32-bit number, returned with the choice, modulo the
/// number of spots.
pub fn choose_bit_spawn() -> (choice: BitSpawnChoice)
    ensures
        choice.candidate < BIT_SPAWN_CANDIDATES,
        choice.candidate == choice.random as int % BIT_SPAWN_CANDIDATES as int,
{
    let right_side = random_ratio(1, 2);
    let random = random_u32();
    let candidate = bit_spawn_candidate(random);
    BitSpawnChoice { candidate, right_side, random }
}

/// Every spot can be picked: for each spot there is a random number that
/// picks it, and the spot that a number picks is the number modulo the count.
pub proof fn lemma_every_spot_reachable(spot: int)
    requires
        0 <= spot < BIT_SPAWN_CANDIDATES,
    ensures
        exists|r: u32| #[trigger] (r as int % BIT_SPAWN_CANDIDATES as int) == spot,
{
    let r = spot as u32;
    assert(r as int % BIT_SPAWN_CANDIDATES as int == spot);
}

/// Waves of small enemies the middle boss calls in at most.
pub const ZAKO_SPAWN_LIMIT: usize = 5;

/// The waves of small enemies the middle boss has called in.
pub struct ZakoWaves {
    count: usize,
}

impl ZakoWaves {
    pub closed spec fn spec_count(&self) -> nat {
        self.count as nat
    }

    /// No wave called yet.
    pub fn new() -> (w: Self)
        ensures
            w.spec_count() == 0,
    {
        ZakoWaves { count: 0 }
    }

    /// The middle boss turned around in its sway: a wave comes while fewer
    /// than `ZAKO_SPAWN_LIMIT` have come.
    pub fn on_turn(&mut self, turned: bool) -> (spawn: bool)
        requires
            old(self).spec_count() <= ZAKO_SPAWN_LIMIT,
        ensures
            spawn == (turned && old(self).spec_count() < ZAKO_SPAWN_LIMIT),
            final(self).spec_count() == old(self).spec_count() + (if spawn {
                1int
            } else {
                0int
            }),
            final(self).spec_count() <= ZAKO_SPAWN_LIMIT,
    {
        if turned && self.count < ZAKO_SPAWN_LIMIT {
            self.count = self.count + 1;
            true
        } else {
            false
        }
    }

    /// The waves called so far.
    pub fn count(&self) -> (n: usize)
        ensures
            n == self.spec_count(),
    {
        self.count
    }
}

} // verus!
