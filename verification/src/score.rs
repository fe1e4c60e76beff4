use vstd::prelude::*;
use crate::decimal::{
    decimal_bytes, decimal_text, lemma_decimal_bytes_len_monotonic, lemma_decimal_text_round_trip,
    parse_u32, spec_parse_u32,
};

verus! {

/// Every time the score passes a multiple of this value the player earns a life.
pub const LIFEUP_SCORE: u32 = 50000;

/// Largest score for which the life-up test is exact in single precision
/// (2 to the 24th).
pub const EXACT_SCORE_LIMIT: u32 = 16777216;

/// How many extra lives a score is worth.
pub open spec fn lifeups_earned(score: int) -> int {
    score / (LIFEUP_SCORE as int)
}

/// The running score of the current game.
pub struct GameScore(u32);

impl View for GameScore {
    type V = u32;

    closed spec fn view(&self) -> u32 {
        self.0
    }
}

impl GameScore {
    /// A score of zero.
    pub fn new() -> (s: Self)
        ensures
            s@ == 0,
    {
        GameScore(0)
    }

    /// A score of `score` points, as loaded from a saved high score.
    pub fn from_score(score: u32) -> (s: Self)
        ensures
            s@ == score,
    {
        GameScore(score)
    }

    /// Sets the score back to zero.
    pub fn reset_score(&mut self)
        ensures
            final(self)@ == 0,
    {
        self.0 = 0;
    }

    /// Adds `add` points; the result tells whether a new multiple of
    /// `LIFEUP_SCORE` was reached, which earns the player one life.
    ///
    /// The game compares the single-precision quotients `score / 50000`,
    /// rounded down. Up to `EXACT_SCORE_LIMIT` (2^24) every score is exact
    /// in single precision, and a quotient that is not a whole number lies at
    /// least 1/50000 from one, more than half the spacing of single-precision
    /// numbers below 512, so rounding never moves it past a whole number: the
    /// comparison is the integer one stated here. Beyond that limit the
    /// rounding matters, so the sum must stay within it.
    pub fn add_score(&mut self, add: u32) -> (life_up: bool)
        requires
            old(self)@ + add <= EXACT_SCORE_LIMIT,
        ensures
            final(self)@ == old(self)@ + add,
            life_up == (lifeups_earned(final(self)@ as int) > lifeups_earned(old(self)@ as int)),
    {
        let prev = self.0;
        self.0 = self.0 + add;
        self.0 / LIFEUP_SCORE > prev / LIFEUP_SCORE
    }

    /// The current score.
    pub fn get_score(&self) -> (s: u32)
        ensures
            s == self@,
    {
        self.0
    }

    /// Takes `sub` points away, stopping at zero. A negative `sub` is read as
    /// the unsigned 32-bit number with the same bits (`sub + 2^32`).
    pub fn sub_score(&mut self, sub: i32)
        ensures
            final(self)@ == (if (old(self)@ as int) < unsigned_bits(sub) {
                0
            } else {
                old(self)@ - unsigned_bits(sub)
            }),
    {
        let amount = sub as u32;
        proof {
            lemma_unsigned_bits(sub);
        }
        if self.0 < amount {
            self.0 = 0;
            return;
        }
        self.0 = self.0 - amount;
    }
}

/// The sum of a sequence of point gains.
pub open spec fn sum_points(adds: Seq<u32>) -> int
    decreases adds.len(),
{
    if adds.len() == 0 {
        0
    } else {
        sum_points(adds.drop_last()) + adds.last()
    }
}

/// How many of the gains `adds`, added one after the other to `start`,
/// signal an extra life.
pub open spec fn lifeups_signalled(start: int, adds: Seq<u32>) -> int
    decreases adds.len(),
{
    if adds.len() == 0 {
        0
    } else {
        let before = start + sum_points(adds.drop_last());
        lifeups_signalled(start, adds.drop_last()) + (if lifeups_earned(before + adds.last())
            > lifeups_earned(before) {
            1int
        } else {
            0int
        })
    }
}

/// No extra life is lost: when no single gain exceeds `LIFEUP_SCORE` (no
/// enemy is worth more), the lives signalled over a game are exactly the
/// multiples of `LIFEUP_SCORE` that the score passed.
pub proof fn lemma_lifeups_counted(start: int, adds: Seq<u32>)
    requires
        start >= 0,
        forall|i: int| 0 <= i < adds.len() ==> adds[i] <= LIFEUP_SCORE,
    ensures
        lifeups_signalled(start, adds) == lifeups_earned(start + sum_points(adds)) - lifeups_earned(start),
        sum_points(adds) >= 0,
    decreases adds.len(),
{
    if adds.len() > 0 {
        let rest = adds.drop_last();
        lemma_lifeups_counted(start, rest);
        let before = start + sum_points(rest);
        let a = adds.last() as int;
        assert(0 <= a <= 50000);
        assert(before >= 0);
        let q0 = before / 50000;
        let q1 = (before + a) / 50000;
        assert(q0 <= q1 && q1 <= q0 + 1) by (nonlinear_arith)
            requires
                before >= 0,
                0 <= a <= 50000,
                q0 == before / 50000,
                q1 == (before + a) / 50000,
        ;
    }
}

/// The unsigned 32-bit number that has the same bits as `x`.
pub open spec fn unsigned_bits(x: i32) -> int {
    if x >= 0 {
        x as int
    } else {
        x + 0x1_0000_0000
    }
}

proof fn lemma_unsigned_bits(x: i32)
    ensures
        (x as u32) as int == unsigned_bits(x),
{
    if x >= 0 {
        assert((x as u32) as int == x as int) by (bit_vector)
            requires
                x >= 0,
        ;
    } else {
        assert((x as u32) as int == x + 0x1_0000_0000) by (bit_vector)
            requires
                x < 0,
        ;
    }
}


/// The high score stored in a saved text: the text read as a `u32`, or 0
/// where it is not one.
pub fn high_score_from_text(text: &[u8]) -> (score: u32)
    ensures
        score == (match spec_parse_u32(text@) {
            Some(v) => v,
            None => 0,
        }),
{
    match parse_u32(text) {
        Some(v) => v,
        None => 0,
    }
}

/// Whether a finished game's score replaces the saved high score: it does
/// unless the saved one is strictly greater.
pub fn should_save_score(high_score: u32, new_score: u32) -> (save: bool)
    ensures
        save == !(high_score > new_score),
{
    !(high_score > new_score)
}


/// The high score that a saved text holds: its value, or 0 where it holds
/// no number.
pub open spec fn saved_high_score(stored: Seq<u8>) -> u32 {
    match spec_parse_u32(stored) {
        Some(v) => v,
        None => 0,
    }
}

/// The text to write when a game ends with `new_score`, given the saved
/// text: the decimal text of the new score, unless the saved high score is
/// greater, in which case nothing is written.
pub open spec fn spec_high_score_save(stored: Seq<u8>, new_score: u32) -> Option<Seq<u8>> {
    if saved_high_score(stored) > new_score {
        None
    } else {
        Some(decimal_bytes(new_score as nat))
    }
}

/// What is written when a game ends with `new_score`, given the text saved
/// so far (empty where there is none).
pub fn high_score_save(stored: &[u8], new_score: u32) -> (write: Option<Vec<u8>>)
    ensures
        match spec_high_score_save(stored@, new_score) {
            None => write is None,
            Some(t) => write matches Some(w) && w@ == t,
        },
{
    if should_save_score(high_score_from_text(stored), new_score) {
        Some(decimal_text(new_score))
    } else {
        None
    }
}

/// The saved file after `new` is written over `old` from its start, without
/// cutting it short: the bytes of `old` beyond `new` stay.
pub open spec fn overwritten(old: Seq<u8>, new: Seq<u8>) -> Seq<u8> {
    if old.len() > new.len() {
        new + old.skip(new.len() as int)
    } else {
        new
    }
}

/// The saved high score is the best score: where the saved text is the
/// decimal text of `high` (or nothing, for a high score of 0), after a game
/// ending with `new_score` the saved text reads back as the larger of the two,
/// and it is left as it was when the new score is smaller.
pub proof fn lemma_high_score_saved(stored: Seq<u8>, high: u32, new_score: u32)
    requires
        stored == decimal_bytes(high as nat) || (stored.len() == 0 && high == 0),
    ensures
        ({
            let after = match spec_high_score_save(stored, new_score) {
                Some(t) => overwritten(stored, t),
                None => stored,
            };
            spec_parse_u32(after) == Some(if high > new_score {
                high
            } else {
                new_score
            })
        }),
        new_score < high ==> spec_high_score_save(stored, new_score) is None,
{
    lemma_decimal_text_round_trip(high);
    lemma_decimal_text_round_trip(new_score);
    if stored.len() == 0 {
        assert(spec_parse_u32(stored) is None);
    }
    assert(saved_high_score(stored) == high);
    if high <= new_score {
        lemma_decimal_bytes_len_monotonic(high as nat, new_score as nat);
        assert(overwritten(stored, decimal_bytes(new_score as nat)) == decimal_bytes(new_score as nat));
    }
}

/// Score tips thrown out at once: how many, and what each is worth.
#[derive(Clone, Copy, Debug, PartialEq, Eq, Structural)]
pub struct TipBurst {
    pub num: usize,
    pub score: u32,
}

/// Worth of each tip thrown out when an enemy loses one of several health stages.
pub const STAGE_TIP_SCORE: u32 = 100;

/// Worth of each tip thrown out when an enemy is destroyed.
pub const DESTROY_TIP_SCORE: u32 = 300;

/// Largest tip count for which half of it, rounded up, is computed exactly in
/// single precision (2 to the 24th).
pub const EXACT_TIP_COUNT_LIMIT: usize = 16777216;

/// Half of `score_tip_num`, rounded up: the tips thrown out when an enemy
/// loses a health stage that is not its last.
pub fn tip_split_count(score_tip_num: usize) -> (num: usize)
    requires
        score_tip_num <= EXACT_TIP_COUNT_LIMIT,
    ensures
        num == (score_tip_num + 1) / 2,
        2 * num >= score_tip_num,
        2 * num <= score_tip_num + 1,
{
    (score_tip_num + 1) / 2
}

/// Whether a tip that has stopped scattering flies toward the player: it
/// does while the player is not shooting or is already close to it, and
/// never while the player is being moved back after a hit.
pub fn tip_follows_player(player_is_shooting: bool, player_is_near: bool, player_is_controlled_auto: bool) -> (follow: bool)
    ensures
        follow == ((!player_is_shooting || player_is_near) && !player_is_controlled_auto),
{
    (!player_is_shooting || player_is_near) && !player_is_controlled_auto
}

} // verus!
