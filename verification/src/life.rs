use vstd::prelude::*;

verus! {

/// Lives the player starts a game with.
pub const INITIAL_LIFE: i32 = 3;

/// Number of life icons the display has room for.
pub const LIFE_UI_SLOTS: u32 = 20;

/// The player's remaining lives.
pub struct Life {
    pub life: i32,
}

impl Life {
    /// The lives of a new game.
    pub fn new() -> (l: Self)
        ensures
            l.life == INITIAL_LIFE,
    {
        Life { life: INITIAL_LIFE }
    }

    /// Adds the lives earned by one increment event; the count is read as a
    /// signed 32-bit number, as the event's `usize` is cast.
    pub fn increment(&mut self, amount: usize)
        requires
            i32::MIN <= old(self).life + (amount as i32) <= i32::MAX,
        ensures
            final(self).life == old(self).life + (amount as i32),
    {
        self.life = self.life + amount as i32;
    }

    /// Adds the lives of every increment event of a frame, in order, each
    /// count read as a signed 32-bit number; the running total must stay a
    /// 32-bit number after every event, as each addition is checked.
    pub fn apply_increments(&mut self, amounts: &Vec<usize>)
        requires
            forall|k: int|
                0 <= k <= amounts@.len() ==> i32::MIN <= old(self).life + #[trigger] total(amounts@.take(k))
                    <= i32::MAX,
        ensures
            final(self).life == old(self).life + total(amounts@),
    {
        let n = amounts.len();
        for i in 0..n
            invariant
                n == amounts@.len(),
                forall|k: int|
                    0 <= k <= amounts@.len() ==> i32::MIN <= old(self).life + #[trigger] total(amounts@.take(k))
                        <= i32::MAX,
                self.life == old(self).life + total(amounts@.take(i as int)),
        {
            proof {
                assert(amounts@.take(i + 1).drop_last() =~= amounts@.take(i as int));
                assert(amounts@.take(i + 1).last() == amounts@[i as int]);
                assert(i32::MIN <= old(self).life + total(amounts@.take(i + 1)) <= i32::MAX);
            }
            self.increment(amounts[i]);
        }
        assert(amounts@.take(n as int) =~= amounts@);
    }
}

/// The sum of a sequence of increment counts, each read as a signed 32-bit
/// number.
pub open spec fn total(s: Seq<usize>) -> int
    decreases s.len(),
{
    if s.len() == 0 {
        0
    } else {
        total(s.drop_last()) + (s.last() as i32)
    }
}

/// Whether the life icon in `slot` is shown: it is while the slot number,
/// read as a signed number, is below the remaining lives.
pub fn life_slot_visible(slot: u32, life: i32) -> (visible: bool)
    ensures
        visible == ((slot as i32) < life),
{
    !((slot as i32) >= life)
}

/// How many of the first `n` life icons are shown for `life` lives.
pub open spec fn shown_icons(life: i32, n: nat) -> int
    decreases n,
{
    if n == 0 {
        0
    } else {
        shown_icons(life, (n - 1) as nat) + (if (((n - 1) as u32) as i32) < life {
            1int
        } else {
            0int
        })
    }
}

/// The display shows one icon per remaining life, up to its room: no icon
/// with no lives left, and all `LIFE_UI_SLOTS` icons with that many or more.
pub proof fn lemma_shown_icons(life: i32, n: nat)
    requires
        n <= LIFE_UI_SLOTS,
    ensures
        shown_icons(life, n) == (if life <= 0 {
            0
        } else if life >= n {
            n as int
        } else {
            life as int
        }),
    decreases n,
{
    if n > 0 {
        lemma_shown_icons(life, (n - 1) as nat);
        let slot = (n - 1) as u32;
        assert((slot as i32) as int == slot as int) by (bit_vector)
            requires
                slot < 20,
        ;
    }
}

} // verus!
