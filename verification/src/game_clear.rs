use vstd::prelude::*;

verus! {

/// The sound that closes a game.
#[derive(Clone, Copy, Debug, PartialEq, Eq, Structural)]
pub enum EndSound {
    Fanfare,
    GameOver,
}

/// What the end sequence does in one frame.
#[derive(Clone, Copy, Debug, PartialEq, Eq, Structural)]
pub struct EndFrameAction {
    /// Draw the two black wipes that close the screen.
    pub spawn_wipes: bool,
    /// Draw the "game clear" logo.
    pub spawn_logo: bool,
    /// The sound to play, if any.
    pub sound: Option<EndSound>,
    /// Save the score and go back to the title screen.
    pub finish: bool,
}

/// The end-of-game sequence: whether the game was cleared, and which of its
/// one-time steps have happened.
pub struct GameClear {
    pub is_clear: bool,
    pub spawned_wipe: bool,
    pub played_se: bool,
}

impl GameClear {
    /// A sequence that has done nothing yet.
    pub fn new(is_clear: bool) -> (g: Self)
        ensures
            g.is_clear == is_clear,
            !g.spawned_wipe,
            !g.played_se,
    {
        GameClear { is_clear, spawned_wipe: false, played_se: false }
    }

    /// A cleared game waits, with its clock stopped, until every score tip
    /// on the field has been collected or has left.
    pub fn waits_for_tips(&self, tips_on_field: bool) -> (wait: bool)
        ensures
            wait == (tips_on_field && self.is_clear),
    {
        tips_on_field && self.is_clear
    }

    /// One frame of the sequence, given which thresholds its clock has
    /// reached: the wipes (and, for a cleared game, the logo) appear once
    /// the wipe time is reached, the fanfare or the game-over sound plays
    /// once the sound time is reached, and at the title time the sequence
    /// finishes, every frame from then on.
    pub fn step(&mut self, reached_wipe: bool, reached_sound: bool, reached_title: bool) -> (action: EndFrameAction)
        ensures
            (*final(self), action) == spec_step(*old(self), reached_wipe, reached_sound, reached_title),
            final(self).is_clear == old(self).is_clear,
            action.spawn_logo ==> old(self).is_clear,
            action.spawn_logo == (action.spawn_wipes && old(self).is_clear),
            action.sound == Some(EndSound::Fanfare) ==> old(self).is_clear,
            action.sound is Some && !old(self).is_clear ==> action.sound == Some(EndSound::GameOver),
            action.sound is Some && old(self).is_clear ==> action.sound == Some(EndSound::Fanfare),
    {
        let spawn_wipes = reached_wipe && !self.spawned_wipe;
        if spawn_wipes {
            self.spawned_wipe = true;
        }
        let spawn_logo = spawn_wipes && self.is_clear;
        let mut sound = None;
        if reached_sound && !self.played_se {
            self.played_se = true;
            sound = Some(
                if self.is_clear {
                    EndSound::Fanfare
                } else {
                    EndSound::GameOver
                },
            );
        }
        EndFrameAction { spawn_wipes, spawn_logo, sound, finish: reached_title }
    }
}

/// The state and action of one frame of the sequence, as `GameClear::step`
/// computes them.
pub open spec fn spec_step(g: GameClear, reached_wipe: bool, reached_sound: bool, reached_title: bool) -> (
    GameClear,
    EndFrameAction,
) {
    let spawn_wipes = reached_wipe && !g.spawned_wipe;
    (
        GameClear {
            is_clear: g.is_clear,
            spawned_wipe: g.spawned_wipe || reached_wipe,
            played_se: g.played_se || reached_sound,
        },
        EndFrameAction {
            spawn_wipes,
            spawn_logo: spawn_wipes && g.is_clear,
            sound: if reached_sound && !g.played_se {
                Some(
                    if g.is_clear {
                        EndSound::Fanfare
                    } else {
                        EndSound::GameOver
                    },
                )
            } else {
                None
            },
            finish: reached_title,
        },
    )
}

/// The wipes are drawn, and the end sound plays, in at most one frame: after
/// a frame that drew them (or played it), no later frame does it again.
pub proof fn lemma_end_steps_once(
    g: GameClear,
    first: (bool, bool, bool),
    second: (bool, bool, bool),
)
    ensures
        ({
            let (g1, a1) = spec_step(g, first.0, first.1, first.2);
            let (g2, a2) = spec_step(g1, second.0, second.1, second.2);
            &&& a1.spawn_wipes ==> !a2.spawn_wipes
            &&& a1.sound is Some ==> a2.sound is None
            &&& g2.spawned_wipe == (g.spawned_wipe || first.0 || second.0)
            &&& g2.played_se == (g.played_se || first.1 || second.1)
        }),
{
}

/// The sound and the logo tell a cleared game from a lost one: in every
/// frame, whatever the state and the thresholds reached, the fanfare plays
/// only for a cleared game and the game-over sound only for a lost one, the
/// logo is drawn only for a cleared game and then exactly with the wipes,
/// and the sequence never changes whether the game was cleared.
pub proof fn lemma_end_frame_matches_outcome(g: GameClear, reached_wipe: bool, reached_sound: bool, reached_title: bool)
    ensures
        ({
            let (g1, a) = spec_step(g, reached_wipe, reached_sound, reached_title);
            &&& g1.is_clear == g.is_clear
            &&& a.sound == Some(EndSound::Fanfare) ==> g.is_clear
            &&& a.sound == Some(EndSound::GameOver) ==> !g.is_clear
            &&& a.sound is Some ==> (a.sound == Some(EndSound::Fanfare) <==> g.is_clear)
            &&& a.spawn_logo ==> g.is_clear
            &&& a.spawn_logo ==> a.spawn_wipes
            &&& (a.spawn_wipes && g.is_clear) ==> a.spawn_logo
        }),
{
}

/// The state after the first `k` frames of `frames`, each giving which
/// thresholds were reached.
pub open spec fn state_after(g: GameClear, frames: Seq<(bool, bool, bool)>, k: nat) -> GameClear
    decreases k,
{
    if k == 0 {
        g
    } else {
        let f = frames[k - 1];
        spec_step(state_after(g, frames, (k - 1) as nat), f.0, f.1, f.2).0
    }
}

/// Over any run of frames, a lost game never plays the fanfare nor draws the
/// logo, and a cleared game never plays the game-over sound.
pub proof fn lemma_outcome_kept_over_run(g: GameClear, frames: Seq<(bool, bool, bool)>, k: nat)
    requires
        k < frames.len(),
    ensures
        state_after(g, frames, k).is_clear == g.is_clear,
        ({
            let f = frames[k as int];
            let a = spec_step(state_after(g, frames, k), f.0, f.1, f.2).1;
            &&& !g.is_clear ==> a.sound != Some(EndSound::Fanfare) && !a.spawn_logo
            &&& g.is_clear ==> a.sound != Some(EndSound::GameOver)
        }),
    decreases k,
{
    if k > 0 {
        lemma_outcome_kept_over_run(g, frames, (k - 1) as nat);
    }
}

} // verus!
