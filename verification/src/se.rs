use vstd::prelude::*;

verus! {

/// The sound effects of the game.
#[derive(Clone, Copy, Debug, PartialEq, Eq, Structural)]
pub enum SEType {
    HitPlayerShot,
    PlayerDyson,
    DestroyEnemy,
    DestroyBoss,
}

impl SEType {
    /// The asset path of the sound.
    pub fn get_path(&self) -> (path: &'static str)
        ensures
            path@ == (match *self {
                SEType::HitPlayerShot => "sounds/hit_shot.ogg"@,
                SEType::PlayerDyson => "sounds/shot_dyson.ogg"@,
                SEType::DestroyEnemy => "sounds/destroy_enemy.ogg"@,
                SEType::DestroyBoss => "sounds/destroy_boss.ogg"@,
            }),
    {
        match self {
            SEType::HitPlayerShot => "sounds/hit_shot.ogg",
            SEType::PlayerDyson => "sounds/shot_dyson.ogg",
            SEType::DestroyEnemy => "sounds/destroy_enemy.ogg",
            SEType::DestroyBoss => "sounds/destroy_boss.ogg",
        }
    }

    /// The sound's name, as it is displayed.
    pub fn name(&self) -> (name: String)
        ensures
            name@ == (match *self {
                SEType::HitPlayerShot => "HitPlayerShot"@,
                SEType::PlayerDyson => "PlayerDyson"@,
                SEType::DestroyEnemy => "DestroyEnemy"@,
                SEType::DestroyBoss => "DestroyBoss"@,
            }),
    {
        match self {
            SEType::HitPlayerShot => "HitPlayerShot".to_owned(),
            SEType::PlayerDyson => "PlayerDyson".to_owned(),
            SEType::DestroyEnemy => "DestroyEnemy".to_owned(),
            SEType::DestroyBoss => "DestroyBoss".to_owned(),
        }
    }
}

/// The sounds of a frame's requests that are played: each sound once, in the
/// order of its first request.
pub open spec fn sounds_to_play(requests: Seq<SEType>) -> Seq<SEType>
    decreases requests.len(),
{
    if requests.len() == 0 {
        Seq::empty()
    } else {
        let earlier = sounds_to_play(requests.drop_last());
        if earlier.contains(requests.last()) {
            earlier
        } else {
            earlier.push(requests.last())
        }
    }
}

/// Whether `s` holds `x`.
fn holds_sound(s: &Vec<SEType>, x: SEType) -> (found: bool)
    ensures
        found == s@.contains(x),
{
    let n = s.len();
    for i in 0..n
        invariant
            n == s@.len(),
            forall|j: int| 0 <= j < i ==> s@[j] != x,
    {
        if s[i] == x {
            assert(s@[i as int] == x);
            return true;
        }
    }
    false
}

/// The sounds to start for a frame's requests: a sound requested several
/// times in one frame is played once.
pub fn select_sounds(requests: &Vec<SEType>) -> (played: Vec<SEType>)
    ensures
        played@ == sounds_to_play(requests@),
{
    let mut played: Vec<SEType> = Vec::new();
    let n = requests.len();
    for i in 0..n
        invariant
            n == requests@.len(),
            played@ == sounds_to_play(requests@.take(i as int)),
    {
        let r = requests[i];
        assert(requests@.take(i + 1).drop_last() =~= requests@.take(i as int));
        assert(requests@.take(i + 1).last() == r);
        if !holds_sound(&played, r) {
            played.push(r);
        }
    }
    assert(requests@.take(n as int) =~= requests@);
    played
}

/// No sound is played twice in a frame, every requested sound is played, and
/// nothing else is.
pub proof fn lemma_sounds_to_play(requests: Seq<SEType>)
    ensures
        sounds_to_play(requests).no_duplicates(),
        forall|x: SEType| sounds_to_play(requests).contains(x) <==> requests.contains(x),
    decreases requests.len(),
{
    if requests.len() > 0 {
        let rest = requests.drop_last();
        lemma_sounds_to_play(rest);
        let earlier = sounds_to_play(rest);
        assert forall|x: SEType| sounds_to_play(requests).contains(x) <==> requests.contains(x) by {
            if requests.contains(x) {
                let k = choose|k: int| 0 <= k < requests.len() && requests[k] == x;
                if k < requests.len() - 1 {
                    assert(rest[k] == x);
                    assert(rest.contains(x));
                    assert(earlier.contains(x));
                }
                if !earlier.contains(requests.last()) {
                    assert(earlier.push(requests.last()).last() == requests.last());
                }
                if earlier.contains(x) {
                    let m = choose|m: int| 0 <= m < earlier.len() && earlier[m] == x;
                    if !earlier.contains(requests.last()) {
                        assert(earlier.push(requests.last())[m] == x);
                    }
                }
            }
            if sounds_to_play(requests).contains(x) {
                if earlier.contains(x) {
                    assert(rest.contains(x));
                    let k = choose|k: int| 0 <= k < rest.len() && rest[k] == x;
                    assert(requests[k] == x);
                } else {
                    let m = choose|m: int|
                        0 <= m < sounds_to_play(requests).len() && sounds_to_play(requests)[m] == x;
                    assert(m == earlier.len());
                    assert(requests[requests.len() - 1] == x);
                }
            }
        }
    }
}

} // verus!
