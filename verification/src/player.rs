use vstd::prelude::*;

verus! {

/// The three pairs of shots the player fires while Z is held.
#[derive(Clone, Copy, Debug, PartialEq, Eq, Structural)]
pub enum ShotKind {
    /// Straight ahead.
    Straight,
    /// Slightly to the sides.
    LittleSlanting,
    /// Further to the sides.
    Slanting,
}

/// The marker component put on a fired shot, by which its kind is counted.
#[derive(Clone, Copy, Debug, PartialEq, Eq, Structural)]
pub enum ShotMarker {
    Straight,
    LittleSlanting,
}

/// Straight shots allowed on screen before no more are fired.
pub const STRAIGHT_SHOT_MAX_NUM: usize = 16;

/// Slightly slanting shots allowed on screen.
pub const LIGHT_SLANTING_SHOT_MAX_NUM: usize = 10;

/// Slanting shots allowed on screen.
pub const SLANTING_SHOT_MAX_NUM: usize = 8;

impl ShotKind {
    /// The sprite name of the shot.
    pub fn sprite_name(&self) -> (name: &'static str)
        ensures
            name@ == (match *self {
                ShotKind::Straight => "StraightBullet"@,
                ShotKind::LittleSlanting => "LittleSlantingBullet"@,
                ShotKind::Slanting => "SlantingBullet"@,
            }),
    {
        match self {
            ShotKind::Straight => "StraightBullet",
            ShotKind::LittleSlanting => "LittleSlantingBullet",
            ShotKind::Slanting => "SlantingBullet",
        }
    }

    /// The marker a fired shot gets: the marker is chosen by sprite name, and
    /// the slanting shot's name matches none of the marked names, so it gets
    /// none.
    pub fn marker(&self) -> (m: Option<ShotMarker>)
        ensures
            m == (match *self {
                ShotKind::Straight => Some(ShotMarker::Straight),
                ShotKind::LittleSlanting => Some(ShotMarker::LittleSlanting),
                ShotKind::Slanting => None::<ShotMarker>,
            }),
    {
        match self {
            ShotKind::Straight => Some(ShotMarker::Straight),
            ShotKind::LittleSlanting => Some(ShotMarker::LittleSlanting),
            ShotKind::Slanting => None,
        }
    }

    /// Whether a new pair is fired, given how many marked shots of the
    /// counted kind are on screen: straight shots while fewer than 16, the
    /// other two while at most 10 and 8 (both counted by the slightly
    /// slanting marker, since the slanting shots carry none).
    pub fn capacity_allows(&self, on_screen: usize) -> (fire: bool)
        ensures
            fire == (match *self {
                ShotKind::Straight => on_screen < STRAIGHT_SHOT_MAX_NUM,
                ShotKind::LittleSlanting => on_screen <= LIGHT_SLANTING_SHOT_MAX_NUM,
                ShotKind::Slanting => on_screen <= SLANTING_SHOT_MAX_NUM,
            }),
    {
        match self {
            ShotKind::Straight => on_screen < STRAIGHT_SHOT_MAX_NUM,
            ShotKind::LittleSlanting => on_screen <= LIGHT_SLANTING_SHOT_MAX_NUM,
            ShotKind::Slanting => on_screen <= SLANTING_SHOT_MAX_NUM,
        }
    }
}

/// The direction the arrow keys ask for: each axis -1, 0 or 1.
#[derive(Clone, Copy, Debug, PartialEq, Eq, Structural)]
pub struct MoveInput {
    pub x: i32,
    pub y: i32,
}

impl MoveInput {
    /// Whether no movement is asked for (opposite keys cancel out).
    pub fn is_idle(&self) -> (idle: bool)
        ensures
            idle == (self.x == 0 && self.y == 0),
    {
        self.x == 0 && self.y == 0
    }
}

/// The arrow keys held: up and right count positive, down and left negative.
pub fn move_input(down: bool, up: bool, left: bool, right: bool) -> (m: MoveInput)
    ensures
        m.x == (if right { 1int } else { 0int }) - (if left { 1int } else { 0int }),
        m.y == (if up { 1int } else { 0int }) - (if down { 1int } else { 0int }),
{
    let mut x: i32 = 0;
    let mut y: i32 = 0;
    if down {
        y = y - 1;
    }
    if up {
        y = y + 1;
    }
    if left {
        x = x - 1;
    }
    if right {
        x = x + 1;
    }
    MoveInput { x, y }
}

/// Whether invulnerability rules a contact out: it does where the check
/// honours it and either side is invulnerable.
pub fn hit_excluded_by_invisibility(available_invisible: bool, lhs_invisible: bool, rhs_invisible: bool) -> (excluded: bool)
    ensures
        excluded == (available_invisible && (lhs_invisible || rhs_invisible)),
{
    available_invisible && (lhs_invisible || rhs_invisible)
}

} // verus!
