use vstd::prelude::*;

verus! {

/// The number of levels of the game.
pub const LEVEL_COUNT: u32 = 4;

/// The index of the level that is played, from zero.
#[derive(Clone, Copy, PartialEq, Eq, Hash, Debug, Structural)]
pub struct CurrentLevel(pub u32);

/// The states of a run through the levels.
#[derive(Clone, Copy, PartialEq, Eq, Hash, Debug, Structural)]
pub enum LevelScreens {
    /// No level is loaded.
    NoLevel,
    /// The player died: the level is torn down and built anew.
    Restart,
    /// A level is played.
    Level,
    /// Every finish of the level was collected.
    Intermission,
    /// The last level was completed.
    GameEnd,
}

/// Entering gameplay, and a restart, both lead into the level.
pub fn level() -> (next: LevelScreens)
    ensures
        next == LevelScreens::Level,
{
    LevelScreens::Level
}

/// Leaves the intermission: moves on to the next level, or to the end of
/// the game after the last one.
pub fn next_level(current: &mut CurrentLevel) -> (next: LevelScreens)
    requires
        old(current).0 < u32::MAX,
    ensures
        final(current).0 == old(current).0 + 1,
        next == if final(current).0 < LEVEL_COUNT {
            LevelScreens::Level
        } else {
            LevelScreens::GameEnd
        },
{
    current.0 = current.0 + 1;
    if current.0 < LEVEL_COUNT {
        LevelScreens::Level
    } else {
        LevelScreens::GameEnd
    }
}

} // verus!
