use vstd::prelude::*;

verus! {

/// How a match ended.
///
/// The known set of outcome codes is stable; a code outside it is preserved
/// in the `Unknown` variant rather than failing the decode. A replay saved
/// mid-match carries `InProgress`.
#[derive(Debug, Clone, Copy, PartialEq, Eq, Structural)]
pub enum GameResult {
    MissionsWin,
    SpyTimeout,
    SpyShot,
    CivilianShot,
    InProgress,
    Unknown(u8),
}

/// The outcome a raw code stands for.
pub open spec fn spec_game_result(code: u8) -> GameResult {
    if code == 0 {
        GameResult::MissionsWin
    } else if code == 1 {
        GameResult::SpyTimeout
    } else if code == 2 {
        GameResult::SpyShot
    } else if code == 3 {
        GameResult::CivilianShot
    } else if code == 4 {
        GameResult::InProgress
    } else {
        GameResult::Unknown(code)
    }
}

impl GameResult {
    /// Classify a raw outcome code. Total: an unrecognized code becomes
    /// `Unknown`, never a failure.
    pub fn from_code(code: u8) -> (r: GameResult)
        ensures
            r == spec_game_result(code),
    {
        match code {
            0 => GameResult::MissionsWin,
            1 => GameResult::SpyTimeout,
            2 => GameResult::SpyShot,
            3 => GameResult::CivilianShot,
            4 => GameResult::InProgress,
            _ => GameResult::Unknown(code),
        }
    }
}

impl Default for GameResult {
    /// A match with no recorded outcome yet is in progress.
    fn default() -> (r: GameResult)
        ensures
            r == GameResult::InProgress,
    {
        GameResult::InProgress
    }
}

} // verus!
