use vstd::prelude::*;

use crate::error::Error;

verus! {

/// The mode a match was played under, reconstructed from one packed value.
///
/// The top four bits of the packed value select the interpretation; the two
/// 14-bit fields below them carry the counts.
#[derive(Debug, Clone, Copy, PartialEq, Eq, Structural)]
pub enum GameMode {
    /// A single known preset, identified by a small integer.
    Known(u16),
    /// Complete any `m` of the `n` selected missions.
    Any(u16, u16),
}

/// The mode a packed value stands for, or nothing when the tag bits match
/// neither known interpretation.
pub open spec fn spec_game_mode(raw: u32) -> Option<GameMode> {
    if raw >> 28 == 0 {
        Some(GameMode::Known((raw & 0x3fff) as u16))
    } else if raw >> 28 == 2 {
        Some(GameMode::Any(((raw >> 14) & 0x3fff) as u16, (raw & 0x3fff) as u16))
    } else {
        None
    }
}

impl GameMode {
    /// Decode the packed game-mode value. Fails exactly when the tag bits
    /// select no known interpretation.
    pub fn from_packed(raw: u32) -> (r: Result<GameMode, Error>)
        ensures
            match r {
                Ok(m) => spec_game_mode(raw) == Some(m),
                Err(e) => {
                    &&& spec_game_mode(raw) is None
                    &&& e matches Error::UnknownGameMode(v) && v == raw
                },
            },
    {
        let tag = raw >> 28;
        if tag == 0 {
            Ok(GameMode::Known((raw & 0x3fff) as u16))
        } else if tag == 2 {
            Ok(GameMode::Any(((raw >> 14) & 0x3fff) as u16, (raw & 0x3fff) as u16))
        } else {
            Err(Error::UnknownGameMode(raw))
        }
    }
}

impl Default for GameMode {
    fn default() -> (r: GameMode)
        ensures
            r == GameMode::Known(0),
    {
        GameMode::Known(0)
    }
}

} // verus!
