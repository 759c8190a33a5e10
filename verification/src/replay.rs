pub mod header;

use vstd::prelude::*;

use crate::error::Error;
use crate::game_result::GameResult;
use crate::utils::ByteReader;
use crate::utils::spec_eq_ignore_case;
use crate::utils::string_eq_ignore_case;

pub use header::Header;
pub use header::ResultData;

verus! {

/// A SpyParty replay: the decoded header, and a few queries over it, such as
/// checking whether a replay involves a particular player.
pub struct Replay {
    /// The header of the replay. This carries all the information describing
    /// the game.
    pub header: Header,
}

impl Default for Replay {
    /// A replay whose header holds no decoded data yet.
    fn default() -> (r: Replay)
        ensures
            r.header@.result_data == header::spec_default_result_data(),
            r.header@.spy_user_name == Seq::<char>::empty(),
            r.header@.sniper_user_name == Seq::<char>::empty(),
            r.header@.spy_display_name is None,
            r.header@.sniper_display_name is None,
    {
        Replay { header: Header::default() }
    }
}

impl Replay {
    /// Decode a replay from a byte source. One call consumes the header
    /// start to finish and returns a fully populated value or a failure;
    /// there is no partial result.
    pub fn from_reader(reader: &mut ByteReader) -> (r: Result<Replay, Error>)
        requires
            old(reader).wf(),
        ensures
            final(reader).wf(),
            match r {
                Ok(replay) => match header::spec_parse_header(old(reader).remaining()) {
                    Ok(p) => replay.header@ == p.0 && final(reader).remaining() == p.1,
                    Err(_) => false,
                },
                Err(e) => match header::spec_parse_header(old(reader).remaining()) {
                    Ok(_) => false,
                    Err(e2) => e == e2,
                },
            },
    {
        let header = match Header::from_reader(reader) {
            Ok(h) => h,
            Err(e) => {
                return Err(e);
            },
        };
        Ok(Replay { header })
    }

    /// The name the spy goes by: the display name when one is present, the
    /// account name otherwise.
    pub open spec fn spec_spy_name(self) -> Seq<char> {
        match self.header@.spy_display_name {
            Some(n) => n,
            None => self.header@.spy_user_name,
        }
    }

    /// The name the sniper goes by: the display name when one is present,
    /// the account name otherwise.
    pub open spec fn spec_sniper_name(self) -> Seq<char> {
        match self.header@.sniper_display_name {
            Some(n) => n,
            None => self.header@.sniper_user_name,
        }
    }

    /// The name the spy goes by, preferring the display name.
    pub fn spy_name(&self) -> (r: &String)
        ensures
            r@ == self.spec_spy_name(),
    {
        if let Some(name) = &self.header.spy_display_name {
            name
        } else {
            &self.header.spy_user_name
        }
    }

    /// The name the sniper goes by, preferring the display name.
    pub fn sniper_name(&self) -> (r: &String)
        ensures
            r@ == self.spec_sniper_name(),
    {
        if let Some(name) = &self.header.sniper_display_name {
            name
        } else {
            &self.header.sniper_user_name
        }
    }

    /// Whether the spy of this replay goes by the given name: the account
    /// name or, when present, the display name matches up to case.
    pub open spec fn spec_has_spy(self, name: Seq<char>) -> bool {
        ||| spec_eq_ignore_case(self.header@.spy_user_name, name)
        ||| (self.header@.spy_display_name matches Some(d) && spec_eq_ignore_case(d, name))
    }

    /// Whether the sniper of this replay goes by the given name.
    pub open spec fn spec_has_sniper(self, name: Seq<char>) -> bool {
        ||| spec_eq_ignore_case(self.header@.sniper_user_name, name)
        ||| (self.header@.sniper_display_name matches Some(d) && spec_eq_ignore_case(d, name))
    }

    /// Checks if the replay contains a particular player, on either side.
    pub fn has_player(&self, name: &str) -> (r: bool)
        ensures
            r == (self.spec_has_spy(name@) || self.spec_has_sniper(name@)),
    {
        self.has_spy(name) || self.has_sniper(name)
    }

    /// Checks if the spy in this replay is a particular player.
    pub fn has_spy(&self, name: &str) -> (r: bool)
        ensures
            r == self.spec_has_spy(name@),
    {
        if string_eq_ignore_case(self.header.spy_user_name.as_str(), name) {
            return true;
        }
        if let Some(display_name) = &self.header.spy_display_name {
            return string_eq_ignore_case(display_name.as_str(), name);
        }
        false
    }

    /// Checks if the sniper in this replay is a particular player.
    pub fn has_sniper(&self, name: &str) -> (r: bool)
        ensures
            r == self.spec_has_sniper(name@),
    {
        if string_eq_ignore_case(self.header.sniper_user_name.as_str(), name) {
            return true;
        }
        if let Some(display_name) = &self.header.sniper_display_name {
            return string_eq_ignore_case(display_name.as_str(), name);
        }
        false
    }

    /// The outcomes that count as a spy win.
    pub open spec fn spec_is_spy_win(self) -> bool {
        ||| self.header@.result_data.game_result == GameResult::MissionsWin
        ||| self.header@.result_data.game_result == GameResult::CivilianShot
    }

    /// The outcomes that count as a sniper win.
    pub open spec fn spec_is_sniper_win(self) -> bool {
        ||| self.header@.result_data.game_result == GameResult::SpyShot
        ||| self.header@.result_data.game_result == GameResult::SpyTimeout
    }

    /// Checks if the replay ends in a spy win.
    pub fn is_spy_win(&self) -> (r: bool)
        ensures
            r == self.spec_is_spy_win(),
    {
        self.header.result_data.game_result == GameResult::MissionsWin
            || self.header.result_data.game_result == GameResult::CivilianShot
    }

    /// Checks if the replay ends in a sniper win.
    pub fn is_sniper_win(&self) -> (r: bool)
        ensures
            r == self.spec_is_sniper_win(),
    {
        self.header.result_data.game_result == GameResult::SpyShot
            || self.header.result_data.game_result == GameResult::SpyTimeout
    }

    /// Checks if the replay ends with a win for a particular player.
    pub fn is_win_for(&self, name: &str) -> (r: bool)
        ensures
            r == (self.spec_has_spy(name@) && self.spec_is_spy_win() || self.spec_has_sniper(
                name@,
            ) && self.spec_is_sniper_win()),
    {
        self.has_spy(name) && self.is_spy_win() || self.has_sniper(name) && self.is_sniper_win()
    }

    /// Checks if the replay ends with a loss for a particular player.
    ///
    /// This is not simply the inverse of `is_win_for`, because a replay can
    /// be in an unfinished state.
    pub fn is_loss_for(&self, name: &str) -> (r: bool)
        ensures
            r == (self.spec_has_spy(name@) && self.spec_is_sniper_win() || self.spec_has_sniper(
                name@,
            ) && self.spec_is_spy_win()),
    {
        self.has_spy(name) && self.is_sniper_win() || self.has_sniper(name) && self.is_spy_win()
    }
}

} // verus!
