use vstd::prelude::*;
use vstd::string::StrSliceExecFns;

use crate::error::Error;

verus! {

/// The maps of SpyParty.
///
/// The raw 32-bit codes are content hashes, not sequential identifiers, and
/// the table grows with the game's own content updates: a code outside the
/// table is preserved in the `Unknown` variant, never an error. Some map
/// revisions legitimately give two distinct raw codes the same logical map.
#[derive(Debug, Clone, Copy, PartialEq, Eq, Structural)]
pub enum GameMap {
    Aquarium,
    Balcony,
    Ballroom,
    Courtyard,
    DoubleModern,
    Gallery,
    HighRise,
    Library,
    Modern,
    Moderne,
    OldBalcony,
    OldBallroom,
    OldCourtyard1,
    OldCourtyard2,
    OldGallery,
    OldVeranda,
    Panopticon,
    Pub,
    Teien,
    Terrace,
    Veranda,
    Unknown(u32),
}

/// The map a raw 32-bit code stands for.
pub open spec fn spec_map_from_code(code: u32) -> GameMap {
    if code == 0x98e4_5d99 {
        GameMap::Aquarium
    } else if code == 0x1dbd_8e41 {
        GameMap::Balcony
    } else if code == 0x5b12_1925 {
        GameMap::Ballroom
    } else if code == 0x9dc5_bb5e {
        GameMap::Courtyard
    } else if code == 0x7076_e38f {
        GameMap::DoubleModern
    } else if code == 0x7173_b8bf {
        GameMap::Gallery
    } else if code == 0x1a56_c5a1 || code == 0x3a30_c326 {
        GameMap::HighRise
    } else if code == 0x168f_4f62 {
        GameMap::Library
    } else if code == 0xf3e6_1461 {
        GameMap::Modern
    } else if code == 0x2e37_f15b {
        GameMap::Moderne
    } else if code == 0xb889_1fbc {
        GameMap::OldBalcony
    } else if code == 0x09c2_e7b0 {
        GameMap::OldBallroom
    } else if code == 0xb4cf_686b {
        GameMap::OldCourtyard1
    } else if code == 0x290a_0c75 {
        GameMap::OldCourtyard2
    } else if code == 0x28b3_aa5e {
        GameMap::OldGallery
    } else if code == 0xa8be_a091 {
        GameMap::OldVeranda
    } else if code == 0x3695_f583 {
        GameMap::Panopticon
    } else if code == 0x3b85_fff3 {
        GameMap::Pub
    } else if code == 0x79df_a0cf {
        GameMap::Teien
    } else if code == 0x9032_ce22 {
        GameMap::Terrace
    } else if code == 0x6f81_a558 {
        GameMap::Veranda
    } else {
        GameMap::Unknown(code)
    }
}

/// The raw codes the classifier knows.
pub open spec fn is_known_map_code(code: u32) -> bool {
    ||| code == 0x98e4_5d99
    ||| code == 0x1dbd_8e41
    ||| code == 0x5b12_1925
    ||| code == 0x9dc5_bb5e
    ||| code == 0x7076_e38f
    ||| code == 0x7173_b8bf
    ||| code == 0x1a56_c5a1
    ||| code == 0x3a30_c326
    ||| code == 0x168f_4f62
    ||| code == 0xf3e6_1461
    ||| code == 0x2e37_f15b
    ||| code == 0xb889_1fbc
    ||| code == 0x09c2_e7b0
    ||| code == 0xb4cf_686b
    ||| code == 0x290a_0c75
    ||| code == 0x28b3_aa5e
    ||| code == 0xa8be_a091
    ||| code == 0x3695_f583
    ||| code == 0x3b85_fff3
    ||| code == 0x79df_a0cf
    ||| code == 0x9032_ce22
    ||| code == 0x6f81_a558
}

/// A code outside the table always classifies to `Unknown` carrying that very
/// code; the classifier never fails.
pub proof fn lemma_unknown_map_code(code: u32)
    requires
        !is_known_map_code(code),
    ensures
        spec_map_from_code(code) == GameMap::Unknown(code),
{
}

impl From<u32> for GameMap {
    /// Classify a raw map code; total, with `Unknown` as the fallback.
    fn from(map: u32) -> (r: GameMap) {
        match map {
            0x98e4_5d99 => GameMap::Aquarium,
            0x1dbd_8e41 => GameMap::Balcony,
            0x5b12_1925 => GameMap::Ballroom,
            0x9dc5_bb5e => GameMap::Courtyard,
            0x7076_e38f => GameMap::DoubleModern,
            0x7173_b8bf => GameMap::Gallery,
            0x1a56_c5a1 | 0x3a30_c326 => GameMap::HighRise,
            0x168f_4f62 => GameMap::Library,
            0xf3e6_1461 => GameMap::Modern,
            0x2e37_f15b => GameMap::Moderne,
            0xb889_1fbc => GameMap::OldBalcony,
            0x09c2_e7b0 => GameMap::OldBallroom,
            0xb4cf_686b => GameMap::OldCourtyard1,
            0x290a_0c75 => GameMap::OldCourtyard2,
            0x28b3_aa5e => GameMap::OldGallery,
            0xa8be_a091 => GameMap::OldVeranda,
            0x3695_f583 => GameMap::Panopticon,
            0x3b85_fff3 => GameMap::Pub,
            0x79df_a0cf => GameMap::Teien,
            0x9032_ce22 => GameMap::Terrace,
            0x6f81_a558 => GameMap::Veranda,
            _ => GameMap::Unknown(map),
        }
    }
}

impl vstd::std_specs::convert::FromSpecImpl<u32> for GameMap {
    open spec fn obeys_from_spec() -> bool {
        true
    }

    open spec fn from_spec(map: u32) -> GameMap {
        spec_map_from_code(map)
    }
}

impl Default for GameMap {
    fn default() -> (r: GameMap)
        ensures
            r == GameMap::Unknown(0),
    {
        GameMap::Unknown(0)
    }
}

/// A character with an ASCII upper-case letter folded to lower case; anything
/// else passes through.
pub open spec fn spec_ascii_lower(c: char) -> char {
    if 65 <= c as u32 && c as u32 <= 90 {
        (((c as u32) + 32) as u8) as char
    } else {
        c
    }
}

/// The name with spaces dropped and ASCII letters folded to lower case.
pub open spec fn spec_normalize(s: Seq<char>) -> Seq<char>
    decreases s.len(),
{
    if s.len() == 0 {
        Seq::empty()
    } else {
        let rest = spec_normalize(s.drop_last());
        if s.last() == ' ' {
            rest
        } else {
            rest.push(spec_ascii_lower(s.last()))
        }
    }
}

/// The map a textual name stands for, compared case-insensitively and
/// ignoring spaces, or nothing for an unrecognized name.
pub open spec fn spec_map_from_name(s: Seq<char>) -> Option<GameMap> {
    let n = spec_normalize(s);
    if n == "aquarium"@ {
        Some(GameMap::Aquarium)
    } else if n == "balcony"@ {
        Some(GameMap::Balcony)
    } else if n == "ballroom"@ {
        Some(GameMap::Ballroom)
    } else if n == "courtyard"@ {
        Some(GameMap::Courtyard)
    } else if n == "doublemodern"@ {
        Some(GameMap::DoubleModern)
    } else if n == "gallery"@ {
        Some(GameMap::Gallery)
    } else if n == "highrise"@ || n == "high-rise"@ {
        Some(GameMap::HighRise)
    } else if n == "library"@ {
        Some(GameMap::Library)
    } else if n == "modern"@ {
        Some(GameMap::Modern)
    } else if n == "moderne"@ {
        Some(GameMap::Moderne)
    } else if n == "oldbalcony"@ {
        Some(GameMap::OldBalcony)
    } else if n == "oldballroom"@ {
        Some(GameMap::OldBallroom)
    } else if n == "oldcourtyard1"@ || n == "cy1"@ {
        Some(GameMap::OldCourtyard1)
    } else if n == "oldcourtyard2"@ || n == "cy2"@ {
        Some(GameMap::OldCourtyard2)
    } else if n == "oldgallery"@ {
        Some(GameMap::OldGallery)
    } else if n == "oldveranda"@ {
        Some(GameMap::OldVeranda)
    } else if n == "panopticon"@ || n == "panop"@ {
        Some(GameMap::Panopticon)
    } else if n == "pub"@ {
        Some(GameMap::Pub)
    } else if n == "teien"@ {
        Some(GameMap::Teien)
    } else if n == "terrace"@ {
        Some(GameMap::Terrace)
    } else if n == "veranda"@ {
        Some(GameMap::Veranda)
    } else {
        None
    }
}

/// Fold a map name to its canonical form: ASCII letters to lower case,
/// spaces dropped.
fn normalize(s: &str) -> (r: Vec<char>)
    ensures
        r@ == spec_normalize(s@),
{
    let n = s.unicode_len();
    let mut v: Vec<char> = Vec::new();
    let mut i: usize = 0;
    proof {
        assert(s@.take(0) =~= Seq::<char>::empty());
    }
    while i < n
        invariant
            i <= n,
            n == s@.len(),
            v@ == spec_normalize(s@.take(i as int)),
        decreases n - i,
    {
        let c = s.get_char(i);
        let u = c as u32;
        if u != 32 {
            let lc: char = if 65 <= u && u <= 90 {
                ((u + 32) as u8) as char
            } else {
                c
            };
            v.push(lc);
        }
        proof {
            assert(s@.take(i + 1).drop_last() =~= s@.take(i as int));
            assert(s@.take(i + 1).last() == s@[i as int]);
            assert((c == ' ') == (u == 32));
        }
        i += 1;
    }
    proof {
        assert(s@.take(n as int) =~= s@);
    }
    v
}

/// Whether a character vector spells exactly the given string.
fn chars_eq(v: &Vec<char>, s: &str) -> (r: bool)
    ensures
        r == (v@ == s@),
{
    let n = s.unicode_len();
    if v.len() != n {
        proof {
            if v@ == s@ {
                assert(v@.len() == s@.len());
            }
        }
        return false;
    }
    let mut i: usize = 0;
    while i < n
        invariant
            i <= n,
            n == s@.len(),
            v@.len() == n,
            forall|j: int| 0 <= j < i ==> v@[j] == s@[j],
        decreases n - i,
    {
        if v[i] != s.get_char(i) {
            proof {
                assert(v@[i as int] != s@[i as int]);
            }
            return false;
        }
        i += 1;
    }
    proof {
        assert(v@ =~= s@);
    }
    true
}

impl GameMap {
    /// Parse a map from its textual name, case-insensitively and ignoring
    /// spaces. Fails exactly on unrecognized names, carrying the offending
    /// name; it never guesses.
    pub fn try_from(string: &str) -> (r: Result<GameMap, Error>)
        ensures
            match r {
                Ok(m) => spec_map_from_name(string@) == Some(m),
                Err(e) => {
                    &&& spec_map_from_name(string@) is None
                    &&& e matches Error::UnknownMap(s) && s@ == string@
                },
            },
    {
        let stripped = normalize(string);
        if chars_eq(&stripped, "aquarium") {
            Ok(GameMap::Aquarium)
        } else if chars_eq(&stripped, "balcony") {
            Ok(GameMap::Balcony)
        } else if chars_eq(&stripped, "ballroom") {
            Ok(GameMap::Ballroom)
        } else if chars_eq(&stripped, "courtyard") {
            Ok(GameMap::Courtyard)
        } else if chars_eq(&stripped, "doublemodern") {
            Ok(GameMap::DoubleModern)
        } else if chars_eq(&stripped, "gallery") {
            Ok(GameMap::Gallery)
        } else if chars_eq(&stripped, "highrise") || chars_eq(&stripped, "high-rise") {
            Ok(GameMap::HighRise)
        } else if chars_eq(&stripped, "library") {
            Ok(GameMap::Library)
        } else if chars_eq(&stripped, "modern") {
            Ok(GameMap::Modern)
        } else if chars_eq(&stripped, "moderne") {
            Ok(GameMap::Moderne)
        } else if chars_eq(&stripped, "oldbalcony") {
            Ok(GameMap::OldBalcony)
        } else if chars_eq(&stripped, "oldballroom") {
            Ok(GameMap::OldBallroom)
        } else if chars_eq(&stripped, "oldcourtyard1") || chars_eq(&stripped, "cy1") {
            Ok(GameMap::OldCourtyard1)
        } else if chars_eq(&stripped, "oldcourtyard2") || chars_eq(&stripped, "cy2") {
            Ok(GameMap::OldCourtyard2)
        } else if chars_eq(&stripped, "oldgallery") {
            Ok(GameMap::OldGallery)
        } else if chars_eq(&stripped, "oldveranda") {
            Ok(GameMap::OldVeranda)
        } else if chars_eq(&stripped, "panopticon") || chars_eq(&stripped, "panop") {
            Ok(GameMap::Panopticon)
        } else if chars_eq(&stripped, "pub") {
            Ok(GameMap::Pub)
        } else if chars_eq(&stripped, "teien") {
            Ok(GameMap::Teien)
        } else if chars_eq(&stripped, "terrace") {
            Ok(GameMap::Terrace)
        } else if chars_eq(&stripped, "veranda") {
            Ok(GameMap::Veranda)
        } else {
            Err(Error::UnknownMap(string.to_owned()))
        }
    }

    /// The display name of the map.
    pub open spec fn spec_name(self) -> Seq<char> {
        match self {
            GameMap::Aquarium => "Aquarium"@,
            GameMap::Balcony => "Balcony"@,
            GameMap::Ballroom => "Ballroom"@,
            GameMap::Courtyard => "Courtyard"@,
            GameMap::DoubleModern => "Double Modern"@,
            GameMap::Gallery => "Gallery"@,
            GameMap::HighRise => "High-Rise"@,
            GameMap::Library => "Library"@,
            GameMap::Modern => "Modern"@,
            GameMap::Moderne => "Moderne"@,
            GameMap::OldBalcony => "Old Balcony"@,
            GameMap::OldBallroom => "Old Ballroom"@,
            GameMap::OldCourtyard1 => "Old Courtyard 1"@,
            GameMap::OldCourtyard2 => "Old Courtyard 2"@,
            GameMap::OldGallery => "Old Gallery"@,
            GameMap::OldVeranda => "Old Veranda"@,
            GameMap::Panopticon => "Panopticon"@,
            GameMap::Pub => "Pub"@,
            GameMap::Teien => "Teien"@,
            GameMap::Terrace => "Terrace"@,
            GameMap::Veranda => "Veranda"@,
            GameMap::Unknown(_) => "Unknown"@,
        }
    }

    /// The display name of the map.
    pub fn name(&self) -> (r: &'static str)
        ensures
            r@ == self.spec_name(),
    {
        match self {
            GameMap::Aquarium => "Aquarium",
            GameMap::Balcony => "Balcony",
            GameMap::Ballroom => "Ballroom",
            GameMap::Courtyard => "Courtyard",
            GameMap::DoubleModern => "Double Modern",
            GameMap::Gallery => "Gallery",
            GameMap::HighRise => "High-Rise",
            GameMap::Library => "Library",
            GameMap::Modern => "Modern",
            GameMap::Moderne => "Moderne",
            GameMap::OldBalcony => "Old Balcony",
            GameMap::OldBallroom => "Old Ballroom",
            GameMap::OldCourtyard1 => "Old Courtyard 1",
            GameMap::OldCourtyard2 => "Old Courtyard 2",
            GameMap::OldGallery => "Old Gallery",
            GameMap::OldVeranda => "Old Veranda",
            GameMap::Panopticon => "Panopticon",
            GameMap::Pub => "Pub",
            GameMap::Teien => "Teien",
            GameMap::Terrace => "Terrace",
            GameMap::Veranda => "Veranda",
            GameMap::Unknown(_) => "Unknown",
        }
    }
}

} // verus!
