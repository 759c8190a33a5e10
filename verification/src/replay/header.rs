use vstd::prelude::*;

use crate::error::Error;
use crate::game_mode::GameMode;
use crate::game_mode::spec_game_mode;
use crate::game_result::GameResult;
use crate::game_result::spec_game_result;
use crate::map::GameMap;
use crate::map::spec_map_from_code;
use crate::mission::Mission;
use crate::mission::missions_from_mask;
use crate::mission::spec_missions;
use crate::utils::ByteReader;
use crate::utils::lemma_le1;
use crate::utils::lemma_skip_take;
use crate::utils::lossy_text;
use crate::utils::read_string;
use crate::utils::read_u128;
use crate::utils::read_u16;
use crate::utils::read_u32;
use crate::utils::read_u8;
use crate::utils::spec_le;

verus! {

/// The outcome metadata embedded in a header, gated by its own version
/// counter, independent of the outer header version.
pub struct ResultData {
    /// The result-block version; supported values are 0 through 3.
    pub version: u8,
    /// Whether the match was played under the simple ruleset; recorded only
    /// from result-block version 1 on.
    pub simple_rules: Option<bool>,
    /// How the match ended.
    pub game_result: GameResult,
    /// The mode the match was played under.
    pub game_mode: GameMode,
    /// The map the match was played on.
    pub map: GameMap,
    /// The raw map-variant code.
    pub map_variant: u32,
    /// The missions the spy selected, in ascending bit order.
    pub selected_missions: Vec<Mission>,
    /// The missions picked for the match, in ascending bit order.
    pub picked_missions: Vec<Mission>,
    /// The missions the spy completed, in ascending bit order.
    pub completed_missions: Vec<Mission>,
    /// The number of guests; recorded only from result-block version 2 on.
    pub guests: Option<u8>,
    /// The starting clock value in seconds; recorded only from result-block
    /// version 2 on.
    pub clock_start: Option<u32>,
}

/// The mathematical value of a decoded result block.
pub struct ResultDataView {
    pub version: u8,
    pub simple_rules: Option<bool>,
    pub game_result: GameResult,
    pub game_mode: GameMode,
    pub map: GameMap,
    pub map_variant: u32,
    pub selected_missions: Seq<Mission>,
    pub picked_missions: Seq<Mission>,
    pub completed_missions: Seq<Mission>,
    pub guests: Option<u8>,
    pub clock_start: Option<u32>,
}

impl View for ResultData {
    type V = ResultDataView;

    open spec fn view(&self) -> ResultDataView {
        ResultDataView {
            version: self.version,
            simple_rules: self.simple_rules,
            game_result: self.game_result,
            game_mode: self.game_mode,
            map: self.map,
            map_variant: self.map_variant,
            selected_missions: self.selected_missions@,
            picked_missions: self.picked_missions@,
            completed_missions: self.completed_missions@,
            guests: self.guests,
            clock_start: self.clock_start,
        }
    }
}

/// The result block a byte sequence decodes to, with the bytes that follow
/// it, or the failure. Field presence is purely additive across versions: a
/// field present at version `k` is present at every later supported version.
pub open spec fn spec_parse_result_data(s: Seq<u8>) -> Result<(ResultDataView, Seq<u8>), Error> {
    if s.len() < 1 {
        Err(Error::Truncated)
    } else {
        let version = s[0];
        if version > 3 {
            Err(Error::UnsupportedResultVersion(version))
        } else {
            let sw: int = if version >= 1 {
                1
            } else {
                0
            };
            let tail: int = if version >= 2 {
                5
            } else {
                0
            };
            let o_result = 1 + sw;
            let o_mode = 2 + sw;
            let o_map = 6 + sw;
            let total = 26 + sw + tail;
            if s.len() < o_map {
                Err(Error::Truncated)
            } else {
                let mode_raw = spec_le(s.subrange(o_mode, o_map)) as u32;
                match spec_game_mode(mode_raw) {
                    None => Err(Error::UnknownGameMode(mode_raw)),
                    Some(mode) => if s.len() < total {
                        Err(Error::Truncated)
                    } else {
                        Ok(
                            (
                                ResultDataView {
                                    version: version,
                                    simple_rules: if version >= 1 {
                                        Some(s[1] != 0)
                                    } else {
                                        None
                                    },
                                    game_result: spec_game_result(s[o_result]),
                                    game_mode: mode,
                                    map: spec_map_from_code(
                                        spec_le(s.subrange(o_map, o_map + 4)) as u32,
                                    ),
                                    map_variant: spec_le(s.subrange(o_map + 4, o_map + 8)) as u32,
                                    selected_missions: spec_missions(
                                        spec_le(s.subrange(o_map + 8, o_map + 12)) as u32,
                                    ),
                                    picked_missions: spec_missions(
                                        spec_le(s.subrange(o_map + 12, o_map + 16)) as u32,
                                    ),
                                    completed_missions: spec_missions(
                                        spec_le(s.subrange(o_map + 16, o_map + 20)) as u32,
                                    ),
                                    guests: if version >= 2 {
                                        Some(s[o_map + 20])
                                    } else {
                                        None
                                    },
                                    clock_start: if version >= 2 {
                                        Some(spec_le(s.subrange(o_map + 21, o_map + 25)) as u32)
                                    } else {
                                        None
                                    },
                                },
                                s.skip(total),
                            ),
                        )
                    },
                }
            }
        }
    }
}

impl ResultData {
    /// Decode a result block from the byte source. On success the source
    /// stands right after the block; on failure the whole decode is
    /// abandoned.
    pub fn from_reader(reader: &mut ByteReader) -> (r: Result<ResultData, Error>)
        requires
            old(reader).wf(),
        ensures
            final(reader).wf(),
            match r {
                Ok(d) => match spec_parse_result_data(old(reader).remaining()) {
                    Ok(p) => d@ == p.0 && final(reader).remaining() == p.1,
                    Err(_) => false,
                },
                Err(e) => match spec_parse_result_data(old(reader).remaining()) {
                    Ok(_) => false,
                    Err(e2) => e == e2,
                },
            },
    {
        let ghost s = old(reader).remaining();
        let version = match read_u8(reader) {
            Ok(v) => v,
            Err(e) => {
                return Err(e);
            },
        };
        if version > 3 {
            return Err(Error::UnsupportedResultVersion(version));
        }
        let ghost sw: int = if version >= 1 {
            1
        } else {
            0
        };
        let simple_rules: Option<bool> = if version >= 1 {
            match read_u8(reader) {
                Ok(v) => Some(v != 0),
                Err(e) => {
                    return Err(e);
                },
            }
        } else {
            None
        };
        proof {
            assert(reader.remaining() == s.skip(1 + sw));
        }
        let result_code = match read_u8(reader) {
            Ok(v) => v,
            Err(e) => {
                return Err(e);
            },
        };
        let game_result = GameResult::from_code(result_code);
        proof {
            assert(s.skip(1 + sw).skip(1) =~= s.skip(2 + sw));
            assert(result_code == s[1 + sw]);
        }
        let mode_raw = match read_u32(reader) {
            Ok(v) => v,
            Err(e) => {
                return Err(e);
            },
        };
        proof {
            lemma_skip_take(s, 2 + sw, 4);
            assert(mode_raw as nat == spec_le(s.subrange(2 + sw, 6 + sw)));
        }
        let game_mode = match GameMode::from_packed(mode_raw) {
            Ok(m) => m,
            Err(e) => {
                return Err(e);
            },
        };
        let map_code = match read_u32(reader) {
            Ok(v) => v,
            Err(e) => {
                return Err(e);
            },
        };
        let map = GameMap::from(map_code);
        proof {
            lemma_skip_take(s, 6 + sw, 4);
            assert(map_code as nat == spec_le(s.subrange(6 + sw, 10 + sw)));
        }
        let map_variant = match read_u32(reader) {
            Ok(v) => v,
            Err(e) => {
                return Err(e);
            },
        };
        proof {
            lemma_skip_take(s, 10 + sw, 4);
        }
        let selected_mask = match read_u32(reader) {
            Ok(v) => v,
            Err(e) => {
                return Err(e);
            },
        };
        proof {
            lemma_skip_take(s, 14 + sw, 4);
        }
        let picked_mask = match read_u32(reader) {
            Ok(v) => v,
            Err(e) => {
                return Err(e);
            },
        };
        proof {
            lemma_skip_take(s, 18 + sw, 4);
        }
        let completed_mask = match read_u32(reader) {
            Ok(v) => v,
            Err(e) => {
                return Err(e);
            },
        };
        proof {
            lemma_skip_take(s, 22 + sw, 4);
        }
        let guests: Option<u8> = if version >= 2 {
            match read_u8(reader) {
                Ok(v) => Some(v),
                Err(e) => {
                    return Err(e);
                },
            }
        } else {
            None
        };
        proof {
            if version >= 2 {
                assert(s.skip(26 + sw).skip(1) =~= s.skip(27 + sw));
            }
        }
        let clock_start: Option<u32> = if version >= 2 {
            match read_u32(reader) {
                Ok(v) => Some(v),
                Err(e) => {
                    return Err(e);
                },
            }
        } else {
            None
        };
        proof {
            if version >= 2 {
                lemma_skip_take(s, 27 + sw, 4);
            }
        }
        let selected_missions = missions_from_mask(selected_mask);
        let picked_missions = missions_from_mask(picked_mask);
        let completed_missions = missions_from_mask(completed_mask);
        let d = ResultData {
            version,
            simple_rules,
            game_result,
            game_mode,
            map,
            map_variant,
            selected_missions,
            picked_missions,
            completed_missions,
            guests,
            clock_start,
        };
        Ok(d)
    }
}

/// The value of an empty result block: the version-0 shape, with no outcome
/// recorded.
pub open spec fn spec_default_result_data() -> ResultDataView {
    ResultDataView {
        version: 0,
        simple_rules: None,
        game_result: GameResult::InProgress,
        game_mode: GameMode::Known(0),
        map: GameMap::Unknown(0),
        map_variant: 0,
        selected_missions: Seq::<Mission>::empty(),
        picked_missions: Seq::<Mission>::empty(),
        completed_missions: Seq::<Mission>::empty(),
        guests: None,
        clock_start: None,
    }
}

impl Default for ResultData {
    /// An empty result block: the version-0 shape, with no outcome recorded.
    fn default() -> (r: ResultData)
        ensures
            r@ == spec_default_result_data(),
    {
        ResultData {
            version: 0,
            simple_rules: None,
            game_result: GameResult::InProgress,
            game_mode: GameMode::Known(0),
            map: GameMap::Unknown(0),
            map_variant: 0,
            selected_missions: Vec::new(),
            picked_missions: Vec::new(),
            completed_missions: Vec::new(),
            guests: None,
            clock_start: None,
        }
    }
}

/// Presence of the version-gated result fields is purely additive: at
/// version 0 the ruleset flag, guest count and clock start are all absent; the
/// ruleset flag is present exactly from version 1 on; guest count and clock
/// start are present exactly from version 2 on. No field that appears at one
/// version disappears at a later supported one.
pub proof fn lemma_result_presence_gating(s: Seq<u8>, d: ResultDataView, rest: Seq<u8>)
    requires
        spec_parse_result_data(s) == Ok::<(ResultDataView, Seq<u8>), Error>((d, rest)),
    ensures
        d.version <= 3,
        (d.simple_rules is Some) == (d.version >= 1),
        (d.guests is Some) == (d.version >= 2),
        (d.clock_start is Some) == (d.version >= 2),
{
}

/// A byte sequence that carries a structurally complete result block: a
/// supported version, every field that version declares, and a packed game
/// mode with a known interpretation.
pub open spec fn wf_result_block(s: Seq<u8>) -> bool {
    &&& s.len() >= 1
    &&& s[0] <= 3
    &&& {
        let sw: int = if s[0] >= 1 {
            1
        } else {
            0
        };
        let tail: int = if s[0] >= 2 {
            5
        } else {
            0
        };
        &&& s.len() >= 26 + sw + tail
        &&& spec_game_mode(spec_le(s.subrange(2 + sw, 6 + sw)) as u32) is Some
    }
}

/// Decoding a result block succeeds exactly on structurally complete input:
/// on such input it never fails, whatever the field values.
pub proof fn lemma_parse_result_total(s: Seq<u8>)
    ensures
        (spec_parse_result_data(s) is Ok) == wf_result_block(s),
{
}

/// The decoded header of a replay: the match metadata that precedes the
/// undocumented event payload. Constructed once per decode and immutable
/// thereafter.
pub struct Header {
    /// The outer format version; supported values are 2 through 6.
    pub replay_version: u16,
    /// The network protocol version the match was played under.
    pub protocol_version: u16,
    /// The build number of the game that wrote the replay.
    pub spyparty_version: u16,
    /// A word of bit flags; their meaning is outside the header's scope.
    pub flags: u32,
    /// The match duration in seconds, kept as raw IEEE 754 single-precision
    /// bits.
    pub duration_bits: u32,
    /// An opaque 128-bit match identifier.
    pub game_id: u128,
    /// The match start time in seconds since the epoch.
    pub start_time: u32,
    /// The play counter within the session.
    pub play_id: u32,
    /// The declared byte length of the spy's account name.
    pub spy_user_len: u16,
    /// The declared byte length of the sniper's account name.
    pub sniper_user_len: u16,
    /// The declared byte length of the spy's display name; zero means absent.
    pub spy_display_len: u16,
    /// The declared byte length of the sniper's display name; zero means
    /// absent.
    pub sniper_display_len: u16,
    /// The latency in seconds, kept as raw IEEE 754 single-precision bits.
    pub latency_bits: u32,
    /// The declared size of the trailing, unparsed payload.
    pub data_size: u32,
    /// The spy's account name; always present, possibly empty.
    pub spy_user_name: String,
    /// The sniper's account name; always present, possibly empty.
    pub sniper_user_name: String,
    /// The spy's display name; absent exactly when its declared length is
    /// zero.
    pub spy_display_name: Option<String>,
    /// The sniper's display name; absent exactly when its declared length is
    /// zero.
    pub sniper_display_name: Option<String>,
    /// The embedded, independently versioned result block.
    pub result_data: ResultData,
}

/// The mathematical value of a decoded header.
pub struct HeaderView {
    pub replay_version: u16,
    pub protocol_version: u16,
    pub spyparty_version: u16,
    pub flags: u32,
    pub duration_bits: u32,
    pub game_id: u128,
    pub start_time: u32,
    pub play_id: u32,
    pub spy_user_len: u16,
    pub sniper_user_len: u16,
    pub spy_display_len: u16,
    pub sniper_display_len: u16,
    pub latency_bits: u32,
    pub data_size: u32,
    pub spy_user_name: Seq<char>,
    pub sniper_user_name: Seq<char>,
    pub spy_display_name: Option<Seq<char>>,
    pub sniper_display_name: Option<Seq<char>>,
    pub result_data: ResultDataView,
}

impl View for Header {
    type V = HeaderView;

    open spec fn view(&self) -> HeaderView {
        HeaderView {
            replay_version: self.replay_version,
            protocol_version: self.protocol_version,
            spyparty_version: self.spyparty_version,
            flags: self.flags,
            duration_bits: self.duration_bits,
            game_id: self.game_id,
            start_time: self.start_time,
            play_id: self.play_id,
            spy_user_len: self.spy_user_len,
            sniper_user_len: self.sniper_user_len,
            spy_display_len: self.spy_display_len,
            sniper_display_len: self.sniper_display_len,
            latency_bits: self.latency_bits,
            data_size: self.data_size,
            spy_user_name: self.spy_user_name@,
            sniper_user_name: self.sniper_user_name@,
            spy_display_name: match self.spy_display_name {
                Some(n) => Some(n@),
                None => None,
            },
            sniper_display_name: match self.sniper_display_name {
                Some(n) => Some(n@),
                None => None,
            },
            result_data: self.result_data@,
        }
    }
}

/// The width in bytes of the protocol-version field under an outer version.
pub open spec fn spec_protocol_width(version: u16) -> int {
    if version <= 3 {
        1
    } else {
        2
    }
}

/// The width in bytes of the flags field under an outer version.
pub open spec fn spec_flags_width(version: u16) -> int {
    if version <= 3 {
        1
    } else {
        4
    }
}

/// The byte offset of the four name-length counters under an outer version.
pub open spec fn spec_lens_offset(version: u16) -> int {
    32 + spec_protocol_width(version) + spec_flags_width(version)
}

/// The byte offset of the first name field under an outer version: the length
/// of the whole fixed preamble.
pub open spec fn spec_names_offset(version: u16) -> int {
    spec_lens_offset(version) + 16
}

/// The header a byte sequence decodes to, with the bytes that follow it, or
/// the failure. The outer version is read first and checked before any other
/// field is interpreted; exactly one field layout, the one of that version,
/// is then applied.
pub open spec fn spec_parse_header(s: Seq<u8>) -> Result<(HeaderView, Seq<u8>), Error> {
    if s.len() < 2 {
        Err(Error::Truncated)
    } else {
        let version = spec_le(s.take(2)) as u16;
        if version < 2 || version > 6 {
            Err(Error::UnsupportedReplayVersion(version))
        } else {
            let pw = spec_protocol_width(version);
            let fw = spec_flags_width(version);
            let o_build = 2 + pw;
            let o_flags = 4 + pw;
            let o_duration = o_flags + fw;
            let o_gameid = o_duration + 4;
            let o_start = o_gameid + 16;
            let o_play = o_start + 4;
            let o_lens = spec_lens_offset(version);
            let o_latency = o_lens + 8;
            let o_datasize = o_latency + 4;
            let o_names = spec_names_offset(version);
            if s.len() < o_names {
                Err(Error::Truncated)
            } else {
                let spy_user_len = spec_le(s.subrange(o_lens, o_lens + 2)) as u16;
                let sniper_user_len = spec_le(s.subrange(o_lens + 2, o_lens + 4)) as u16;
                let spy_display_len = spec_le(s.subrange(o_lens + 4, o_lens + 6)) as u16;
                let sniper_display_len = spec_le(s.subrange(o_lens + 6, o_lens + 8)) as u16;
                let n1 = o_names + spy_user_len;
                let n2 = n1 + sniper_user_len;
                let n3 = n2 + spy_display_len;
                let n4 = n3 + sniper_display_len;
                if s.len() < n4 {
                    Err(Error::Truncated)
                } else {
                    match spec_parse_result_data(s.skip(n4)) {
                        Err(e) => Err(e),
                        Ok(rd) => Ok(
                            (
                                HeaderView {
                                    replay_version: version,
                                    protocol_version: spec_le(s.subrange(2, 2 + pw)) as u16,
                                    spyparty_version: spec_le(
                                        s.subrange(o_build, o_build + 2),
                                    ) as u16,
                                    flags: spec_le(s.subrange(o_flags, o_flags + fw)) as u32,
                                    duration_bits: spec_le(
                                        s.subrange(o_duration, o_duration + 4),
                                    ) as u32,
                                    game_id: spec_le(s.subrange(o_gameid, o_gameid + 16)) as u128,
                                    start_time: spec_le(s.subrange(o_start, o_start + 4)) as u32,
                                    play_id: spec_le(s.subrange(o_play, o_play + 4)) as u32,
                                    spy_user_len: spy_user_len,
                                    sniper_user_len: sniper_user_len,
                                    spy_display_len: spy_display_len,
                                    sniper_display_len: sniper_display_len,
                                    latency_bits: spec_le(
                                        s.subrange(o_latency, o_latency + 4),
                                    ) as u32,
                                    data_size: spec_le(
                                        s.subrange(o_datasize, o_datasize + 4),
                                    ) as u32,
                                    spy_user_name: lossy_text(s.subrange(o_names, n1)),
                                    sniper_user_name: lossy_text(s.subrange(n1, n2)),
                                    spy_display_name: if spy_display_len == 0 {
                                        None
                                    } else {
                                        Some(lossy_text(s.subrange(n2, n3)))
                                    },
                                    sniper_display_name: if sniper_display_len == 0 {
                                        None
                                    } else {
                                        Some(lossy_text(s.subrange(n3, n4)))
                                    },
                                    result_data: rd.0,
                                },
                                rd.1,
                            ),
                        ),
                    }
                }
            }
        }
    }
}

impl Header {
    /// Decode a header from the byte source, in the fixed field order: the
    /// preamble scalars, the two mandatory account names, the two optional
    /// display names, then the result block. An outer version outside the
    /// supported range fails fast before any further field is interpreted.
    #[verifier::rlimit(60)]
    pub fn from_reader(reader: &mut ByteReader) -> (r: Result<Header, Error>)
        requires
            old(reader).wf(),
        ensures
            final(reader).wf(),
            match r {
                Ok(h) => match spec_parse_header(old(reader).remaining()) {
                    Ok(p) => h@ == p.0 && final(reader).remaining() == p.1,
                    Err(_) => false,
                },
                Err(e) => match spec_parse_header(old(reader).remaining()) {
                    Ok(_) => false,
                    Err(e2) => e == e2,
                },
            },
    {
        let ghost s = old(reader).remaining();
        let replay_version = match read_u16(reader) {
            Ok(v) => v,
            Err(e) => {
                return Err(e);
            },
        };
        if replay_version < 2 || replay_version > 6 {
            return Err(Error::UnsupportedReplayVersion(replay_version));
        }
        let ghost pw = spec_protocol_width(replay_version);
        let ghost fw = spec_flags_width(replay_version);
        let protocol_version: u16 = if replay_version <= 3 {
            match read_u8(reader) {
                Ok(v) => v as u16,
                Err(e) => {
                    return Err(e);
                },
            }
        } else {
            match read_u16(reader) {
                Ok(v) => v,
                Err(e) => {
                    return Err(e);
                },
            }
        };
        proof {
            if replay_version <= 3 {
                assert(s.skip(2).skip(1) =~= s.skip(3));
                lemma_le1(s.subrange(2, 3));
                assert(s.subrange(2, 3)[0] == s.skip(2)[0]);
            } else {
                lemma_skip_take(s, 2, 2);
            }
            assert(reader.remaining() == s.skip(2 + pw));
            assert(protocol_version as nat == spec_le(s.subrange(2, 2 + pw)));
        }
        let spyparty_version = match read_u16(reader) {
            Ok(v) => v,
            Err(e) => {
                return Err(e);
            },
        };
        proof {
            lemma_skip_take(s, 2 + pw, 2);
        }
        let flags: u32 = if replay_version <= 3 {
            match read_u8(reader) {
                Ok(v) => v as u32,
                Err(e) => {
                    return Err(e);
                },
            }
        } else {
            match read_u32(reader) {
                Ok(v) => v,
                Err(e) => {
                    return Err(e);
                },
            }
        };
        proof {
            if replay_version <= 3 {
                assert(s.skip(4 + pw).skip(1) =~= s.skip(5 + pw));
                lemma_le1(s.subrange(4 + pw, 5 + pw));
                assert(s.subrange(4 + pw, 5 + pw)[0] == s.skip(4 + pw)[0]);
            } else {
                lemma_skip_take(s, 4 + pw, 4);
            }
            assert(reader.remaining() == s.skip(4 + pw + fw));
            assert(flags as nat == spec_le(s.subrange(4 + pw, 4 + pw + fw)));
        }
        let ghost o_duration = 4 + pw + fw;
        let duration_bits = match read_u32(reader) {
            Ok(v) => v,
            Err(e) => {
                return Err(e);
            },
        };
        proof {
            lemma_skip_take(s, o_duration, 4);
        }
        let game_id = match read_u128(reader) {
            Ok(v) => v,
            Err(e) => {
                return Err(e);
            },
        };
        proof {
            lemma_skip_take(s, o_duration + 4, 16);
        }
        let start_time = match read_u32(reader) {
            Ok(v) => v,
            Err(e) => {
                return Err(e);
            },
        };
        proof {
            lemma_skip_take(s, o_duration + 20, 4);
        }
        let play_id = match read_u32(reader) {
            Ok(v) => v,
            Err(e) => {
                return Err(e);
            },
        };
        proof {
            lemma_skip_take(s, o_duration + 24, 4);
            assert(o_duration + 28 == spec_lens_offset(replay_version));
        }
        let ghost o_lens = spec_lens_offset(replay_version);
        let spy_user_len = match read_u16(reader) {
            Ok(v) => v,
            Err(e) => {
                return Err(e);
            },
        };
        proof {
            lemma_skip_take(s, o_lens, 2);
        }
        let sniper_user_len = match read_u16(reader) {
            Ok(v) => v,
            Err(e) => {
                return Err(e);
            },
        };
        proof {
            lemma_skip_take(s, o_lens + 2, 2);
        }
        let spy_display_len = match read_u16(reader) {
            Ok(v) => v,
            Err(e) => {
                return Err(e);
            },
        };
        proof {
            lemma_skip_take(s, o_lens + 4, 2);
        }
        let sniper_display_len = match read_u16(reader) {
            Ok(v) => v,
            Err(e) => {
                return Err(e);
            },
        };
        proof {
            lemma_skip_take(s, o_lens + 6, 2);
        }
        let latency_bits = match read_u32(reader) {
            Ok(v) => v,
            Err(e) => {
                return Err(e);
            },
        };
        proof {
            lemma_skip_take(s, o_lens + 8, 4);
        }
        let data_size = match read_u32(reader) {
            Ok(v) => v,
            Err(e) => {
                return Err(e);
            },
        };
        proof {
            lemma_skip_take(s, o_lens + 12, 4);
            assert(o_lens + 16 == spec_names_offset(replay_version));
        }
        let ghost o_names = spec_names_offset(replay_version);
        let ghost n1 = o_names + spy_user_len;
        let ghost n2 = n1 + sniper_user_len;
        let ghost n3 = n2 + spy_display_len;
        let ghost n4 = n3 + sniper_display_len;
        let spy_user_name = match read_string(reader, spy_user_len as usize) {
            Ok(v) => v,
            Err(e) => {
                return Err(e);
            },
        };
        proof {
            lemma_skip_take(s, o_names, spy_user_len as int);
        }
        let sniper_user_name = match read_string(reader, sniper_user_len as usize) {
            Ok(v) => v,
            Err(e) => {
                return Err(e);
            },
        };
        proof {
            lemma_skip_take(s, n1, sniper_user_len as int);
        }
        let spy_display_name: Option<String> = if spy_display_len == 0 {
            None
        } else {
            match read_string(reader, spy_display_len as usize) {
                Ok(v) => Some(v),
                Err(e) => {
                    return Err(e);
                },
            }
        };
        proof {
            lemma_skip_take(s, n2, spy_display_len as int);
            assert(reader.remaining() == s.skip(n3));
        }
        let sniper_display_name: Option<String> = if sniper_display_len == 0 {
            None
        } else {
            match read_string(reader, sniper_display_len as usize) {
                Ok(v) => Some(v),
                Err(e) => {
                    return Err(e);
                },
            }
        };
        proof {
            lemma_skip_take(s, n3, sniper_display_len as int);
            assert(reader.remaining() == s.skip(n4));
        }
        let result_data = match ResultData::from_reader(reader) {
            Ok(v) => v,
            Err(e) => {
                return Err(e);
            },
        };
        let h = Header {
            replay_version,
            protocol_version,
            spyparty_version,
            flags,
            duration_bits,
            game_id,
            start_time,
            play_id,
            spy_user_len,
            sniper_user_len,
            spy_display_len,
            sniper_display_len,
            latency_bits,
            data_size,
            spy_user_name,
            sniper_user_name,
            spy_display_name,
            sniper_display_name,
            result_data,
        };
        Ok(h)
    }
}

impl Default for Header {
    /// An empty header: every counter zero, both account names empty, both
    /// display names absent, and an empty result block.
    fn default() -> (r: Header)
        ensures
            r@.replay_version == 0,
            r@.protocol_version == 0,
            r@.spyparty_version == 0,
            r@.flags == 0,
            r@.duration_bits == 0,
            r@.game_id == 0,
            r@.start_time == 0,
            r@.play_id == 0,
            r@.spy_user_len == 0,
            r@.sniper_user_len == 0,
            r@.spy_display_len == 0,
            r@.sniper_display_len == 0,
            r@.latency_bits == 0,
            r@.data_size == 0,
            r@.spy_user_name == Seq::<char>::empty(),
            r@.sniper_user_name == Seq::<char>::empty(),
            r@.spy_display_name is None,
            r@.sniper_display_name is None,
            r@.result_data == spec_default_result_data(),
    {
        Header {
            replay_version: 0,
            protocol_version: 0,
            spyparty_version: 0,
            flags: 0,
            duration_bits: 0,
            game_id: 0,
            start_time: 0,
            play_id: 0,
            spy_user_len: 0,
            sniper_user_len: 0,
            spy_display_len: 0,
            sniper_display_len: 0,
            latency_bits: 0,
            data_size: 0,
            spy_user_name: String::new(),
            sniper_user_name: String::new(),
            spy_display_name: None,
            sniper_display_name: None,
            result_data: ResultData::default(),
        }
    }
}

/// A byte sequence that carries a structurally complete header of a
/// supported version: the outer version lies in the supported range, the
/// whole preamble and both name regions are present, and a structurally
/// complete result block follows.
pub open spec fn wf_header_bytes(s: Seq<u8>) -> bool {
    &&& s.len() >= 2
    &&& {
        let version = spec_le(s.take(2)) as u16;
        &&& 2 <= version <= 6
        &&& s.len() >= spec_names_offset(version)
        &&& {
            let o_lens = spec_lens_offset(version);
            let o_names = spec_names_offset(version);
            let names = (spec_le(s.subrange(o_lens, o_lens + 2)) as u16) + (spec_le(
                s.subrange(o_lens + 2, o_lens + 4),
            ) as u16) + (spec_le(s.subrange(o_lens + 4, o_lens + 6)) as u16) + (spec_le(
                s.subrange(o_lens + 6, o_lens + 8),
            ) as u16);
            &&& s.len() >= o_names + names
            &&& wf_result_block(s.skip(o_names + names))
        }
    }
}

/// Decoding a header succeeds exactly on structurally complete input of a
/// supported version: on such input, of any supported version, it never
/// fails, and exactly the field layout of that version is applied.
pub proof fn lemma_parse_header_total(s: Seq<u8>)
    ensures
        (spec_parse_header(s) is Ok) == wf_header_bytes(s),
{
    if s.len() >= 2 {
        let version = spec_le(s.take(2)) as u16;
        if 2 <= version <= 6 && s.len() >= spec_names_offset(version) {
            let o_lens = spec_lens_offset(version);
            let o_names = spec_names_offset(version);
            let names = (spec_le(s.subrange(o_lens, o_lens + 2)) as u16) + (spec_le(
                s.subrange(o_lens + 2, o_lens + 4),
            ) as u16) + (spec_le(s.subrange(o_lens + 4, o_lens + 6)) as u16) + (spec_le(
                s.subrange(o_lens + 6, o_lens + 8),
            ) as u16);
            if s.len() >= o_names + names {
                lemma_parse_result_total(s.skip(o_names + names));
            }
        }
    }
}

/// A successfully decoded header always carries a supported outer version,
/// the one read from the first field, and its fields were taken under exactly
/// that version's layout: the protocol and flags widths are functions of that
/// version alone.
pub proof fn lemma_decoded_version_supported(s: Seq<u8>, h: HeaderView, rest: Seq<u8>)
    requires
        spec_parse_header(s) == Ok::<(HeaderView, Seq<u8>), Error>((h, rest)),
    ensures
        2 <= h.replay_version <= 6,
        h.replay_version == spec_le(s.take(2)) as u16,
        h.protocol_version == spec_le(s.subrange(2, 2 + spec_protocol_width(h.replay_version))) as u16,
        h.flags == spec_le(
            s.subrange(
                4 + spec_protocol_width(h.replay_version),
                4 + spec_protocol_width(h.replay_version) + spec_flags_width(h.replay_version),
            ),
        ) as u32,
{
}

/// The version gating of the result block, seen from a decoded header: the
/// ruleset flag is present exactly from result-block version 1 on, guest
/// count and clock start exactly from version 2 on.
pub proof fn lemma_header_presence_gating(s: Seq<u8>, h: HeaderView, rest: Seq<u8>)
    requires
        spec_parse_header(s) == Ok::<(HeaderView, Seq<u8>), Error>((h, rest)),
    ensures
        h.result_data.version <= 3,
        (h.result_data.simple_rules is Some) == (h.result_data.version >= 1),
        (h.result_data.guests is Some) == (h.result_data.version >= 2),
        (h.result_data.clock_start is Some) == (h.result_data.version >= 2),
{
}

/// Decoding is deterministic: equal byte sequences decode to the same value
/// in every field, or to the same failure. Together with the decoder's
/// contract, two decodes from independent copies of one byte sequence agree
/// in every field.
pub proof fn lemma_decode_deterministic(s1: Seq<u8>, s2: Seq<u8>)
    requires
        s1 == s2,
    ensures
        spec_parse_header(s1) == spec_parse_header(s2),
{
}

} // verus!
