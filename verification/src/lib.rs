//! A library for decoding the header of a SpyParty replay file.
//!
//! The header carries the match metadata: the players, the map, the selected
//! missions and the outcome. It has evolved across several format revisions,
//! so decoding branches on two independent version counters: the outer header
//! version and the version of the embedded result block. The event stream
//! that follows the header is undocumented and is not decoded.

mod error;
mod game_mode;
mod game_result;
mod map;
mod map_variant;
mod mission;
mod utils;

pub mod replay;

pub use error::Error;
pub use game_mode::GameMode;
pub use game_result::GameResult;
pub use map::GameMap;
pub use map_variant::MapVariant;
pub use map_variant::TeienVariant;
pub use mission::Mission;
pub use mission::missions_from_mask;
pub use replay::Replay;
pub use utils::ByteReader;
pub use utils::read_u8;
pub use utils::read_u16;
pub use utils::read_u32;
pub use utils::read_u128;
pub use utils::string_eq_ignore_case;
