use vstd::prelude::*;

verus! {

/// The failures that can arise while decoding a replay.
///
/// Every failure on the binary path is a deterministic function of the input
/// bytes: there is no partial header and no point in retrying on the same
/// input. Unknown map codes and outcome codes are not failures; they are
/// recovered locally with a fallback variant.
#[derive(Debug)]
pub enum Error {
    /// Fewer bytes remained in the input than a field declared.
    Truncated,
    /// The outer header version lies outside the supported range.
    UnsupportedReplayVersion(u16),
    /// The embedded result-block version lies outside the supported range.
    UnsupportedResultVersion(u8),
    /// The packed game-mode value matches no known interpretation.
    UnknownGameMode(u32),
    /// A map name on the text path was not recognized.
    UnknownMap(String),
    /// A map-variant code was not recognized.
    UnknownMapVariant(u32),
}

} // verus!
