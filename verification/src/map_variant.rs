use vstd::prelude::*;

use crate::error::Error;

verus! {

/// The variant a map was played in. Most maps come in a single arrangement.
#[derive(Debug, Clone, Copy, PartialEq, Eq, Structural)]
pub enum MapVariant {
    Teien(TeienVariant),
    Standard,
}

/// The variants of Teien: the arrangement of books and statues in each of the
/// three display rooms.
#[derive(Debug, Clone, Copy, PartialEq, Eq, Structural)]
pub enum TeienVariant {
    BooksBooksBooks,
    BooksStatuesBooks,
    StatuesBooksBooks,
    StatuesStatuesBooks,
    BooksBooksStatues,
    BooksStatuesStatues,
    StatuesBooksStatues,
    StatuesStatuesStatues,
}

/// The Teien variant a raw code stands for, or nothing for a code outside the
/// table.
pub open spec fn spec_teien_variant(variant: u32) -> Option<TeienVariant> {
    if variant == 0 {
        Some(TeienVariant::BooksBooksBooks)
    } else if variant == 1 {
        Some(TeienVariant::BooksStatuesBooks)
    } else if variant == 2 {
        Some(TeienVariant::StatuesBooksBooks)
    } else if variant == 3 {
        Some(TeienVariant::StatuesStatuesBooks)
    } else if variant == 4 {
        Some(TeienVariant::BooksBooksStatues)
    } else if variant == 5 {
        Some(TeienVariant::BooksStatuesStatues)
    } else if variant == 6 {
        Some(TeienVariant::StatuesBooksStatues)
    } else if variant == 7 {
        Some(TeienVariant::StatuesStatuesStatues)
    } else {
        None
    }
}

impl TeienVariant {
    /// Classify a raw Teien variant code. Fails exactly on codes outside the
    /// table.
    pub fn try_from(variant: u32) -> (r: Result<TeienVariant, Error>)
        ensures
            match r {
                Ok(t) => spec_teien_variant(variant) == Some(t),
                Err(e) => {
                    &&& spec_teien_variant(variant) is None
                    &&& e matches Error::UnknownMapVariant(v) && v == variant
                },
            },
    {
        match variant {
            0 => Ok(TeienVariant::BooksBooksBooks),
            1 => Ok(TeienVariant::BooksStatuesBooks),
            2 => Ok(TeienVariant::StatuesBooksBooks),
            3 => Ok(TeienVariant::StatuesStatuesBooks),
            4 => Ok(TeienVariant::BooksBooksStatues),
            5 => Ok(TeienVariant::BooksStatuesStatues),
            6 => Ok(TeienVariant::StatuesBooksStatues),
            7 => Ok(TeienVariant::StatuesStatuesStatues),
            _ => Err(Error::UnknownMapVariant(variant)),
        }
    }
}

impl Default for MapVariant {
    fn default() -> (r: MapVariant)
        ensures
            r == MapVariant::Standard,
    {
        MapVariant::Standard
    }
}

} // verus!
