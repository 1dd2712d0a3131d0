//! Input modes of the interface.
use vstd::prelude::*;

verus! {

#[derive(Debug, Clone, PartialEq)]
pub enum ChordCategory {
    Trig,
    Log,
    Functions,
    Constants,
    AngleMode,
    Base,
    HexStyle,
}

#[derive(Debug, Clone, PartialEq)]
pub enum AppMode {
    Normal,
    Alpha(String),
    Chord(ChordCategory),
}

} // verus!
