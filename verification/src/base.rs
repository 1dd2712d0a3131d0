//! The number base of the display and the style of hexadecimal prefixes.
use vstd::prelude::*;

verus! {

#[derive(Clone, Copy, PartialEq, Eq, Structural, Debug)]
pub enum Base {
    Dec,
    Hex,
    Oct,
    Bin,
}

/// The base that follows `b` in the cycle Dec, Hex, Oct, Bin.
pub open spec fn next_base(b: Base) -> Base {
    match b {
        Base::Dec => Base::Hex,
        Base::Hex => Base::Oct,
        Base::Oct => Base::Bin,
        Base::Bin => Base::Dec,
    }
}

/// The radix of a base.
pub open spec fn base_radix(b: Base) -> u32 {
    match b {
        Base::Dec => 10,
        Base::Hex => 16,
        Base::Oct => 8,
        Base::Bin => 2,
    }
}

impl Base {
    pub fn cycle(self) -> (r: Base)
        ensures
            r == next_base(self),
    {
        match self {
            Base::Dec => Base::Hex,
            Base::Hex => Base::Oct,
            Base::Oct => Base::Bin,
            Base::Bin => Base::Dec,
        }
    }

    pub fn radix(self) -> (r: u32)
        ensures
            r == base_radix(self),
    {
        match self {
            Base::Dec => 10,
            Base::Hex => 16,
            Base::Oct => 8,
            Base::Bin => 2,
        }
    }

    /// The status-bar label of the base.
    pub fn to_string(&self) -> (r: String)
        ensures
            r@ == (match *self {
                Base::Dec => "DEC"@,
                Base::Hex => "HEX"@,
                Base::Oct => "OCT"@,
                Base::Bin => "BIN"@,
            }),
    {
        match self {
            Base::Dec => String::from_str("DEC"),
            Base::Hex => String::from_str("HEX"),
            Base::Oct => String::from_str("OCT"),
            Base::Bin => String::from_str("BIN"),
        }
    }
}

#[derive(Clone, Copy, PartialEq, Eq, Structural, Debug)]
pub enum HexStyle {
    /// Displays as `0xFF`
    ZeroX,
    /// Displays as `$FF`
    Dollar,
    /// Displays as `#FF`
    Hash,
    /// Displays as `FFh`
    Suffix,
}

/// The style that follows `h` in the cycle `0x`, `$`, `#`, `h`.
pub open spec fn next_hex_style(h: HexStyle) -> HexStyle {
    match h {
        HexStyle::ZeroX => HexStyle::Dollar,
        HexStyle::Dollar => HexStyle::Hash,
        HexStyle::Hash => HexStyle::Suffix,
        HexStyle::Suffix => HexStyle::ZeroX,
    }
}

impl HexStyle {
    pub fn cycle(self) -> (r: HexStyle)
        ensures
            r == next_hex_style(self),
    {
        match self {
            HexStyle::ZeroX => HexStyle::Dollar,
            HexStyle::Dollar => HexStyle::Hash,
            HexStyle::Hash => HexStyle::Suffix,
            HexStyle::Suffix => HexStyle::ZeroX,
        }
    }

    /// The marker that the style adds to a hexadecimal number.
    pub fn to_string(&self) -> (r: String)
        ensures
            r@ == (match *self {
                HexStyle::ZeroX => "0x"@,
                HexStyle::Dollar => "$"@,
                HexStyle::Hash => "#"@,
                HexStyle::Suffix => "h"@,
            }),
    {
        match self {
            HexStyle::ZeroX => String::from_str("0x"),
            HexStyle::Dollar => String::from_str("$"),
            HexStyle::Hash => String::from_str("#"),
            HexStyle::Suffix => String::from_str("h"),
        }
    }
}

/// Cycling through the bases four times comes back to the start, and every
/// step changes the base.
pub proof fn law_base_cycle_period(b: Base)
    ensures
        next_base(next_base(next_base(next_base(b)))) == b,
        next_base(b) != b,
        next_base(next_base(b)) != b,
        next_base(next_base(next_base(b))) != b,
{
}

/// Cycling through the hex styles four times comes back to the start, and
/// every step changes the style.
pub proof fn law_hex_style_cycle_period(h: HexStyle)
    ensures
        next_hex_style(next_hex_style(next_hex_style(next_hex_style(h)))) == h,
        next_hex_style(h) != h,
        next_hex_style(next_hex_style(h)) != h,
        next_hex_style(next_hex_style(next_hex_style(h))) != h,
{
}

} // verus!
