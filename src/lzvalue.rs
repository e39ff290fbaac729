//! The tokens of LZ77 output.
use vstd::prelude::*;

verus! {

/// One unit of LZ77 output: a literal byte, or one half of a match. A match
/// is always recorded as a `Length` immediately followed by a `Distance`.
#[derive(Clone, Copy, Debug, PartialEq, Eq, Structural)]
pub enum LZValue {
    Literal(u8),
    Length(u16),
    Distance(u16),
}

impl LZValue {
    pub fn literal(value: u8) -> (r: LZValue)
        ensures
            r == LZValue::Literal(value),
    {
        LZValue::Literal(value)
    }

    pub fn length(length: u16) -> (r: LZValue)
        ensures
            r == LZValue::Length(length),
    {
        LZValue::Length(length)
    }

    pub fn distance(distance: u16) -> (r: LZValue)
        ensures
            r == LZValue::Distance(distance),
    {
        LZValue::Distance(distance)
    }
}

} // verus!
