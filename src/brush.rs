//! The kinds of brush that the drawing tools offer.
use vstd::prelude::*;

verus! {

/// The shape that a brush stroke paints.
#[derive(Clone, Copy, Debug, PartialEq, Eq, Structural)]
pub enum BrushType {
    Pixel,
    Circle,
}

impl BrushType {
    /// The brush type that follows `self` when cycling forwards.
    pub open spec fn spec_next(self) -> BrushType {
        match self {
            BrushType::Pixel => BrushType::Circle,
            BrushType::Circle => BrushType::Pixel,
        }
    }

    /// The brush type that precedes `self` when cycling backwards.
    pub open spec fn spec_previous(self) -> BrushType {
        match self {
            BrushType::Circle => BrushType::Pixel,
            BrushType::Pixel => BrushType::Circle,
        }
    }

    /// The display name of the brush type.
    pub fn as_str(&self) -> (r: &str)
        ensures
            *self == BrushType::Pixel ==> r@ == "Pixel"@,
            *self == BrushType::Circle ==> r@ == "Circle"@,
    {
        match *self {
            BrushType::Pixel => "Pixel",
            BrushType::Circle => "Circle",
        }
    }

    pub fn next(&mut self)
        ensures
            *final(self) == old(self).spec_next(),
    {
        match *self {
            BrushType::Pixel => *self = BrushType::Circle,
            BrushType::Circle => *self = BrushType::Pixel,
        }
    }

    pub fn previous(&mut self)
        ensures
            *final(self) == old(self).spec_previous(),
    {
        match *self {
            BrushType::Circle => *self = BrushType::Pixel,
            BrushType::Pixel => *self = BrushType::Circle,
        }
    }
}

} // verus!
