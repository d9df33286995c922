//! The seven scalar quantities that describe a particle, in the order in which
//! their initial values are drawn, each with the interval it is drawn from.

use vstd::prelude::*;

verus! {

/// One scalar attribute of a particle. The variants stand in drawing order.
#[derive(Clone, Copy, Debug, PartialEq, Eq, Structural)]
pub enum Quantity {
    /// Position along x.
    PositionX,
    /// Position along y.
    PositionY,
    /// Position along z.
    PositionZ,
    /// Velocity along x.
    VelocityX,
    /// Velocity along y.
    VelocityY,
    /// Velocity along z.
    VelocityZ,
    /// Mass; never written again once drawn.
    Mass,
}

/// How many quantities describe one particle.
pub const QUANTITIES: usize = 7;

impl Quantity {
    /// Place of the quantity in drawing order, from 0.
    pub open spec fn spec_ordinal(self) -> nat {
        match self {
            Quantity::PositionX => 0,
            Quantity::PositionY => 1,
            Quantity::PositionZ => 2,
            Quantity::VelocityX => 3,
            Quantity::VelocityY => 4,
            Quantity::VelocityZ => 5,
            Quantity::Mass => 6,
        }
    }

    /// The quantity drawn after this one, if any.
    pub open spec fn spec_successor(self) -> Option<Quantity> {
        match self {
            Quantity::PositionX => Some(Quantity::PositionY),
            Quantity::PositionY => Some(Quantity::PositionZ),
            Quantity::PositionZ => Some(Quantity::VelocityX),
            Quantity::VelocityX => Some(Quantity::VelocityY),
            Quantity::VelocityY => Some(Quantity::VelocityZ),
            Quantity::VelocityZ => Some(Quantity::Mass),
            Quantity::Mass => None,
        }
    }

    /// Inclusive lower end of the interval the initial value is drawn from.
    pub open spec fn spec_lower(self) -> int {
        match self {
            Quantity::PositionX | Quantity::PositionY | Quantity::PositionZ => -100,
            Quantity::VelocityX | Quantity::VelocityY | Quantity::VelocityZ => -1,
            Quantity::Mass => 1,
        }
    }

    /// Exclusive upper end of the interval the initial value is drawn from.
    pub open spec fn spec_upper(self) -> int {
        match self {
            Quantity::PositionX | Quantity::PositionY | Quantity::PositionZ => 100,
            Quantity::VelocityX | Quantity::VelocityY | Quantity::VelocityZ => 1,
            Quantity::Mass => 10,
        }
    }

    /// Place of the quantity in drawing order, from 0.
    pub fn ordinal(self) -> (k: usize)
        ensures
            k == self.spec_ordinal(),
            k < QUANTITIES,
    {
        match self {
            Quantity::PositionX => 0,
            Quantity::PositionY => 1,
            Quantity::PositionZ => 2,
            Quantity::VelocityX => 3,
            Quantity::VelocityY => 4,
            Quantity::VelocityZ => 5,
            Quantity::Mass => 6,
        }
    }

    /// The quantity drawn after this one; `None` after the last.
    pub fn successor(self) -> (next: Option<Quantity>)
        ensures
            next == self.spec_successor(),
            next is Some ==> next->0.spec_ordinal() == self.spec_ordinal() + 1,
            next is None <==> self == Quantity::Mass,
    {
        match self {
            Quantity::PositionX => Some(Quantity::PositionY),
            Quantity::PositionY => Some(Quantity::PositionZ),
            Quantity::PositionZ => Some(Quantity::VelocityX),
            Quantity::VelocityX => Some(Quantity::VelocityY),
            Quantity::VelocityY => Some(Quantity::VelocityZ),
            Quantity::VelocityZ => Some(Quantity::Mass),
            Quantity::Mass => None,
        }
    }

    /// Inclusive lower end of the interval the initial value is drawn from.
    pub fn lower(self) -> (bound: i32)
        ensures
            bound == self.spec_lower(),
            bound < self.spec_upper(),
    {
        match self {
            Quantity::PositionX | Quantity::PositionY | Quantity::PositionZ => -100,
            Quantity::VelocityX | Quantity::VelocityY | Quantity::VelocityZ => -1,
            Quantity::Mass => 1,
        }
    }

    /// Exclusive upper end of the interval the initial value is drawn from.
    pub fn upper(self) -> (bound: i32)
        ensures
            bound == self.spec_upper(),
            self.spec_lower() < bound,
    {
        match self {
            Quantity::PositionX | Quantity::PositionY | Quantity::PositionZ => 100,
            Quantity::VelocityX | Quantity::VelocityY | Quantity::VelocityZ => 1,
            Quantity::Mass => 10,
        }
    }
}

} // verus!
