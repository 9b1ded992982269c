//! Layout strategies.

use vstd::prelude::*;
use crate::result::Error;

pub mod tiles;
pub mod tiling;

pub use self::tiles::Tiles;

verus! {

/// A configuration of a layout strategy.
#[derive(Clone, Copy, Debug)]
pub struct Configuration {
    /// The number of cores.
    pub core_count: usize,
    /// The area of a core, in squares of the size resolution.
    pub core_area: u64,
    /// The area of an L3 cache, in squares of the size resolution.
    pub l3_area: u64,
}

impl Configuration {
    /// Both areas are positive.
    pub open spec fn well_formed(&self) -> bool {
        self.core_area > 0 && self.l3_area > 0
    }
}

/// A layout element.
#[derive(Debug)]
pub struct Element {
    /// The name.
    pub name: String,
    /// The coordinates of the bottom-left corner.
    pub position: (u64, u64),
    /// The width and height.
    pub dimension: (u64, u64),
}

/// What a layout element stands for: a named rectangle in the plane.
pub struct Rectangle {
    /// The name.
    pub name: Seq<char>,
    /// The coordinates of the bottom-left corner.
    pub position: (nat, nat),
    /// The width and height.
    pub dimension: (nat, nat),
}

impl Rectangle {
    /// The right edge.
    pub open spec fn right(self) -> nat {
        self.position.0 + self.dimension.0
    }

    /// The top edge.
    pub open spec fn top(self) -> nat {
        self.position.1 + self.dimension.1
    }

    /// Whether the rectangle has a width and a height.
    pub open spec fn solid(self) -> bool {
        self.dimension.0 > 0 && self.dimension.1 > 0
    }

    /// Whether the interiors of two rectangles meet.
    pub open spec fn overlaps(self, other: Rectangle) -> bool {
        &&& self.position.0 < other.right()
        &&& other.position.0 < self.right()
        &&& self.position.1 < other.top()
        &&& other.position.1 < self.top()
    }
}

impl View for Element {
    type V = Rectangle;

    open spec fn view(&self) -> Rectangle {
        Rectangle {
            name: self.name@,
            position: (self.position.0 as nat, self.position.1 as nat),
            dimension: (self.dimension.0 as nat, self.dimension.1 as nat),
        }
    }
}

/// The rectangles that a sequence of elements stands for.
pub open spec fn rectangles(elements: Seq<Element>) -> Seq<Rectangle> {
    elements.map_values(|e: Element| e@)
}

/// What the outcome of a construction stands for.
pub open spec fn outcome(result: Result<Vec<Element>, Error>) -> Result<Seq<Rectangle>, Error> {
    match result {
        Ok(elements) => Ok(rectangles(elements@)),
        Err(error) => Err(error),
    }
}

/// A layout strategy.
pub trait Layout {
    /// Whether the construction fits the machine's integers.
    spec fn supports(&self, configuration: &Configuration) -> bool;

    /// What the strategy makes of a configuration.
    spec fn arrangement(&self, configuration: &Configuration) -> Result<Seq<Rectangle>, Error>;

    /// Perform the construction.
    fn construct(&self, configuration: &Configuration) -> (result: Result<Vec<Element>, Error>)
        requires
            configuration.well_formed(),
            self.supports(configuration),
        ensures
            outcome(result) == self.arrangement(configuration),
    ;
}

} // verus!
