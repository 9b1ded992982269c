//! Formatting strategies.

use vstd::prelude::*;
use crate::layout::{Element, Rectangle, rectangles};
use crate::result::Error;
use crate::text::same_text;

pub mod svg;
pub mod threed_ice;

pub use self::svg::SVG;
pub use self::threed_ice::ThreeDICE;

verus! {

/// A formatting strategy.
pub trait Format {
    /// The text that the strategy makes of a sequence of elements, or the
    /// reason why it makes none.
    spec fn rendering(&self, elements: Seq<Rectangle>) -> Result<Seq<char>, Error>;

    /// Perform the formatting: the text is appended to `writer`, and on an
    /// error nothing is.
    fn write(&self, elements: &[Element], writer: &mut String) -> (result: Result<(), Error>)
        ensures
            match self.rendering(rectangles(elements@)) {
                Ok(text) => result is Ok && final(writer)@ == old(writer)@ + text,
                Err(error) => result == Err::<(), Error>(error) && final(writer)@ == old(
                    writer,
                )@,
            },
    ;
}

/// The formats to choose from.
#[derive(Clone, Copy, Debug, PartialEq, Eq, Structural)]
pub enum Choice {
    /// The SVG format.
    SVG,
    /// The 3D-ICE format.
    ThreeDICE,
}

impl Choice {
    /// The format that a name stands for.
    pub open spec fn named(name: Seq<char>) -> Result<Choice, Error> {
        if name == "svg"@ {
            Ok(Choice::SVG)
        } else if name == "3d-ice"@ {
            Ok(Choice::ThreeDICE)
        } else {
            Err(Error::FormatSelection)
        }
    }

    /// Choose a format by its name, `svg` or `3d-ice`.
    pub fn select(name: &str) -> (choice: Result<Choice, Error>)
        ensures
            choice == Choice::named(name@),
    {
        if same_text(name, "svg") {
            Ok(Choice::SVG)
        } else if same_text(name, "3d-ice") {
            Ok(Choice::ThreeDICE)
        } else {
            Err(Error::FormatSelection)
        }
    }
}

impl Format for Choice {
    open spec fn rendering(&self, elements: Seq<Rectangle>) -> Result<Seq<char>, Error> {
        match self {
            Choice::SVG => SVG.rendering(elements),
            Choice::ThreeDICE => ThreeDICE.rendering(elements),
        }
    }

    fn write(&self, elements: &[Element], writer: &mut String) -> (result: Result<(), Error>) {
        match self {
            Choice::SVG => SVG.write(elements, writer),
            Choice::ThreeDICE => ThreeDICE.write(elements, writer),
        }
    }
}

} // verus!
