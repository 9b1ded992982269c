//! Floorplanning of a multi-core die.
//!
//! A layout strategy turns a core count and two areas into a sequence of
//! named rectangles; a format turns that sequence into text. All lengths are
//! whole numbers of the size resolution (one micrometer), all areas whole
//! numbers of its square.

use vstd::prelude::*;

pub mod format;
pub mod layout;
pub mod lookup;
pub mod result;
pub mod rounding;
pub mod text;

pub use crate::result::Error;

use crate::format::svg::lemma_frame_bounds;
use crate::format::{Choice, Format};
use crate::layout::tiling::{core_tile, core_width, lemma_core_width_positive, tiling};
use crate::layout::{Configuration, Layout, Tiles};

verus! {

/// What planning makes of a configuration and the name of a format: the
/// format is chosen first, then the layout is constructed, then it is
/// written; the first error ends the planning.
pub open spec fn planned(configuration: &Configuration, format: Seq<char>) -> Result<
    Seq<char>,
    Error,
> {
    match Choice::named(format) {
        Err(error) => Err(error),
        Ok(choice) => match Tiles.arrangement(configuration) {
            Err(error) => Err(error),
            Ok(elements) => choice.rendering(elements),
        },
    }
}

/// Plan the floor of a die: tile it as configured and append the tiling to
/// `writer` in the format of the given name. The document is appended
/// whole or not at all.
pub fn plan(configuration: &Configuration, format: &str, writer: &mut String) -> (result: Result<
    (),
    Error,
>)
    requires
        configuration.well_formed(),
        Tiles.supports(configuration),
    ensures
        match planned(configuration, format@) {
            Ok(text) => result is Ok && final(writer)@ == old(writer)@ + text,
            Err(error) => result == Err::<(), Error>(error) && final(writer)@ == old(writer)@,
        },
{
    let choice = match Choice::select(format) {
        Ok(choice) => choice,
        Err(error) => {
            return Err(error);
        },
    };
    let elements = match Tiles.construct(configuration) {
        Ok(elements) => elements,
        Err(error) => {
            return Err(error);
        },
    };
    choice.write(elements.as_slice(), writer)
}

/// Planning a valid configuration succeeds in either format: a tiling is
/// never without width, so it always has a drawing.
pub proof fn lemma_tiling_is_drawn(configuration: &Configuration)
    requires
        configuration.well_formed(),
        configuration.core_count > 0,
        configuration.core_count % 4 == 0,
    ensures
        planned(configuration, "svg"@) is Ok,
        planned(configuration, "3d-ice"@) is Ok,
{
    let tiles = tiling(configuration);
    reveal_strlit("svg");
    reveal_strlit("3d-ice");
    assert("svg"@.len() == 3 && "3d-ice"@.len() == 6);
    lemma_core_width_positive(configuration);
    lemma_frame_bounds(tiles, 0);
    assert(tiles[0] == core_tile(configuration, 0));
    assert(0 * core_width(configuration) == 0) by (nonlinear_arith);
}

} // verus!
