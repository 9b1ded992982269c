//! The 3D-ICE format: a stack description for the thermal simulator.

use vstd::prelude::*;
use vstd::string::StringExecFns;
use crate::format::Format;
use crate::layout::{Element, Rectangle, rectangles};
use crate::result::Error;
use crate::text::{append_decimal, decimal};

verus! {

/// The stanza of one element: its name, its position and dimension in
/// micrometers, and a power of zero.
pub open spec fn stanza(r: Rectangle) -> Seq<char> {
    r.name + ":\n  position "@ + decimal(r.position.0) + ", "@ + decimal(r.position.1)
        + ";\n  dimension "@ + decimal(r.dimension.0) + ", "@ + decimal(r.dimension.1)
        + ";\n\n  power values 0;\n"@
}

/// The stanzas of the elements in their order, an empty line between two.
pub open spec fn description(elements: Seq<Rectangle>) -> Seq<char>
    decreases elements.len(),
{
    if elements.len() == 0 {
        Seq::empty()
    } else if elements.len() == 1 {
        stanza(elements[0])
    } else {
        description(elements.drop_last()) + "\n"@ + stanza(elements.last())
    }
}

/// Append the stanza of one element.
fn append_stanza(text: &mut String, element: &Element)
    ensures
        final(text)@ == old(text)@ + stanza(element@),
{
    let mut stanza = String::from_str(element.name.as_str());
    stanza.append(":\n  position ");
    append_decimal(&mut stanza, element.position.0 as u128);
    stanza.append(", ");
    append_decimal(&mut stanza, element.position.1 as u128);
    stanza.append(";\n  dimension ");
    append_decimal(&mut stanza, element.dimension.0 as u128);
    stanza.append(", ");
    append_decimal(&mut stanza, element.dimension.1 as u128);
    stanza.append(";\n\n  power values 0;\n");
    text.append(stanza.as_str());
}

/// The 3D-ICE format.
#[derive(Clone, Copy, Debug)]
pub struct ThreeDICE;

impl ThreeDICE {
    /// Create the format.
    #[inline]
    pub fn new() -> (format: ThreeDICE)
        ensures
            format == ThreeDICE,
    {
        ThreeDICE
    }
}

impl Format for ThreeDICE {
    /// Any sequence is described, the empty one by the empty text.
    open spec fn rendering(&self, elements: Seq<Rectangle>) -> Result<Seq<char>, Error> {
        Ok(description(elements))
    }

    fn write(&self, elements: &[Element], writer: &mut String) -> (result: Result<(), Error>) {
        let ghost all = rectangles(elements@);
        let mut text = String::new();
        let mut first = true;
        let mut n: usize = 0;
        while n < elements.len()
            invariant
                n <= elements.len(),
                all == rectangles(elements@),
                first == (n == 0),
                text@ == description(all.take(n as int)),
            decreases elements.len() - n,
        {
            proof {
                assert(all.take(n + 1).drop_last() =~= all.take(n as int));
                assert(all.take(n + 1).last() == elements[n as int]@);
            }
            if !first {
                text.append("\n");
            } else {
                first = false;
                assert(text@ + stanza(elements[n as int]@) =~= stanza(elements[n as int]@));
            }
            append_stanza(&mut text, &elements[n]);
            n += 1;
        }
        assert(all.take(n as int) =~= all);
        writer.append(text.as_str());
        Ok(())
    }
}

/// Describing the same elements twice gives the same text: the text is a
/// function of names, positions and dimensions alone.
pub proof fn lemma_description_repeatable(first: Seq<Element>, second: Seq<Element>)
    requires
        rectangles(first) == rectangles(second),
    ensures
        ThreeDICE.rendering(rectangles(first)) == ThreeDICE.rendering(rectangles(second)),
        ThreeDICE.rendering(rectangles(first)) is Ok,
{
}

} // verus!
