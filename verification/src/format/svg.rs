//! The SVG format: a preview of the floorplan.
//!
//! The drawing is 800 units wide whatever the floorplan's width, with a
//! margin of 5 units on each side. Scaled lengths are rounded to the
//! nearest whole number, a tie going to the even one.

use vstd::prelude::*;
use vstd::arithmetic::div_mod::lemma_fundamental_div_mod;
use vstd::string::StringExecFns;
use crate::format::Format;
use crate::layout::{Element, Rectangle, rectangles};
use crate::result::Error;
use crate::text::{append_decimal, decimal};

verus! {

/// The margin around the drawing.
pub const MARGIN: u64 = 5;

/// The width of the drawing without its margins.
pub const WIDTH: u64 = 800;

/// The whole number nearest to `num / den`, a tie going to the even one.
pub open spec fn nearest_ties_even(num: nat, den: nat) -> nat
    recommends
        den > 0,
{
    let q = num / den;
    let r = num % den;
    if 2 * r < den || (2 * r == den && q % 2 == 0) {
        q
    } else {
        q + 1
    }
}

/// The least left edge of the elements.
pub open spec fn least_left(s: Seq<Rectangle>) -> nat
    decreases s.len(),
{
    if s.len() == 0 {
        0
    } else if s.len() == 1 {
        s[0].position.0
    } else if s.last().position.0 < least_left(s.drop_last()) {
        s.last().position.0
    } else {
        least_left(s.drop_last())
    }
}

/// The least bottom edge of the elements.
pub open spec fn least_bottom(s: Seq<Rectangle>) -> nat
    decreases s.len(),
{
    if s.len() == 0 {
        0
    } else if s.len() == 1 {
        s[0].position.1
    } else if s.last().position.1 < least_bottom(s.drop_last()) {
        s.last().position.1
    } else {
        least_bottom(s.drop_last())
    }
}

/// The greatest right edge of the elements.
pub open spec fn greatest_right(s: Seq<Rectangle>) -> nat
    decreases s.len(),
{
    if s.len() == 0 {
        0
    } else if s.len() == 1 {
        s[0].right()
    } else if s.last().right() > greatest_right(s.drop_last()) {
        s.last().right()
    } else {
        greatest_right(s.drop_last())
    }
}

/// The greatest top edge of the elements.
pub open spec fn greatest_top(s: Seq<Rectangle>) -> nat
    decreases s.len(),
{
    if s.len() == 0 {
        0
    } else if s.len() == 1 {
        s[0].top()
    } else if s.last().top() > greatest_top(s.drop_last()) {
        s.last().top()
    } else {
        greatest_top(s.drop_last())
    }
}

/// The bounding box of a floorplan.
pub struct Frame {
    /// The least left edge.
    pub left: nat,
    /// The least bottom edge.
    pub bottom: nat,
    /// The greatest right edge.
    pub right: nat,
    /// The greatest top edge.
    pub top: nat,
}

impl Frame {
    /// The bounding box of the elements.
    pub open spec fn of(s: Seq<Rectangle>) -> Frame {
        Frame {
            left: least_left(s),
            bottom: least_bottom(s),
            right: greatest_right(s),
            top: greatest_top(s),
        }
    }

    /// The width of the box.
    pub open spec fn width(self) -> nat {
        (self.right - self.left) as nat
    }

    /// The height of the box.
    pub open spec fn height(self) -> nat {
        (self.top - self.bottom) as nat
    }

    /// A length of the floorplan in the units of the drawing: multiplied by
    /// `WIDTH / width`, moved by `shift`, and rounded.
    pub open spec fn scaled(self, shift: nat, length: nat) -> nat {
        nearest_ties_even(shift * self.width() + WIDTH as nat * length, self.width())
    }

    /// The height of the document: that of the drawing and two margins.
    pub open spec fn document_height(self) -> nat {
        self.scaled(2 * MARGIN as nat, self.height())
    }

    /// Where the drawing puts a rectangle of the floorplan.
    pub open spec fn drawn(self, r: Rectangle) -> Rectangle {
        Rectangle {
            name: r.name,
            position: (
                self.scaled(MARGIN as nat, (r.position.0 - self.left) as nat),
                self.scaled(MARGIN as nat, (r.position.1 - self.bottom) as nat),
            ),
            dimension: (self.scaled(0, r.dimension.0), self.scaled(0, r.dimension.1)),
        }
    }
}

/// The primitive of one drawn rectangle.
pub open spec fn primitive(r: Rectangle) -> Seq<char> {
    "<rect id=\""@ + r.name + "\" x=\""@ + decimal(r.position.0) + "\" y=\""@ + decimal(
        r.position.1,
    ) + "\" width=\""@ + decimal(r.dimension.0) + "\" height=\""@ + decimal(r.dimension.1)
        + "\" />"@
}

/// The primitives of the elements in their order, one to a line.
pub open spec fn primitives(f: Frame, s: Seq<Rectangle>) -> Seq<char>
    decreases s.len(),
{
    if s.len() == 0 {
        Seq::empty()
    } else if s.len() == 1 {
        primitive(f.drawn(s[0]))
    } else {
        primitives(f, s.drop_last()) + "\n    "@ + primitive(f.drawn(s.last()))
    }
}

/// The whole document.
pub open spec fn document(s: Seq<Rectangle>) -> Seq<char> {
    let f = Frame::of(s);
    "<svg xmlns=\"http://www.w3.org/2000/svg\" version=\"1.1\" width=\""@ + decimal(
        (WIDTH + 2 * MARGIN) as nat,
    ) + "\" height=\""@ + decimal(f.document_height())
        + "\">\n  <style type=\"text/css\">\n    rect {\n        fill: none;\n        stroke: black;\n        stroke-width: 2;\n    }\n    rect[id^=\"Core\"] {\n        fill: #0071bc;\n    }\n    rect[id^=\"L3\"] {\n        fill: #ecb01f;\n    }\n  </style>\n  <g transform=\"translate(0, "@
        + decimal(f.document_height()) + ") scale(1, -1)\">\n    "@ + primitives(f, s)
        + "\n  </g>\n</svg>\n"@
}

/// A bounding box in machine integers.
struct Bounds {
    left: u128,
    bottom: u128,
    right: u128,
    top: u128,
}

impl View for Bounds {
    type V = Frame;

    closed spec fn view(&self) -> Frame {
        Frame {
            left: self.left as nat,
            bottom: self.bottom as nat,
            right: self.right as nat,
            top: self.top as nat,
        }
    }
}

impl Bounds {
    /// The box lies within twice the range of a coordinate and is not
    /// inside out.
    closed spec fn sound(&self) -> bool {
        &&& self.left <= self.right <= 0x2_0000_0000_0000_0000
        &&& self.bottom <= self.top <= 0x2_0000_0000_0000_0000
    }
}

/// Round `num / den` to the nearest whole number, a tie going to the even
/// one.
fn round_ties_even(num: u128, den: u128) -> (n: u128)
    requires
        den > 0,
        num <= 0x1_0000_0000_0000_0000_0000_0000,
        den <= 0x1_0000_0000_0000_0000_0000_0000,
    ensures
        n == nearest_ties_even(num as nat, den as nat),
{
    let q: u128 = num / den;
    let r: u128 = num % den;
    if 2 * r < den || (2 * r == den && q % 2 == 0) {
        q
    } else {
        q + 1
    }
}

/// Scale a length to the units of the drawing.
fn scale(b: &Bounds, shift: u64, length: u128) -> (n: u128)
    requires
        b.sound(),
        b@.width() > 0,
        shift <= 10,
        length <= 0x2_0000_0000_0000_0000,
    ensures
        n == b@.scaled(shift as nat, length as nat),
{
    let width: u128 = b.right - b.left;
    assert(shift * width <= 10 * 0x2_0000_0000_0000_0000) by (nonlinear_arith)
        requires
            shift <= 10,
            width <= 0x2_0000_0000_0000_0000,
    ;
    assert(WIDTH * length <= 800 * 0x2_0000_0000_0000_0000) by (nonlinear_arith)
        requires
            WIDTH == 800,
            length <= 0x2_0000_0000_0000_0000,
    ;
    round_ties_even(shift as u128 * width + WIDTH as u128 * length, width)
}

/// The bounding box of a floorplan that is not empty.
fn bounds(elements: &[Element]) -> (b: Bounds)
    requires
        elements@.len() > 0,
    ensures
        b.sound(),
        b@ == Frame::of(rectangles(elements@)),
{
    let ghost all = rectangles(elements@);
    let mut b = Bounds {
        left: elements[0].position.0 as u128,
        bottom: elements[0].position.1 as u128,
        right: elements[0].position.0 as u128 + elements[0].dimension.0 as u128,
        top: elements[0].position.1 as u128 + elements[0].dimension.1 as u128,
    };
    let mut n: usize = 1;
    assert(all.take(1)[0] == elements[0]@);
    while n < elements.len()
        invariant
            1 <= n <= elements.len(),
            all == rectangles(elements@),
            b.sound(),
            b@ == Frame::of(all.take(n as int)),
        decreases elements.len() - n,
    {
        proof {
            assert(all.take(n + 1).drop_last() =~= all.take(n as int));
            assert(all.take(n + 1).last() == elements[n as int]@);
        }
        let x: u128 = elements[n].position.0 as u128;
        let y: u128 = elements[n].position.1 as u128;
        let right: u128 = x + elements[n].dimension.0 as u128;
        let top: u128 = y + elements[n].dimension.1 as u128;
        if x < b.left {
            b.left = x;
        }
        if y < b.bottom {
            b.bottom = y;
        }
        if right > b.right {
            b.right = right;
        }
        if top > b.top {
            b.top = top;
        }
        n += 1;
    }
    assert(all.take(n as int) =~= all);
    b
}

/// Each element lies within the bounding box.
pub proof fn lemma_frame_bounds(s: Seq<Rectangle>, i: int)
    requires
        0 <= i < s.len(),
    ensures
        Frame::of(s).left <= s[i].position.0,
        Frame::of(s).bottom <= s[i].position.1,
        s[i].right() <= Frame::of(s).right,
        s[i].top() <= Frame::of(s).top,
    decreases s.len(),
{
    if s.len() > 1 && i < s.len() - 1 {
        lemma_frame_bounds(s.drop_last(), i);
    }
}

/// The nearest whole number lies within half a unit of the quotient.
pub proof fn lemma_nearest_ties_even_is_nearest(num: nat, den: nat)
    requires
        den > 0,
    ensures
        2 * num - den <= 2 * (nearest_ties_even(num, den) * den) <= 2 * num + den,
{
    let q = num / den;
    let r = num % den;
    lemma_fundamental_div_mod(num as int, den as int);
    assert((q + 1) * den == den * q + den) by (nonlinear_arith);
    assert(q * den == den * q) by (nonlinear_arith);
}

/// Adding a whole number of units before rounding adds it after rounding,
/// if the number is even.
proof fn lemma_nearest_ties_even_shift(shift: nat, num: nat, den: nat)
    requires
        den > 0,
        shift % 2 == 0,
    ensures
        nearest_ties_even(shift * den + num, den) == shift + nearest_ties_even(num, den),
{
    let q = num / den;
    let r = num % den;
    lemma_fundamental_div_mod(num as int, den as int);
    assert(shift * den + num == (shift + q) * den + r) by (nonlinear_arith)
        requires
            num == den * q + r,
    ;
    vstd::arithmetic::div_mod::lemma_fundamental_div_mod_converse(
        (shift * den + num) as int,
        den as int,
        (shift + q) as int,
        r as int,
    );
}

/// The height of the document is that of the bounding box, multiplied by
/// `WIDTH` over the width of the box and rounded, and two margins.
pub proof fn lemma_document_height(s: Seq<Rectangle>)
    requires
        Frame::of(s).width() > 0,
    ensures
        Frame::of(s).document_height() == Frame::of(s).scaled(0, Frame::of(s).height()) + 2
            * MARGIN,
        Frame::of(s).scaled(0, Frame::of(s).height()) == nearest_ties_even(
            WIDTH as nat * Frame::of(s).height(),
            Frame::of(s).width(),
        ),
        2 * (WIDTH * Frame::of(s).height()) - Frame::of(s).width() <= 2 * (Frame::of(s).scaled(
            0,
            Frame::of(s).height(),
        ) * Frame::of(s).width()) <= 2 * (WIDTH * Frame::of(s).height()) + Frame::of(s).width(),
{
    let f = Frame::of(s);
    let num = WIDTH as nat * f.height();
    assert(0 * f.width() + num == num) by (nonlinear_arith);
    lemma_nearest_ties_even_shift(2 * MARGIN as nat, num, f.width());
    lemma_nearest_ties_even_is_nearest(num, f.width());
}

/// Every rectangle is drawn between the two margins: its left edge is at
/// least `MARGIN` and at most `MARGIN + WIDTH`.
pub proof fn lemma_drawn_within(s: Seq<Rectangle>, i: int)
    requires
        0 <= i < s.len(),
        Frame::of(s).width() > 0,
    ensures
        MARGIN <= Frame::of(s).drawn(s[i]).position.0 <= MARGIN + WIDTH,
{
    let f = Frame::of(s);
    lemma_frame_bounds(s, i);
    let w = f.width();
    let d = (s[i].position.0 - f.left) as nat;
    assert(d <= w);
    let num = MARGIN as nat * w + WIDTH as nat * d;
    let q = num / w;
    let r = num % w;
    lemma_fundamental_div_mod(num as int, w as int);
    assert(5 * w <= num <= 805 * w) by (nonlinear_arith)
        requires
            num == 5 * w + 800 * d,
            d <= w,
    ;
    assert(q >= 5) by (nonlinear_arith)
        requires
            num == w * q + r,
            r < w,
            5 * w <= num,
    ;
    assert(q <= 805 && (q == 805 ==> r == 0)) by (nonlinear_arith)
        requires
            num == w * q + r,
            0 <= r,
            w > 0,
            num <= 805 * w,
    ;
}

/// Append the primitive of one element.
fn append_primitive(text: &mut String, element: &Element, b: &Bounds)
    requires
        b.sound(),
        b@.width() > 0,
        b@.left <= element@.position.0,
        b@.bottom <= element@.position.1,
    ensures
        final(text)@ == old(text)@ + primitive(b@.drawn(element@)),
{
    let x: u128 = scale(b, MARGIN, element.position.0 as u128 - b.left);
    let y: u128 = scale(b, MARGIN, element.position.1 as u128 - b.bottom);
    let width: u128 = scale(b, 0, element.dimension.0 as u128);
    let height: u128 = scale(b, 0, element.dimension.1 as u128);
    let mut line = String::from_str("<rect id=\"");
    line.append(element.name.as_str());
    line.append("\" x=\"");
    append_decimal(&mut line, x);
    line.append("\" y=\"");
    append_decimal(&mut line, y);
    line.append("\" width=\"");
    append_decimal(&mut line, width);
    line.append("\" height=\"");
    append_decimal(&mut line, height);
    line.append("\" />");
    text.append(line.as_str());
}

/// The SVG format.
#[derive(Clone, Copy, Debug)]
pub struct SVG;

impl SVG {
    /// Create the format.
    #[inline]
    pub fn new() -> (format: SVG)
        ensures
            format == SVG,
    {
        SVG
    }
}

impl Format for SVG {
    /// A floorplan of some width is drawn; one without elements or without
    /// width has no scale and is refused.
    open spec fn rendering(&self, elements: Seq<Rectangle>) -> Result<Seq<char>, Error> {
        if elements.len() == 0 || Frame::of(elements).width() == 0 {
            Err(Error::Precondition)
        } else {
            Ok(document(elements))
        }
    }

    fn write(&self, elements: &[Element], writer: &mut String) -> (result: Result<(), Error>) {
        if elements.len() == 0 {
            return Err(Error::Precondition);
        }
        let b: Bounds = bounds(elements);
        if b.right - b.left == 0 {
            return Err(Error::Precondition);
        }
        let ghost all = rectangles(elements@);
        let height: u128 = scale(&b, 2 * MARGIN, b.top - b.bottom);

        let mut body = String::new();
        let mut n: usize = 0;
        while n < elements.len()
            invariant
                n <= elements.len(),
                all == rectangles(elements@),
                b.sound(),
                b@.width() > 0,
                b@ == Frame::of(all),
                body@ == primitives(b@, all.take(n as int)),
            decreases elements.len() - n,
        {
            proof {
                assert(all.take(n + 1).drop_last() =~= all.take(n as int));
                assert(all.take(n + 1).last() == elements[n as int]@);
                assert(all[n as int] == elements[n as int]@);
                lemma_frame_bounds(all, n as int);
            }
            if n > 0 {
                body.append("\n    ");
            } else {
                assert(body@ + primitive(b@.drawn(elements[n as int]@)) =~= primitive(
                    b@.drawn(elements[n as int]@),
                ));
            }
            append_primitive(&mut body, &elements[n], &b);
            n += 1;
        }
        assert(all.take(n as int) =~= all);

        let mut text = String::from_str(
            "<svg xmlns=\"http://www.w3.org/2000/svg\" version=\"1.1\" width=\"",
        );
        append_decimal(&mut text, (WIDTH + 2 * MARGIN) as u128);
        text.append("\" height=\"");
        append_decimal(&mut text, height);
        text.append(
            "\">\n  <style type=\"text/css\">\n    rect {\n        fill: none;\n        stroke: black;\n        stroke-width: 2;\n    }\n    rect[id^=\"Core\"] {\n        fill: #0071bc;\n    }\n    rect[id^=\"L3\"] {\n        fill: #ecb01f;\n    }\n  </style>\n  <g transform=\"translate(0, ",
        );
        append_decimal(&mut text, height);
        text.append(") scale(1, -1)\">\n    ");
        text.append(body.as_str());
        text.append("\n  </g>\n</svg>\n");
        writer.append(text.as_str());
        Ok(())
    }
}

} // verus!
