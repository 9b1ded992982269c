//! The strategy that constructs the tiling.

use vstd::prelude::*;
use vstd::string::StringExecFns;
use crate::layout::tiling::{
    core_height, core_tile, core_width, l3_height, l3_tile, l3_width,
    lemma_core_quotient_bound, lemma_l3_quotient_bound, lemma_places_advance,
    lemma_places_complete, lemma_row_ends, placed, places_before, span, tiling, CORES_PER_L3,
};
use crate::layout::{rectangles, Configuration, Element, Layout, Rectangle};
use crate::result::Error;
use crate::rounding::{round_even, round_half_root, round_quotient};
use crate::text::{append_decimal, decimal};

verus! {

/// A layout strategy that builds a road of L3 caches with sidewalks of cores.
#[derive(Clone, Copy, Debug)]
pub struct Tiles;

/// The name of an element: a label and a number.
fn label(prefix: &str, number: usize) -> (name: String)
    ensures
        name@ == prefix@ + decimal(number as nat),
{
    let mut name = String::from_str(prefix);
    append_decimal(&mut name, number as u128);
    name
}

/// The four lengths of a tiling.
pub struct Sizes {
    /// The width of a core.
    pub core_width: u64,
    /// The height of a core.
    pub core_height: u64,
    /// The width of an L3 cache.
    pub l3_width: u64,
    /// The height of an L3 cache.
    pub l3_height: u64,
}

/// Derive the four lengths from the two areas.
pub fn sizes(c: &Configuration) -> (s: Sizes)
    requires
        c.well_formed(),
    ensures
        s.measures(c),
        2 <= s.core_width <= 0x1_0000_0002,
{
    let root: u64 = round_half_root(c.core_area);
    let core_width: u64 = round_even(root);
    proof {
        if root == 0 {
            assert((2 * root + 1) * (2 * root + 1) == 1) by (nonlinear_arith)
                requires
                    root == 0,
            ;
        }
        lemma_core_quotient_bound(c.core_area as nat, root as nat, core_width as nat);
    }
    let core_height: u64 = round_even(round_quotient(c.core_area, core_width));
    assert(CORES_PER_L3 * core_width == 4 * core_width <= 0x4_0000_0004) by (nonlinear_arith)
        requires
            CORES_PER_L3 == 4,
            core_width <= 0x1_0000_0001,
    ;
    let l3_width: u64 = round_even(CORES_PER_L3 as u64 * core_width);
    proof {
        lemma_l3_quotient_bound(c.l3_area as nat, l3_width as nat);
    }
    let l3_height: u64 = round_even(round_quotient(c.l3_area, l3_width));
    Sizes { core_width, core_height, l3_width, l3_height }
}

impl Sizes {
    /// Whether these are the lengths of the configuration's tiling.
    pub open spec fn measures(&self, c: &Configuration) -> bool {
        &&& self.core_width == core_width(c)
        &&& self.core_height == core_height(c)
        &&& self.l3_width == l3_width(c)
        &&& self.l3_height == l3_height(c)
        &&& self.l3_width == 4 * self.core_width
        &&& self.core_height <= 0x2_0000_0008
        &&& self.l3_height <= 0x2000_0000_0000_0002
    }
}

/// The core of the given number in column `i` and row `j`.
fn core_element(c: &Configuration, s: &Sizes, k: usize, i: usize, j: usize) -> (e: Element)
    requires
        s.measures(c),
        span(c) <= u64::MAX,
        k < c.core_count,
        c.core_count % 4 == 0,
        i == k % 8 % 4 + k / 8 * 4,
        j == k % 8 / 4,
    ensures
        e@ == core_tile(c, k as nat),
{
    proof {
        let l = k / 8;
        assert(l + 1 <= (c.core_count + 4) / 8);
        assert((i + 1) * s.core_width <= (c.core_count as nat + 4) / 8 * s.l3_width)
            by (nonlinear_arith)
            requires
                i + 1 <= 4 * l + 4,
                l + 1 <= (c.core_count as nat + 4) / 8,
                s.l3_width == 4 * s.core_width,
        ;
        assert((i + 1) * s.core_width == i * s.core_width + s.core_width) by (nonlinear_arith);
        assert(j * (s.core_height + 2 * s.l3_height) <= s.core_height + 2 * s.l3_height)
            by (nonlinear_arith)
            requires
                j <= 1,
        ;
    }
    Element {
        name: label("Core", k),
        position: (i as u64 * s.core_width, j as u64 * (s.core_height + 2 * s.l3_height)),
        dimension: (s.core_width, s.core_height),
    }
}

/// The lower (`j` is 0) or upper (`j` is 1) L3 cache of block `l`.
fn l3_element(c: &Configuration, s: &Sizes, l: usize, j: usize) -> (e: Element)
    requires
        s.measures(c),
        span(c) <= u64::MAX,
        l + 1 <= (c.core_count + 4) / 8,
        j <= 1,
    ensures
        e@ == l3_tile(c, (2 * l + j) as nat),
{
    proof {
        assert((l + 1) * s.l3_width <= (c.core_count as nat + 4) / 8 * s.l3_width)
            by (nonlinear_arith)
            requires
                l + 1 <= (c.core_count as nat + 4) / 8,
        ;
        assert((l + 1) * s.l3_width == l * s.l3_width + s.l3_width) by (nonlinear_arith);
        assert(j * s.l3_height <= s.l3_height) by (nonlinear_arith)
            requires
                j <= 1,
        ;
        assert((2 * l + j) / 2 == l && (2 * l + j) % 2 == j);
    }
    Element {
        name: label("L3", 2 * l + j),
        position: (l as u64 * s.l3_width, s.core_height + j as u64 * s.l3_height),
        dimension: (s.l3_width, s.l3_height),
    }
}

impl Tiles {
    /// Create the strategy.
    #[inline]
    pub fn new() -> (tiles: Tiles)
        ensures
            tiles == Tiles,
    {
        Tiles
    }

    /// Whether a configuration can be handed to `construct`: its areas are
    /// positive and its tiling is no wider than a machine integer holds.
    pub fn admits(&self, configuration: &Configuration) -> (ok: bool)
        ensures
            ok == (configuration.well_formed() && self.supports(configuration)),
    {
        if configuration.core_area == 0 || configuration.l3_area == 0 {
            return false;
        }
        let s: Sizes = sizes(configuration);
        let blocks: u128 = (configuration.core_count as u128 + 4) / 8;
        assert(blocks * s.l3_width <= 0x1_0000_0000_0000_0000 * 0x4_0000_0008) by (nonlinear_arith)
            requires
                blocks <= 0x1_0000_0000_0000_0000,
                s.l3_width <= 0x4_0000_0008,
        ;
        blocks * (s.l3_width as u128) <= u64::MAX as u128
    }
}

/// Whether the elements are the first `n` of the configuration's tiling.
pub open spec fn tiled(elements: Seq<Element>, c: &Configuration, n: nat) -> bool {
    &&& elements.len() == n
    &&& forall|p: int| 0 <= p < n ==> (#[trigger] elements[p])@ == placed(c, p as nat)
}

/// Handle the `k`-th core: add it, and with it the L3 cache that it opens
/// or closes.
fn place(elements: &mut Vec<Element>, c: &Configuration, s: &Sizes, k: usize)
    requires
        s.measures(c),
        span(c) <= u64::MAX,
        k < c.core_count,
        c.core_count % 4 == 0,
        tiled(old(elements)@, c, places_before(k as nat)),
    ensures
        tiled(final(elements)@, c, places_before((k + 1) as nat)),
{
    let l: usize = k / (2 * CORES_PER_L3);
    let i: usize = (k % (2 * CORES_PER_L3)) % CORES_PER_L3 + l * CORES_PER_L3;
    let j: usize = (k % (2 * CORES_PER_L3)) / CORES_PER_L3;
    proof {
        lemma_places_advance(c, k as nat);
        lemma_row_ends(k as nat);
    }
    if i % CORES_PER_L3 == 0 && j == 1 {
        elements.push(l3_element(c, s, l, 1));
    }
    elements.push(core_element(c, s, k, i, j));
    if i % CORES_PER_L3 == CORES_PER_L3 - 1 && j == 0 {
        elements.push(l3_element(c, s, l, 0));
    }
}

impl Layout for Tiles {
    /// The tiling is as wide as the L3 caches of its blocks side by side,
    /// and that width is a machine integer.
    open spec fn supports(&self, configuration: &Configuration) -> bool {
        span(configuration) <= u64::MAX
    }

    /// A positive number of cores that is a multiple of four is tiled; any
    /// other number is refused.
    open spec fn arrangement(&self, configuration: &Configuration) -> Result<
        Seq<Rectangle>,
        Error,
    > {
        if configuration.core_count > 0 && configuration.core_count % CORES_PER_L3 == 0 {
            Ok(tiling(configuration))
        } else {
            Err(Error::Configuration)
        }
    }

    fn construct(&self, configuration: &Configuration) -> (result: Result<Vec<Element>, Error>) {
        let core_count: usize = configuration.core_count;
        if core_count == 0 || core_count % CORES_PER_L3 != 0 {
            return Err(Error::Configuration);
        }
        let s: Sizes = sizes(configuration);
        let mut elements: Vec<Element> = Vec::new();
        let mut k: usize = 0;
        while k < core_count
            invariant
                k <= core_count,
                core_count == configuration.core_count,
                core_count % 4 == 0,
                span(configuration) <= u64::MAX,
                s.measures(configuration),
                tiled(elements@, configuration, places_before(k as nat)),
            decreases core_count - k,
        {
            place(&mut elements, configuration, &s, k);
            k += 1;
        }
        proof {
            lemma_places_complete(core_count as nat);
        }
        assert(rectangles(elements@) =~= tiling(configuration));
        Ok(elements)
    }
}

} // verus!
