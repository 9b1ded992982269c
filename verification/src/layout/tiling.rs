//! The tiling: a road of L3 caches with sidewalks of cores.
//!
//! Eight cores make a block: a row of four below, a row of four above, and
//! between the rows two L3 caches, each as wide as the block. The blocks
//! stand side by side.

use vstd::prelude::*;
use crate::layout::{Configuration, Rectangle};
use crate::rounding::{
    even_up, is_nearest_half_root, lemma_nearest_half_root_exists, nearest_half_root,
    nearest_quotient,
};
use crate::text::{decimal, lemma_decimal_injective};

verus! {

/// The number of cores that share one L3 cache.
pub const CORES_PER_L3: usize = 4;

/// The width of a core: the side of a rectangle of the core's area that is
/// twice as high as wide, rounded.
pub open spec fn core_width(c: &Configuration) -> nat {
    even_up(nearest_half_root(c.core_area as nat))
}

/// The height of a core: the core's area over its width, rounded.
pub open spec fn core_height(c: &Configuration) -> nat {
    even_up(nearest_quotient(c.core_area as nat, core_width(c)))
}

/// The width of an L3 cache: that of the cores that share it.
pub open spec fn l3_width(c: &Configuration) -> nat {
    even_up(CORES_PER_L3 as nat * core_width(c))
}

/// The height of an L3 cache: the cache's area over its width, rounded.
pub open spec fn l3_height(c: &Configuration) -> nat {
    even_up(nearest_quotient(c.l3_area as nat, l3_width(c)))
}

/// The `k`-th core. Eight cores in a row of four below and a row of four
/// above make a block; the blocks stand side by side.
pub open spec fn core_tile(c: &Configuration, k: nat) -> Rectangle {
    let l = k / 8;
    let i = k % 8 % 4 + l * 4;
    let j = k % 8 / 4;
    Rectangle {
        name: "Core"@ + decimal(k),
        position: (i * core_width(c), j * (core_height(c) + 2 * l3_height(c))),
        dimension: (core_width(c), core_height(c)),
    }
}

/// The L3 cache of the given index. The caches of a block lie between its
/// two rows of cores, the even one below the odd one.
pub open spec fn l3_tile(c: &Configuration, index: nat) -> Rectangle {
    let l = index / 2;
    Rectangle {
        name: "L3"@ + decimal(index),
        position: (l * l3_width(c), core_height(c) + (index % 2) * l3_height(c)),
        dimension: (l3_width(c), l3_height(c)),
    }
}

/// Whether a place holds an L3 cache.
pub open spec fn holds_l3(place: nat) -> bool {
    place % 10 == 4 || place % 10 == 5
}

/// The number of the core or the index of the L3 cache in a place.
pub open spec fn occupant(place: nat) -> nat {
    let block = place / 10;
    let within = place % 10;
    if within < 4 {
        8 * block + within
    } else if within < 6 {
        (2 * block + within - 4) as nat
    } else {
        (8 * block + within - 2) as nat
    }
}

/// The element in the given place of the sequence. A block takes ten
/// places: its lower cores, its two caches, its upper cores.
pub open spec fn placed(c: &Configuration, place: nat) -> Rectangle {
    if holds_l3(place) {
        l3_tile(c, occupant(place))
    } else {
        core_tile(c, occupant(place))
    }
}

/// The number of elements for `n` cores.
pub open spec fn places(n: nat) -> nat {
    n + n / 4
}

/// The place of the `k`-th core.
pub open spec fn core_place(k: nat) -> nat {
    if k % 8 < 4 {
        10 * (k / 8) + k % 8
    } else {
        10 * (k / 8) + k % 8 + 2
    }
}

/// The place of the L3 cache of the given index.
pub open spec fn l3_place(index: nat) -> nat {
    10 * (index / 2) + 4 + index % 2
}

/// The whole sequence for a valid configuration.
pub open spec fn tiling(c: &Configuration) -> Seq<Rectangle> {
    Seq::new(places(c.core_count as nat), |place: int| placed(c, place as nat))
}

/// The width of the whole tiling.
pub open spec fn span(c: &Configuration) -> nat {
    (c.core_count as nat + 4) / 8 * l3_width(c)
}

/// The number of elements in place before the `k`-th core is handled: the
/// upper cache of a block comes just before the first upper core.
pub open spec fn places_before(k: nat) -> nat {
    if k % 8 == 4 {
        (core_place(k) - 1) as nat
    } else {
        core_place(k)
    }
}

/// Each core stands in its place.
pub proof fn lemma_core_in_place(c: &Configuration, k: nat)
    ensures
        placed(c, core_place(k)) == core_tile(c, k),
{
    let place = core_place(k);
    assert(place / 10 == k / 8);
    assert(place % 10 == if k % 8 < 4 { k % 8 } else { k % 8 + 2 });
}

/// Each L3 cache stands in its place.
pub proof fn lemma_l3_in_place(c: &Configuration, index: nat)
    ensures
        placed(c, l3_place(index)) == l3_tile(c, index),
{
    let place = l3_place(index);
    assert(place / 10 == index / 2);
    assert(place % 10 == 4 + index % 2);
}

/// How the sequence grows when the `k`-th core is handled: the core goes
/// to its place, after the upper cache of its block if it is the first of
/// the upper row, and before the lower cache if it is the last of the
/// lower row.
pub proof fn lemma_places_advance(c: &Configuration, k: nat)
    ensures
        placed(c, core_place(k)) == core_tile(c, k),
        k % 8 == 4 ==> places_before(k) + 1 == core_place(k) && placed(c, places_before(k))
            == l3_tile(c, 2 * (k / 8) + 1),
        k % 8 != 4 ==> places_before(k) == core_place(k),
        k % 8 == 3 ==> places_before(k + 1) == core_place(k) + 2 && placed(c, core_place(k) + 1)
            == l3_tile(c, 2 * (k / 8)),
        k % 8 != 3 ==> places_before(k + 1) == core_place(k) + 1,
{
    let block = k / 8;
    let within = k % 8;
    assert(k == 8 * block + within);
    lemma_core_in_place(c, k);
    if within == 3 {
        lemma_l3_in_place(c, 2 * block);
        assert((k + 1) / 8 == block && (k + 1) % 8 == 4);
        assert(l3_place(2 * block) == 10 * block + 4);
    } else if within == 4 {
        lemma_l3_in_place(c, 2 * block + 1);
        assert((k + 1) / 8 == block && (k + 1) % 8 == 5);
        assert(l3_place(2 * block + 1) == 10 * block + 5);
    } else if within == 7 {
        assert((k + 1) / 8 == block + 1 && (k + 1) % 8 == 0);
    } else {
        assert((k + 1) / 8 == block && (k + 1) % 8 == within + 1);
    }
}

/// The first core of an upper row and the last core of a lower row, told
/// by column and row.
pub proof fn lemma_row_ends(k: nat)
    ensures
        ((k % 8 % 4 + k / 8 * 4) % 4 == 0 && k % 8 / 4 == 1) == (k % 8 == 4),
        ((k % 8 % 4 + k / 8 * 4) % 4 == 3 && k % 8 / 4 == 0) == (k % 8 == 3),
{
}

/// With all cores handled the sequence is complete.
pub proof fn lemma_places_complete(n: nat)
    requires
        n % 4 == 0,
    ensures
        places_before(n) == places(n),
{
}

/// A quotient below a product bound: if `x < d * m` then `x / d < m`.
pub proof fn lemma_quotient_below(x: nat, d: nat, m: nat)
    requires
        d > 0,
        x < d * m,
    ensures
        x / d < m,
{
    assert(x / d < m) by (nonlinear_arith)
        requires
            d > 0,
            x < d * m,
    ;
}

/// A quotient above a product bound: if `d * m <= x` then `m <= x / d`.
pub proof fn lemma_quotient_above(x: nat, d: nat, m: nat)
    requires
        d > 0,
        d * m <= x,
    ensures
        m <= x / d,
{
    assert(m <= x / d) by (nonlinear_arith)
        requires
            d > 0,
            d * m <= x,
    ;
}

/// A core is about twice as high as wide: the rounded quotient of the area
/// by the width is at most two units above twice the width.
pub proof fn lemma_core_quotient_bound(a: nat, r: nat, w: nat)
    requires
        is_nearest_half_root(a, r),
        r <= w <= r + 1,
        w > 0,
    ensures
        nearest_quotient(a, w) <= 2 * w + 2,
{
    assert((2 * r + 1) * (2 * r + 1) <= (2 * w + 1) * (2 * w + 1)) by (nonlinear_arith)
        requires
            r <= w,
    ;
    assert(2 * a + w < (2 * w) * (2 * w + 3)) by (nonlinear_arith)
        requires
            2 * a < (2 * w + 1) * (2 * w + 1),
            w > 0,
    ;
    lemma_quotient_below(2 * a + w, 2 * w, 2 * w + 3);
}

/// A cache at least eight units wide is at most an eighth of its area high,
/// and one unit.
pub proof fn lemma_l3_quotient_bound(a: nat, w: nat)
    requires
        w >= 8,
    ensures
        nearest_quotient(a, w) <= a / 8 + 1,
{
    let q = nearest_quotient(a, w);
    assert(q * (2 * w) <= 2 * a + w) by (nonlinear_arith)
        requires
            q == (2 * a + w) / (2 * w),
            w > 0,
    ;
    if q >= 1 {
        assert(8 * (2 * q - 1) <= 2 * a) by (nonlinear_arith)
            requires
                q * (2 * w) <= 2 * a + w,
                w >= 8,
                q >= 1,
        ;
    }
}

/// The places and the tiles match one to one. For a number of cores that
/// is a multiple of four, the tiling holds every core once, one L3 cache
/// for every four cores, and nothing else.
pub proof fn lemma_tiling_census(c: &Configuration)
    requires
        c.core_count % 4 == 0,
    ensures
        tiling(c).len() == c.core_count + c.core_count / 4,
        forall|k: nat|
            k < c.core_count ==> #[trigger] core_place(k) < tiling(c).len() && !holds_l3(
                core_place(k),
            ) && occupant(core_place(k)) == k && tiling(c)[core_place(k) as int] == core_tile(
                c,
                k,
            ),
        forall|x: nat|
            x < c.core_count / 4 ==> #[trigger] l3_place(x) < tiling(c).len() && holds_l3(
                l3_place(x),
            ) && occupant(l3_place(x)) == x && tiling(c)[l3_place(x) as int] == l3_tile(c, x),
        forall|p: nat|
            p < tiling(c).len() ==> if holds_l3(p) {
                #[trigger] occupant(p) < c.core_count / 4 && l3_place(occupant(p)) == p
            } else {
                occupant(p) < c.core_count && core_place(occupant(p)) == p
            },
{
    let n = c.core_count as nat;
    assert forall|k: nat| k < n implies #[trigger] core_place(k) < tiling(c).len() && !holds_l3(
        core_place(k),
    ) && occupant(core_place(k)) == k && tiling(c)[core_place(k) as int] == core_tile(c, k) by {
        lemma_core_in_place(c, k);
        lemma_core_slot(n, k);
    }
    assert forall|x: nat| x < n / 4 implies #[trigger] l3_place(x) < tiling(c).len() && holds_l3(
        l3_place(x),
    ) && occupant(l3_place(x)) == x && tiling(c)[l3_place(x) as int] == l3_tile(c, x) by {
        lemma_l3_in_place(c, x);
        lemma_l3_slot(n, x);
    }
    assert forall|p: nat| p < tiling(c).len() implies if holds_l3(p) {
        #[trigger] occupant(p) < n / 4 && l3_place(occupant(p)) == p
    } else {
        occupant(p) < n && core_place(occupant(p)) == p
    } by {
        lemma_slot_occupied(n, p);
    }
}

/// The place of a core lies within the tiling and holds that core.
proof fn lemma_core_slot(n: nat, k: nat)
    requires
        n % 4 == 0,
        k < n,
    ensures
        core_place(k) < places(n),
        !holds_l3(core_place(k)),
        occupant(core_place(k)) == k,
{
    let block = k / 8;
    let within = k % 8;
    assert(k == 8 * block + within);
    let place = core_place(k);
    assert(place / 10 == block);
    assert(place % 10 == if within < 4 { within } else { within + 2 });
}

/// The place of an L3 cache lies within the tiling and holds that cache.
proof fn lemma_l3_slot(n: nat, x: nat)
    requires
        n % 4 == 0,
        x < n / 4,
    ensures
        l3_place(x) < places(n),
        holds_l3(l3_place(x)),
        occupant(l3_place(x)) == x,
{
    let block = x / 2;
    let within = x % 2;
    assert(x == 2 * block + within);
    let place = l3_place(x);
    assert(place / 10 == block);
    assert(place % 10 == 4 + within);
}

/// Each place of the tiling holds a core or an L3 cache of the tiling.
proof fn lemma_slot_occupied(n: nat, p: nat)
    requires
        n % 4 == 0,
        p < places(n),
    ensures
        holds_l3(p) ==> occupant(p) < n / 4 && l3_place(occupant(p)) == p,
        !holds_l3(p) ==> occupant(p) < n && core_place(occupant(p)) == p,
{
    let block = p / 10;
    let within = p % 10;
    assert(p == 10 * block + within);
    let m = n / 4;
    assert(n == 4 * m);
    let o = occupant(p);
    if within < 4 {
        assert(o == 8 * block + within);
        assert(o / 8 == block && o % 8 == within);
    } else if within < 6 {
        assert(o == 2 * block + within - 4);
        assert(o / 2 == block && o % 2 == within - 4);
    } else {
        assert(o == 8 * block + within - 2);
        assert(o / 8 == block && o % 8 == within - 2);
    }
}

/// The row of a place, from the bottom: lower cores, lower caches, upper
/// caches, upper cores.
spec fn row(place: nat) -> nat {
    let within = place % 10;
    if within < 4 {
        0
    } else if within == 4 {
        1
    } else if within == 5 {
        2
    } else {
        3
    }
}

/// The column of a place within its row.
spec fn column(place: nat) -> nat {
    let block = place / 10;
    let within = place % 10;
    if within < 4 {
        4 * block + within
    } else if within < 6 {
        block
    } else {
        (4 * block + within - 6) as nat
    }
}

/// Where the rectangle of a place lies, by row and column.
proof fn lemma_place_geometry(c: &Configuration, place: nat)
    ensures
        row(place) == 0 || row(place) == 3 ==> placed(c, place).dimension == (
            core_width(c),
            core_height(c),
        ) && placed(c, place).position.0 == column(place) * core_width(c),
        row(place) == 1 || row(place) == 2 ==> placed(c, place).dimension == (
            l3_width(c),
            l3_height(c),
        ) && placed(c, place).position.0 == column(place) * l3_width(c),
        row(place) == 0 ==> placed(c, place).position.1 == 0,
        row(place) == 1 ==> placed(c, place).position.1 == core_height(c),
        row(place) == 2 ==> placed(c, place).position.1 == core_height(c) + l3_height(c),
        row(place) == 3 ==> placed(c, place).position.1 == core_height(c) + 2 * l3_height(c),
{
    let block = place / 10;
    let within = place % 10;
    let step = core_height(c) + 2 * l3_height(c);
    assert(0 * step == 0 && 1 * step == step) by (nonlinear_arith);
    assert(0 * l3_height(c) == 0 && 1 * l3_height(c) == l3_height(c)) by (nonlinear_arith);
    if within < 4 {
        let k = 8 * block + within;
        assert(k / 8 == block && k % 8 == within);
    } else if within < 6 {
        let x = (2 * block + within - 4) as nat;
        assert(x / 2 == block && x % 2 == within - 4);
    } else {
        let k = (8 * block + within - 2) as nat;
        assert(k / 8 == block && k % 8 == within - 2);
    }
}

/// Two columns of one width do not meet.
proof fn lemma_columns_apart(i: nat, j: nat, w: nat)
    requires
        i < j,
    ensures
        i * w + w <= j * w,
{
    assert(i * w + w <= j * w) by (nonlinear_arith)
        requires
            i + 1 <= j,
    ;
}

/// No two elements of a tiling overlap.
pub proof fn lemma_tiles_disjoint(c: &Configuration, p: nat, q: nat)
    requires
        p < tiling(c).len(),
        q < tiling(c).len(),
        p != q,
    ensures
        !tiling(c)[p as int].overlaps(tiling(c)[q as int]),
{
    lemma_place_geometry(c, p);
    lemma_place_geometry(c, q);
    if row(p) == row(q) {
        assert(column(p) != column(q)) by {
            assert(p == 10 * (p / 10) + p % 10);
            assert(q == 10 * (q / 10) + q % 10);
        }
        let w = placed(c, p).dimension.0;
        if column(p) < column(q) {
            lemma_columns_apart(column(p), column(q), w);
        } else {
            lemma_columns_apart(column(q), column(p), w);
        }
    }
}

/// A core of positive area is at least two resolution units wide.
pub proof fn lemma_core_width_positive(c: &Configuration)
    requires
        c.core_area > 0,
    ensures
        core_width(c) >= 2,
{
    let r = nearest_half_root(c.core_area as nat);
    lemma_nearest_half_root_exists(c.core_area as nat);
    if r == 0 {
        assert((2 * r + 1) * (2 * r + 1) == 1) by (nonlinear_arith)
            requires
                r == 0,
        ;
    }
}

/// Every length of a tiling is an even number of resolution units.
pub proof fn lemma_sizes_even(c: &Configuration)
    ensures
        core_width(c) % 2 == 0,
        core_height(c) % 2 == 0,
        l3_width(c) % 2 == 0,
        l3_height(c) % 2 == 0,
        l3_width(c) == CORES_PER_L3 * core_width(c),
{
}

/// The width and the height of every element of a tiling are even numbers
/// of resolution units, and a cache is as wide as its four cores.
pub proof fn lemma_tiles_even(c: &Configuration, p: nat)
    requires
        p < tiling(c).len(),
    ensures
        tiling(c)[p as int].dimension.0 % 2 == 0,
        tiling(c)[p as int].dimension.1 % 2 == 0,
        holds_l3(p) ==> tiling(c)[p as int].dimension.0 == CORES_PER_L3 * core_width(c),
{
    lemma_sizes_even(c);
}

/// A core is twice as high as wide up to rounding: its height differs
/// from twice its width by at most six resolution units.
pub proof fn lemma_core_aspect(c: &Configuration)
    requires
        c.core_area > 0,
    ensures
        2 * core_width(c) - 6 <= core_height(c) <= 2 * core_width(c) + 2,
{
    let a = c.core_area as nat;
    let r = nearest_half_root(a);
    lemma_nearest_half_root_exists(a);
    let w = core_width(c);
    if r == 0 {
        assert((2 * r + 1) * (2 * r + 1) == 1) by (nonlinear_arith)
            requires
                r == 0,
        ;
    }
    lemma_core_quotient_bound(a, r, w);
    assert((2 * w - 3) * (2 * w - 3) <= (2 * r - 1) * (2 * r - 1)) by (nonlinear_arith)
        requires
            r <= w <= r + 1,
            w >= 2,
    ;
    if w >= 3 {
        assert((2 * w) * (2 * w - 6) <= 2 * a + w) by (nonlinear_arith)
            requires
                (2 * w - 3) * (2 * w - 3) <= 2 * a,
                w >= 3,
        ;
        lemma_quotient_above(2 * a + w, 2 * w, (2 * w - 6) as nat);
    }
}

/// A core is exactly twice as high as wide where no rounding moves its
/// sides apart: where, for an even `w`, twice the area is at least
/// `4 w^2 - 3 w` and less than `4 w^2 + w`.
pub proof fn lemma_core_aspect_exact(c: &Configuration, w: nat)
    requires
        w >= 2,
        w % 2 == 0,
        4 * w * w - 3 * w <= 2 * c.core_area < 4 * w * w + w,
    ensures
        core_width(c) == w,
        core_height(c) == 2 * w,
{
    let a = c.core_area as nat;
    let r = nearest_half_root(a);
    lemma_nearest_half_root_exists(a);
    if r + 2 <= w {
        assert((2 * r + 1) * (2 * r + 1) <= 4 * w * w - 3 * w) by (nonlinear_arith)
            requires
                r + 2 <= w,
        ;
    }
    if r > w {
        assert((2 * r - 1) * (2 * r - 1) >= 4 * w * w + w) by (nonlinear_arith)
            requires
                r >= w + 1,
        ;
    }
    assert(core_width(c) == w);
    assert((2 * w) * (2 * w - 1) <= 2 * a + w) by (nonlinear_arith)
        requires
            4 * w * w - 3 * w <= 2 * a,
    ;
    assert(2 * a + w < (2 * w) * (2 * w + 1)) by (nonlinear_arith)
        requires
            2 * a < 4 * w * w + w,
    ;
    lemma_quotient_above(2 * a + w, 2 * w, (2 * w - 1) as nat);
    lemma_quotient_below(2 * a + w, 2 * w, 2 * w + 1);
}

/// A core is exactly twice as high as wide nowhere else.
pub proof fn lemma_core_aspect_exact_only(c: &Configuration)
    requires
        c.core_area > 0,
        core_height(c) == 2 * core_width(c),
    ensures
        core_width(c) >= 2,
        core_width(c) % 2 == 0,
        4 * core_width(c) * core_width(c) - 3 * core_width(c) <= 2 * c.core_area < 4 * core_width(
            c,
        ) * core_width(c) + core_width(c),
{
    let a = c.core_area as nat;
    let w = core_width(c);
    let q = nearest_quotient(a, w);
    lemma_core_width_positive(c);
    vstd::arithmetic::div_mod::lemma_fundamental_div_mod((2 * a + w) as int, (2 * w) as int);
    let rest = (2 * a + w) % (2 * w);
    assert(2 * w - 1 <= q <= 2 * w);
    assert(4 * w * w - 3 * w <= 2 * a < 4 * w * w + w) by (nonlinear_arith)
        requires
            2 * a + w == (2 * w) * q + rest,
            0 <= rest < 2 * w,
            2 * w - 1 <= q <= 2 * w,
    ;
}

/// Every element of a tiling is named as a core or as an L3 cache, and is
/// solid where the area of a cache is at least half its width: a smaller
/// cache is rounded to no height.
pub proof fn lemma_tiles_solid(c: &Configuration, p: nat)
    requires
        c.well_formed(),
        p < tiling(c).len(),
    ensures
        "Core"@.is_prefix_of(tiling(c)[p as int].name) || "L3"@.is_prefix_of(
            tiling(c)[p as int].name,
        ),
        !holds_l3(p) || 2 * c.l3_area >= l3_width(c) ==> tiling(c)[p as int].solid(),
{
    let a = c.core_area as nat;
    let r = nearest_half_root(a);
    let w = core_width(c);
    lemma_nearest_half_root_exists(a);
    lemma_core_width_positive(c);
    if r >= 2 {
        assert(r + 1 <= (2 * r - 1) * (2 * r - 1)) by (nonlinear_arith)
            requires
                r >= 2,
        ;
    } else if r == 0 {
        assert((2 * r + 1) * (2 * r + 1) == 1) by (nonlinear_arith)
            requires
                r == 0,
        ;
    }
    assert(w <= 2 * a);
    assert((2 * w) * 1 <= 2 * a + w) by (nonlinear_arith)
        requires
            w <= 2 * a,
    ;
    lemma_quotient_above(2 * a + w, 2 * w, 1);
    if 2 * c.l3_area >= l3_width(c) {
        let v = l3_width(c);
        assert((2 * v) * 1 <= 2 * c.l3_area + v) by (nonlinear_arith)
            requires
                v <= 2 * c.l3_area,
        ;
        lemma_quotient_above((2 * c.l3_area + v) as nat, 2 * v, 1);
    }
    let name = tiling(c)[p as int].name;
    if holds_l3(p) {
        assert("L3"@ =~= name.subrange(0, "L3"@.len() as int));
    } else {
        assert("Core"@ =~= name.subrange(0, "Core"@.len() as int));
    }
}

/// Different cores have different names, different caches too, and no
/// core is named as a cache is.
pub proof fn lemma_names_distinct(c: &Configuration, p: nat, q: nat)
    requires
        p < tiling(c).len(),
        q < tiling(c).len(),
        p != q,
    ensures
        tiling(c)[p as int].name != tiling(c)[q as int].name,
{
    reveal_strlit("Core");
    reveal_strlit("L3");
    let a = placed(c, p).name;
    let b = placed(c, q).name;
    assert(p == 10 * (p / 10) + p % 10);
    assert(q == 10 * (q / 10) + q % 10);
    if holds_l3(p) != holds_l3(q) {
        assert(a[0] != b[0]);
    } else {
        assert(occupant(p) != occupant(q));
        if a == b {
            if holds_l3(p) {
                assert(a.subrange(2, a.len() as int) =~= decimal(occupant(p)));
                assert(b.subrange(2, b.len() as int) =~= decimal(occupant(q)));
            } else {
                assert(a.subrange(4, a.len() as int) =~= decimal(occupant(p)));
                assert(b.subrange(4, b.len() as int) =~= decimal(occupant(q)));
            }
            lemma_decimal_injective(occupant(p), occupant(q));
        }
    }
}

} // verus!
