//! Rectangular regions of visual change.
//!
//! A region is `[x, y, width, height]` in pixels. Changed cells of an 8x8
//! grid over a pixel mask become regions, and overlapping or touching
//! regions are merged into their bounding boxes.

use vstd::prelude::*;

verus! {

pub open spec fn right(r: [u32; 4]) -> int {
    r[0] + r[2]
}

pub open spec fn bottom(r: [u32; 4]) -> int {
    r[1] + r[3]
}

/// Overlap or touch: the closed boxes intersect.
pub open spec fn adjacent(a: [u32; 4], b: [u32; 4]) -> bool {
    a[0] <= right(b) && right(a) >= b[0] && a[1] <= bottom(b) && bottom(a) >= b[1]
}

/// The edge sums that `regions_adjacent` evaluates, in evaluation order,
/// fit in `u32`.
pub open spec fn adjacent_defined(a: [u32; 4], b: [u32; 4]) -> bool {
    right(b) <= u32::MAX && (a[0] <= right(b) ==> (right(a) <= u32::MAX && (right(a) >= b[0] ==> (
    bottom(b) <= u32::MAX && (a[1] <= bottom(b) ==> bottom(a) <= u32::MAX)))))
}

/// The right and bottom edges of the region fit in `u32`.
pub open spec fn fits(r: [u32; 4]) -> bool {
    right(r) <= u32::MAX && bottom(r) <= u32::MAX
}

/// `inner` lies within `outer`.
pub open spec fn contains(outer: [u32; 4], inner: [u32; 4]) -> bool {
    outer[0] <= inner[0] && right(inner) <= right(outer) && outer[1] <= inner[1] && bottom(inner)
        <= bottom(outer)
}

pub open spec fn imin(a: int, b: int) -> int {
    if a <= b {
        a
    } else {
        b
    }
}

pub open spec fn imax(a: int, b: int) -> int {
    if a >= b {
        a
    } else {
        b
    }
}

/// The bounding box of two regions.
pub open spec fn bbox(a: [u32; 4], b: [u32; 4]) -> [u32; 4] {
    [
        imin(a[0] as int, b[0] as int) as u32,
        imin(a[1] as int, b[1] as int) as u32,
        (imax(right(a), right(b)) - imin(a[0] as int, b[0] as int)) as u32,
        (imax(bottom(a), bottom(b)) - imin(a[1] as int, b[1] as int)) as u32,
    ]
}

/// Each edge of `r` is the edge of some input region that `r` contains:
/// `r` is no larger than the regions it was built from.
#[verifier::opaque]
pub open spec fn tight(r: [u32; 4], orig: Seq<[u32; 4]>) -> bool {
    &&& exists|k: int| 0 <= k < orig.len() && contains(r, orig[k]) && #[trigger] orig[k][0] == r[0]
    &&& exists|k: int|
        0 <= k < orig.len() && contains(r, orig[k]) && #[trigger] right(orig[k]) == right(r)
    &&& exists|k: int| 0 <= k < orig.len() && contains(r, orig[k]) && #[trigger] orig[k][1] == r[1]
    &&& exists|k: int|
        0 <= k < orig.len() && contains(r, orig[k]) && #[trigger] bottom(orig[k]) == bottom(r)
}

#[verifier::opaque]
pub open spec fn all_fit(s: Seq<[u32; 4]>) -> bool {
    forall|i: int| 0 <= i < s.len() ==> fits(#[trigger] s[i])
}

/// `r` lies within some region of `s`.
pub open spec fn within_some(s: Seq<[u32; 4]>, r: [u32; 4]) -> bool {
    exists|j: int| 0 <= j < s.len() && #[trigger] contains(s[j], r)
}

/// Every region of `before` lies within some region of `after`.
#[verifier::opaque]
pub open spec fn covered(before: Seq<[u32; 4]>, after: Seq<[u32; 4]>) -> bool {
    forall|i: int| 0 <= i < before.len() ==> within_some(after, #[trigger] before[i])
}

/// No two regions overlap or touch.
#[verifier::opaque]
pub open spec fn pairwise_apart(s: Seq<[u32; 4]>) -> bool {
    forall|i: int, j: int| 0 <= i < j < s.len() ==> !adjacent(#[trigger] s[i], #[trigger] s[j])
}

/// Every region of `s` is tight with respect to `orig`.
#[verifier::opaque]
pub open spec fn all_tight(s: Seq<[u32; 4]>, orig: Seq<[u32; 4]>) -> bool {
    forall|j: int| 0 <= j < s.len() ==> tight(#[trigger] s[j], orig)
}

/// No region before position `i` overlaps or touches a later region.
#[verifier::opaque]
pub open spec fn apart_before(s: Seq<[u32; 4]>, i: int) -> bool {
    forall|a: int, b: int| 0 <= a < i && a < b < s.len() ==> !adjacent(#[trigger] s[a], #[trigger] s[b])
}

/// Region `i` does not overlap or touch the regions at positions `i+1 .. j`.
#[verifier::opaque]
pub open spec fn apart_from(s: Seq<[u32; 4]>, i: int, j: int) -> bool {
    forall|b: int| i < b < j ==> !adjacent(s[i], #[trigger] s[b])
}

/// What merging does: one or no region is kept as it is; otherwise the
/// result covers every input region, no two results overlap or touch,
/// and each result is the bounding box of input regions it contains.
pub open spec fn merge_outcome(before: Seq<[u32; 4]>, after: Seq<[u32; 4]>) -> bool {
    &&& before.len() <= 1 ==> after == before
    &&& after.len() <= before.len()
    &&& all_fit(before) ==> all_fit(after)
    &&& pairwise_apart(after)
    &&& covered(before, after)
    &&& all_tight(after, before)
}

/// Whether two regions overlap or touch.
pub fn regions_adjacent(a: [u32; 4], b: [u32; 4]) -> (r: bool)
    requires
        adjacent_defined(a, b),
    ensures
        r == adjacent(a, b),
{
    a[0] <= b[0] + b[2] && a[0] + a[2] >= b[0] && a[1] <= b[1] + b[3] && a[1] + a[3] >= b[1]
}

proof fn lemma_bbox(a: [u32; 4], b: [u32; 4], orig: Seq<[u32; 4]>)
    requires
        fits(a),
        fits(b),
    ensures
        fits(bbox(a, b)),
        contains(bbox(a, b), a),
        contains(bbox(a, b), b),
        bbox(a, b)[0] == imin(a[0] as int, b[0] as int),
        bbox(a, b)[1] == imin(a[1] as int, b[1] as int),
        right(bbox(a, b)) == imax(right(a), right(b)),
        bottom(bbox(a, b)) == imax(bottom(a), bottom(b)),
        tight(a, orig) && tight(b, orig) ==> tight(bbox(a, b), orig),
{
    let m = bbox(a, b);
    reveal(tight);
    if tight(a, orig) && tight(b, orig) {
        let ka0 = choose|k: int| 0 <= k < orig.len() && contains(a, orig[k]) && #[trigger] orig[k][0] == a[0];
        let kb0 = choose|k: int| 0 <= k < orig.len() && contains(b, orig[k]) && #[trigger] orig[k][0] == b[0];
        let ka1 = choose|k: int| 0 <= k < orig.len() && contains(a, orig[k]) && #[trigger] right(orig[k]) == right(a);
        let kb1 = choose|k: int| 0 <= k < orig.len() && contains(b, orig[k]) && #[trigger] right(orig[k]) == right(b);
        let ka2 = choose|k: int| 0 <= k < orig.len() && contains(a, orig[k]) && #[trigger] orig[k][1] == a[1];
        let kb2 = choose|k: int| 0 <= k < orig.len() && contains(b, orig[k]) && #[trigger] orig[k][1] == b[1];
        let ka3 = choose|k: int| 0 <= k < orig.len() && contains(a, orig[k]) && #[trigger] bottom(orig[k]) == bottom(a);
        let kb3 = choose|k: int| 0 <= k < orig.len() && contains(b, orig[k]) && #[trigger] bottom(orig[k]) == bottom(b);
        let k0 = if a[0] <= b[0] { ka0 } else { kb0 };
        let k1 = if right(a) >= right(b) { ka1 } else { kb1 };
        let k2 = if a[1] <= b[1] { ka2 } else { kb2 };
        let k3 = if bottom(a) >= bottom(b) { ka3 } else { kb3 };
        assert(contains(m, orig[k0]) && orig[k0][0] == m[0]);
        assert(contains(m, orig[k1]) && right(orig[k1]) == right(m));
        assert(contains(m, orig[k2]) && orig[k2][1] == m[1]);
        assert(contains(m, orig[k3]) && bottom(orig[k3]) == bottom(m));
    }
}

/// A sequence of regions is its own merge when nothing is merged.
proof fn lemma_unmerged(s: Seq<[u32; 4]>)
    ensures
        covered(s, s),
        all_tight(s, s),
        s.len() <= 1 ==> pairwise_apart(s),
{
    reveal(covered);
    reveal(all_tight);
    reveal(tight);
    reveal(pairwise_apart);
    assert forall|i: int| 0 <= i < s.len() implies within_some(s, #[trigger] s[i]) by {
        assert(contains(s[i], s[i]));
    }
    assert forall|j: int| 0 <= j < s.len() implies tight(#[trigger] s[j], s) by {
        assert(contains(s[j], s[j]));
        assert(s[j][0] == s[j][0]);
        assert(right(s[j]) == right(s[j]));
        assert(s[j][1] == s[j][1]);
        assert(bottom(s[j]) == bottom(s[j]));
    }
}

/// Replacing region `i` by the bounding box of regions `i` and `j`, and
/// dropping region `j`, keeps every region fitting, covering and tight.
proof fn lemma_merge_step(orig: Seq<[u32; 4]>, before: Seq<[u32; 4]>, i: int, j: int, after: Seq<[u32; 4]>)
    requires
        all_fit(before),
        covered(orig, before),
        all_tight(before, orig),
        0 <= i < j < before.len(),
        after == before.update(i, bbox(before[i], before[j])).remove(j),
    ensures
        after.len() == before.len() - 1,
        all_fit(after),
        covered(orig, after),
        all_tight(after, orig),
{
    reveal(all_fit);
    reveal(all_tight);
    reveal(covered);
    assert(fits(before[i]) && fits(before[j]));
    assert(tight(before[i], orig) && tight(before[j], orig));
    lemma_bbox(before[i], before[j], orig);
    assert forall|k: int| 0 <= k < after.len() implies fits(#[trigger] after[k]) by {
        if k == i {
        } else if k < j {
            assert(after[k] == before[k]);
        } else {
            assert(after[k] == before[k + 1]);
        }
    }
    assert forall|k: int| 0 <= k < after.len() implies tight(#[trigger] after[k], orig) by {
        if k == i {
        } else if k < j {
            assert(after[k] == before[k]);
        } else {
            assert(after[k] == before[k + 1]);
        }
    }
    assert forall|o: int| 0 <= o < orig.len() implies within_some(after, #[trigger] orig[o]) by {
        assert(within_some(before, orig[o]));
        let c0 = choose|c: int| 0 <= c < before.len() && #[trigger] contains(before[c], orig[o]);
        if c0 == i || c0 == j {
            assert(after[i] == bbox(before[i], before[j]));
            assert(contains(after[i], orig[o]));
        } else if c0 < j {
            assert(after[c0] == before[c0]);
            assert(contains(after[c0], orig[o]));
        } else {
            assert(after[c0 - 1] == before[c0]);
            assert(contains(after[c0 - 1], orig[o]));
        }
    }
}

/// A pass that merged nothing leaves no two regions overlapping or touching.
proof fn lemma_clean_pass(s: Seq<[u32; 4]>, i: int, j: int)
    requires
        0 <= i < s.len(),
        j == s.len(),
        apart_before(s, i),
        apart_from(s, i, j),
    ensures
        apart_before(s, i + 1),
{
    reveal(apart_before);
    reveal(apart_from);
    assert forall|a: int, b: int| 0 <= a < i + 1 && a < b < s.len() implies !adjacent(
        #[trigger] s[a],
        #[trigger] s[b],
    ) by {
        if a == i {
            assert(!adjacent(s[i], s[b]));
        }
    }
}

/// Merge overlapping or adjacent regions/// Merge overlapping or adjacent regions, repeating passes until no two
/// regions overlap or touch.
pub fn merge_regions(regions: &mut Vec<[u32; 4]>)
    requires
        old(regions)@.len() <= 1 || all_fit(old(regions)@),
    ensures
        merge_outcome(old(regions)@, final(regions)@),
{
    proof {
        lemma_unmerged(regions@);
    }
    if regions.len() <= 1 {
        return;
    }
    let ghost orig = regions@;
    let mut merged = true;
    while merged
        invariant
            orig.len() > 1,
            all_fit(orig),
            all_fit(regions@),
            regions@.len() <= orig.len(),
            covered(orig, regions@),
            all_tight(regions@, orig),
            !merged ==> pairwise_apart(regions@),
        decreases regions@.len() + if merged {
            1int
        } else {
            0int
        },
    {
        let ghost pass_start = regions@;
        merged = false;
        let mut i: usize = 0;
        proof {
            reveal(apart_before);
        }
        while i < regions.len()
            invariant
                orig.len() > 1,
                all_fit(orig),
                all_fit(regions@),
                regions@.len() <= orig.len(),
                covered(orig, regions@),
                all_tight(regions@, orig),
                i <= regions@.len(),
                merged ==> regions@.len() < pass_start.len(),
                !merged ==> regions@ == pass_start,
                !merged ==> apart_before(regions@, i as int),
            decreases regions@.len() - i,
        {
            let mut j: usize = i + 1;
            let ghost len_i = regions@.len();
            proof {
                reveal(apart_from);
            }
            while j < regions.len()
                invariant
                    regions@.len() <= len_i,
                    orig.len() > 1,
                    all_fit(orig),
                    all_fit(regions@),
                    regions@.len() <= orig.len(),
                    covered(orig, regions@),
                    all_tight(regions@, orig),
                    i < regions@.len(),
                    i + 1 <= j <= regions@.len(),
                    merged ==> regions@.len() < pass_start.len(),
                    !merged ==> regions@ == pass_start,
                    !merged ==> apart_before(regions@, i as int),
                    !merged ==> apart_from(regions@, i as int, j as int),
                decreases regions@.len() - j,
            {
                let a = regions[i];
                let b = regions[j];
                proof {
                    reveal(all_fit);
                    assert(fits(regions@[i as int]) && fits(regions@[j as int]));
                }
                if regions_adjacent(a, b) {
                    // Merge j into i
                    let nx = if a[0] <= b[0] {
                        a[0]
                    } else {
                        b[0]
                    };
                    let ny = if a[1] <= b[1] {
                        a[1]
                    } else {
                        b[1]
                    };
                    let nx2 = if a[0] + a[2] >= b[0] + b[2] {
                        a[0] + a[2]
                    } else {
                        b[0] + b[2]
                    };
                    let ny2 = if a[1] + a[3] >= b[1] + b[3] {
                        a[1] + a[3]
                    } else {
                        b[1] + b[3]
                    };
                    let m = [nx, ny, nx2 - nx, ny2 - ny];
                    let ghost before = regions@;
                    proof {
                        lemma_bbox(a, b, orig);
                        assert(m@ =~= bbox(a, b)@);
                    }
                    regions.set(i, m);
                    let _ = regions.remove(j);
                    proof {
                        assert(regions@ =~= before.update(i as int, bbox(a, b)).remove(j as int));
                        lemma_merge_step(orig, before, i as int, j as int, regions@);
                    }
                    merged = true;
                } else {
                    proof {
                        if !merged {
                            reveal(apart_from);
                            assert forall|c: int| i < c < j + 1 implies !adjacent(
                                regions@[i as int],
                                #[trigger] regions@[c],
                            ) by {
                                if c < j {
                                    assert(!adjacent(regions@[i as int], regions@[c]));
                                }
                            }
                        }
                    }
                    j = j + 1;
                }
            }
            proof {
                if !merged {
                    lemma_clean_pass(regions@, i as int, j as int);
                }
            }
            i = i + 1;
        }
        proof {
            if !merged {
                reveal(apart_before);
                reveal(pairwise_apart);
            }
        }
    }
}

// ── Change detection on an 8x8 grid ──

/// Side of a grid cell along a dimension of `d` pixels: an eighth of it, at least 1.
pub open spec fn cell_size(d: u32) -> nat {
    if d / 8 >= 1 {
        (d / 8) as nat
    } else {
        1
    }
}

pub open spec fn nmin(a: nat, b: nat) -> nat {
    if a <= b {
        a
    } else {
        b
    }
}

/// First pixel of cell `c` along a dimension of `d` pixels.
pub open spec fn cell_lo(d: u32, c: nat) -> nat {
    c * cell_size(d)
}

/// One past the last pixel of cell `c`, clipped to the dimension.
pub open spec fn cell_hi(d: u32, c: nat) -> nat {
    nmin((c + 1) * cell_size(d), d as nat)
}

/// Whether the mask marks pixel (x, y) as changed; pixels past the mask's end are not.
pub open spec fn changed_at(mask: Seq<bool>, width: u32, x: nat, y: nat) -> bool {
    y * width + x < mask.len() && mask[y * width + x]
}

/// Changed pixels of row `y` in columns `x0 .. x`.
pub open spec fn count_row(mask: Seq<bool>, width: u32, y: nat, x0: nat, x: nat) -> nat
    decreases x,
{
    if x <= x0 {
        0
    } else {
        count_row(mask, width, y, x0, (x - 1) as nat) + if changed_at(mask, width, (x - 1) as nat, y) {
            1nat
        } else {
            0nat
        }
    }
}

/// Changed pixels in columns `x0 .. x1` of rows `y0 .. y`.
pub open spec fn count_rect(mask: Seq<bool>, width: u32, x0: nat, x1: nat, y0: nat, y: nat) -> nat
    decreases y,
{
    if y <= y0 {
        0
    } else {
        count_rect(mask, width, x0, x1, y0, (y - 1) as nat) + count_row(mask, width, (y - 1) as nat, x0, x1)
    }
}

/// The region of grid cell (cx, cy).
pub open spec fn cell_region(width: u32, height: u32, cx: nat, cy: nat) -> [u32; 4] {
    [
        cell_lo(width, cx) as u32,
        cell_lo(height, cy) as u32,
        (cell_hi(width, cx) - cell_lo(width, cx)) as u32,
        (cell_hi(height, cy) - cell_lo(height, cy)) as u32,
    ]
}

/// A cell counts as changed when more than a tenth of its pixels changed.
pub open spec fn cell_changed(mask: Seq<bool>, width: u32, height: u32, cx: nat, cy: nat) -> bool {
    let x0 = cell_lo(width, cx);
    let x1 = cell_hi(width, cx);
    let y0 = cell_lo(height, cy);
    let y1 = cell_hi(height, cy);
    let total = (x1 - x0) * (y1 - y0);
    total > 0 && 10 * count_rect(mask, width, x0, x1, y0, y1) > total
}

/// Regions of the changed cells among the first `n` cells, row by row.
pub open spec fn changed_cells(mask: Seq<bool>, width: u32, height: u32, n: nat) -> Seq<[u32; 4]>
    decreases n,
{
    if n == 0 {
        seq![]
    } else {
        let prev = changed_cells(mask, width, height, (n - 1) as nat);
        let c = (n - 1) as nat;
        if cell_changed(mask, width, height, c % 8, c / 8) {
            prev.push(cell_region(width, height, c % 8, c / 8))
        } else {
            prev
        }
    }
}

/// The grid walk does not overflow a pixel index: a dimension is zero, or
/// the last pixel index visited fits in `u32`.
pub open spec fn grid_defined(width: u32, height: u32) -> bool {
    width == 0 || height == 0 || (cell_hi(height, 7) - 1) * width + cell_hi(width, 7) - 1 <= u32::MAX
}

proof fn lemma_cell(d: u32, c: nat)
    requires
        c < 8,
        d >= 1,
    ensures
        cell_size(d) >= 1,
        8 * cell_size(d) <= u32::MAX,
        (c + 1) * cell_size(d) <= 8 * cell_size(d),
        cell_lo(d, c) <= 7 * cell_size(d),
        cell_hi(d, c) <= d,
        cell_hi(d, c) <= cell_hi(d, 7),
        1 <= cell_hi(d, 7),
        d >= 7 ==> cell_lo(d, c) <= cell_hi(d, c),
{
    let cs = cell_size(d);
    if d >= 8 {
        assert(cs == d / 8);
        assert(8 * cs <= d);
    } else {
        assert(cs == 1);
    }
    assert((c + 1) * cs <= 8 * cs) by (nonlinear_arith)
        requires
            c < 8,
            cs >= 1,
    ;
    assert(c * cs <= (c + 1) * cs) by (nonlinear_arith)
        requires
            cs >= 1,
    ;
    assert(c * cs <= 7 * cs) by (nonlinear_arith)
        requires
            c < 8,
            cs >= 1,
    ;
}

proof fn lemma_count_row_bound(mask: Seq<bool>, width: u32, y: nat, x0: nat, x: nat)
    ensures
        count_row(mask, width, y, x0, x) <= if x >= x0 {
            (x - x0) as nat
        } else {
            0
        },
    decreases x,
{
    if x > x0 {
        lemma_count_row_bound(mask, width, y, x0, (x - 1) as nat);
    }
}

proof fn lemma_count_rect_bound(mask: Seq<bool>, width: u32, x0: nat, x1: nat, y0: nat, y: nat)
    requires
        x0 <= x1,
        y0 <= y,
    ensures
        count_rect(mask, width, x0, x1, y0, y) <= (x1 - x0) * (y - y0),
    decreases y,
{
    if y > y0 {
        lemma_count_rect_bound(mask, width, x0, x1, y0, (y - 1) as nat);
        lemma_count_row_bound(mask, width, (y - 1) as nat, x0, x1);
        assert((x1 - x0) * (y - 1 - y0) + (x1 - x0) == (x1 - x0) * (y - y0)) by (nonlinear_arith);
    }
}

/// A row segment that starts at or past its end holds no changed pixel.
proof fn lemma_empty_row(mask: Seq<bool>, width: u32, y: nat, x0: nat, x: nat)
    requires
        x <= x0,
    ensures
        count_row(mask, width, y, x0, x) == 0,
{
}

/// A rectangle empty in either direction holds no changed pixel.
proof fn lemma_empty_rect(mask: Seq<bool>, width: u32, x0: nat, x1: nat, y0: nat, y: nat)
    requires
        x1 <= x0 || y <= y0,
    ensures
        count_rect(mask, width, x0, x1, y0, y) == 0,
    decreases y,
{
    if y > y0 {
        lemma_empty_rect(mask, width, x0, x1, y0, (y - 1) as nat);
        lemma_empty_row(mask, width, (y - 1) as nat, x0, x1);
    }
}

/// A changed cell is a non-empty part of the image.
proof fn lemma_changed_cell(mask: Seq<bool>, width: u32, height: u32, cx: nat, cy: nat)
    requires
        width >= 1,
        height >= 1,
        cx < 8,
        cy < 8,
        cell_changed(mask, width, height, cx, cy),
    ensures
        cell_lo(width, cx) < cell_hi(width, cx) <= width,
        cell_lo(height, cy) < cell_hi(height, cy) <= height,
{
    lemma_cell(width, cx);
    lemma_cell(height, cy);
    let x0 = cell_lo(width, cx);
    let x1 = cell_hi(width, cx);
    let y0 = cell_lo(height, cy);
    let y1 = cell_hi(height, cy);
    if x1 <= x0 || y1 <= y0 {
        lemma_empty_rect(mask, width, x0, x1, y0, y1);
    }
}

proof fn lemma_cells_fit(mask: Seq<bool>, width: u32, height: u32, n: nat)
    requires
        width >= 1,
        height >= 1,
        n <= 64,
    ensures
        all_fit(changed_cells(mask, width, height, n)),
        changed_cells(mask, width, height, n).len() <= n,
    decreases n,
{
    reveal(all_fit);
    lemma_cells_inside(mask, width, height, n);
    if n > 0 {
        lemma_cells_fit(mask, width, height, (n - 1) as nat);
    }
}

/// `r` is a non-empty region within a `width` x `height` image.
pub open spec fn inside(r: [u32; 4], width: u32, height: u32) -> bool {
    r[2] > 0 && r[3] > 0 && right(r) <= width && bottom(r) <= height
}

/// Every changed cell is a non-empty region within the image.
proof fn lemma_cells_inside(mask: Seq<bool>, width: u32, height: u32, n: nat)
    requires
        width >= 1,
        height >= 1,
        n <= 64,
    ensures
        forall|i: int|
            0 <= i < changed_cells(mask, width, height, n).len() ==> inside(
                #[trigger] changed_cells(mask, width, height, n)[i],
                width,
                height,
            ),
    decreases n,
{
    if n > 0 {
        lemma_cells_inside(mask, width, height, (n - 1) as nat);
        let c = (n - 1) as nat;
        let cx = c % 8;
        let cy = c / 8;
        assert(cx < 8 && cy < 8);
        lemma_cell(width, cx);
        lemma_cell(height, cy);
        let prev = changed_cells(mask, width, height, c);
        let cur = changed_cells(mask, width, height, n);
        if cell_changed(mask, width, height, cx, cy) {
            lemma_changed_cell(mask, width, height, cx, cy);
            let a = cell_hi(width, cx) - cell_lo(width, cx);
            let b = cell_hi(height, cy) - cell_lo(height, cy);
            let r = cell_region(width, height, cx, cy);
            assert(r[0] == cell_lo(width, cx) && r[2] == a);
            assert(r[1] == cell_lo(height, cy) && r[3] == b);
            assert(inside(r, width, height));
            assert(cur == prev.push(r));
        } else {
            assert(cur == prev);
        }
        assert forall|i: int| 0 <= i < cur.len() implies inside(#[trigger] cur[i], width, height) by {
            if i < prev.len() {
                assert(cur[i] == prev[i]);
            }
        }
    }
}

/// A region that is tight over regions within the image is within it.
proof fn lemma_tight_inside(r: [u32; 4], orig: Seq<[u32; 4]>, width: u32, height: u32)
    requires
        tight(r, orig),
        forall|i: int| 0 <= i < orig.len() ==> inside(#[trigger] orig[i], width, height),
    ensures
        inside(r, width, height),
{
    reveal(tight);
    let k = choose|k: int| 0 <= k < orig.len() && contains(r, orig[k]) && #[trigger] orig[k][0] == r[0];
    let kr = choose|k: int| 0 <= k < orig.len() && contains(r, orig[k]) && #[trigger] right(orig[k]) == right(r);
    let ky = choose|k: int| 0 <= k < orig.len() && contains(r, orig[k]) && #[trigger] orig[k][1] == r[1];
    let kb = choose|k: int| 0 <= k < orig.len() && contains(r, orig[k]) && #[trigger] bottom(orig[k]) == bottom(r);
    assert(inside(orig[k], width, height));
    assert(inside(orig[kr], width, height));
    assert(inside(orig[ky], width, height));
    assert(inside(orig[kb], width, height));
}

/// Whether the grid walk of `detect_changed_regions` is defined for these
/// dimensions (`grid_defined`).
pub fn grid_fits(width: u32, height: u32) -> (r: bool)
    ensures
        r == grid_defined(width, height),
{
    if width == 0 || height == 0 {
        return true;
    }
    let cw: u64 = if width / 8 >= 1 { (width / 8) as u64 } else { 1 };
    let ch: u64 = if height / 8 >= 1 { (height / 8) as u64 } else { 1 };
    let xh: u64 = if 8 * cw <= width as u64 { 8 * cw } else { width as u64 };
    let yh: u64 = if 8 * ch <= height as u64 { 8 * ch } else { height as u64 };
    proof {
        lemma_cell(width, 7);
        lemma_cell(height, 7);
        assert(cell_hi(width, 7) == xh);
        assert(cell_hi(height, 7) == yh);
        assert(xh >= 1 && yh >= 1);
        assert((yh - 1) * (width as u64) <= 0xffff_ffff * 0xffff_ffffu64) by (nonlinear_arith)
            requires
                yh <= 0xffff_ffff,
                yh >= 1,
                width <= 0xffff_ffff,
        ;
    }
    (yh - 1) * (width as u64) + xh - 1 <= 0xffff_ffff
}

/// No pixel of the mask is marked as changed.
pub open spec fn unchanged(mask: Seq<bool>) -> bool {
    forall|i: int| 0 <= i < mask.len() ==> !#[trigger] mask[i]
}

proof fn lemma_unchanged_cells(mask: Seq<bool>, width: u32, height: u32, n: nat)
    requires
        unchanged(mask),
    ensures
        changed_cells(mask, width, height, n).len() == 0,
    decreases n,
{
    if n > 0 {
        lemma_unchanged_cells(mask, width, height, (n - 1) as nat);
        let c = (n - 1) as nat;
        let x0 = cell_lo(width, c % 8);
        let x1 = cell_hi(width, c % 8);
        let y0 = cell_lo(height, c / 8);
        let y1 = cell_hi(height, c / 8);
        lemma_unchanged_rect(mask, width, x0, x1, y0, y1);
    }
}

proof fn lemma_unchanged_row(mask: Seq<bool>, width: u32, y: nat, x0: nat, x: nat)
    requires
        unchanged(mask),
    ensures
        count_row(mask, width, y, x0, x) == 0,
    decreases x,
{
    if x > x0 {
        lemma_unchanged_row(mask, width, y, x0, (x - 1) as nat);
        let i = y * width + (x - 1) as nat;
        if i < mask.len() {
            assert(!mask[i as int]);
        }
    }
}

proof fn lemma_unchanged_rect(mask: Seq<bool>, width: u32, x0: nat, x1: nat, y0: nat, y: nat)
    requires
        unchanged(mask),
    ensures
        count_rect(mask, width, x0, x1, y0, y) == 0,
    decreases y,
{
    if y > y0 {
        lemma_unchanged_rect(mask, width, x0, x1, y0, (y - 1) as nat);
        lemma_unchanged_row(mask, width, (y - 1) as nat, x0, x1);
    }
}

/// The changed pixels of columns `x0 .. x1` in rows `y0 .. y1`.
fn count_changed(mask: &[bool], width: u32, height: u32, x0: u32, x1: u32, y0: u32, y1: u32) -> (changed: u64)
    requires
        width >= 1 && height >= 1,
        grid_defined(width, height),
        x0 <= x1 <= cell_hi(width, 7),
        y0 <= y1 <= cell_hi(height, 7),
        (x1 - x0) * (y1 - y0) <= u64::MAX,
    ensures
        changed == count_rect(mask@, width, x0 as nat, x1 as nat, y0 as nat, y1 as nat),
{
    let mut changed: u64 = 0;
    let mut y = y0;
    while y < y1
        invariant
            x0 <= x1 <= cell_hi(width, 7),
            y0 <= y <= y1 <= cell_hi(height, 7),
            grid_defined(width, height),
            width >= 1 && height >= 1,
            changed == count_rect(mask@, width, x0 as nat, x1 as nat, y0 as nat, y as nat),
            changed <= (x1 - x0) * (y - y0),
            (x1 - x0) * (y1 - y0) <= u64::MAX,
        decreases y1 - y,
    {
        let mut x = x0;
        while x < x1
            invariant
                x0 <= x <= x1 <= cell_hi(width, 7),
                y0 <= y < y1 <= cell_hi(height, 7),
                grid_defined(width, height),
                width >= 1 && height >= 1,
                changed == count_rect(mask@, width, x0 as nat, x1 as nat, y0 as nat, y as nat)
                    + count_row(mask@, width, y as nat, x0 as nat, x as nat),
                changed <= (x1 - x0) * (y - y0) + (x - x0),
                (x1 - x0) * (y1 - y0) <= u64::MAX,
            decreases x1 - x,
        {
            proof {
                assert(y * width <= (cell_hi(height, 7) - 1) * width) by (nonlinear_arith)
                    requires
                        y <= cell_hi(height, 7) - 1,
                ;
                assert((x1 - x0) * (y - y0) + (x - x0) < (x1 - x0) * (y1 - y0)) by (nonlinear_arith)
                    requires
                        x0 <= x < x1,
                        y0 <= y < y1,
                ;
            }
            let idx = (y * width + x) as usize;
            if idx < mask.len() && mask[idx] {
                changed = changed + 1;
            }
            x = x + 1;
        }
        proof {
            assert((x1 - x0) * (y - y0) + (x1 - x0) == (x1 - x0) * (y + 1 - y0)) by (nonlinear_arith);
        }
        y = y + 1;
    }
    changed
}

/// Detect rectangular regions of change from a diff mask of a
/// `width` x `height` image: the image is divided into an 8x8 grid, cells
/// with more than 10% changed pixels are kept, and adjacent cells are merged.
pub fn detect_changed_regions(mask: &[bool], width: u32, height: u32) -> (r: Vec<[u32; 4]>)
    requires
        grid_defined(width, height),
    ensures
        width == 0 || height == 0 ==> r@.len() == 0,
        width > 0 && height > 0 ==> merge_outcome(changed_cells(mask@, width, height, 64), r@),
        unchanged(mask@) ==> r@.len() == 0,
        r@.len() <= 64,
        forall|i: int| 0 <= i < r@.len() ==> inside(#[trigger] r@[i], width, height),
        pairwise_apart(r@),
{
    if width == 0 || height == 0 {
        proof {
            reveal(pairwise_apart);
        }
        return Vec::new();
    }
    let cell_w = if width / 8 >= 1 {
        width / 8
    } else {
        1
    };
    let cell_h = if height / 8 >= 1 {
        height / 8
    } else {
        1
    };
    let mut regions: Vec<[u32; 4]> = Vec::new();
    let mut cy: u32 = 0;
    while cy < 8
        invariant
            width >= 1 && height >= 1,
            grid_defined(width, height),
            cell_w == cell_size(width),
            cell_h == cell_size(height),
            cy <= 8,
            regions@ == changed_cells(mask@, width, height, (cy * 8) as nat),
        decreases 8 - cy,
    {
        let mut cx: u32 = 0;
        while cx < 8
            invariant
                width >= 1 && height >= 1,
                grid_defined(width, height),
                cell_w == cell_size(width),
                cell_h == cell_size(height),
                cy < 8,
                cx <= 8,
                regions@ == changed_cells(mask@, width, height, (cy * 8 + cx) as nat),
            decreases 8 - cx,
        {
            proof {
                lemma_cell(width, cx as nat);
                lemma_cell(height, cy as nat);
                assert(cx * cell_w <= 7 * cell_w) by (nonlinear_arith)
                    requires
                        cx < 8,
                ;
                assert(cy * cell_h <= 7 * cell_h) by (nonlinear_arith)
                    requires
                        cy < 8,
                ;
            }
            let x0 = cx * cell_w;
            let y0 = cy * cell_h;
            let x1 = if (cx + 1) * cell_w <= width {
                (cx + 1) * cell_w
            } else {
                width
            };
            let y1 = if (cy + 1) * cell_h <= height {
                (cy + 1) * cell_h
            } else {
                height
            };
            assert(x0 == cell_lo(width, cx as nat) && x1 == cell_hi(width, cx as nat));
            assert(y0 == cell_lo(height, cy as nat) && y1 == cell_hi(height, cy as nat));
            if x0 <= x1 && y0 <= y1 {
                proof {
                    let a = (x1 - x0) as nat;
                    let b = (y1 - y0) as nat;
                    assert(a * b <= u64::MAX) by (nonlinear_arith)
                        requires
                            a <= u32::MAX,
                            b <= u32::MAX,
                    ;
                }
                let total: u64 = (x1 - x0) as u64 * (y1 - y0) as u64;
                let changed = count_changed(mask, width, height, x0, x1, y0, y1);
                if total > 0 && (changed as u128) * 10 > total as u128 {
                    regions.push([x0, y0, x1 - x0, y1 - y0]);
                }
            } else {
                proof {
                    lemma_empty_rect(mask@, width, x0 as nat, x1 as nat, y0 as nat, y1 as nat);
                }
            }
            proof {
                let n = (cy * 8 + cx) as nat;
                assert(n % 8 == cx as nat && n / 8 == cy as nat);
                let cell = cell_region(width, height, cx as nat, cy as nat);
                assert([x0, y0, (x1 - x0) as u32, (y1 - y0) as u32]@ =~= cell@);
            }
            cx = cx + 1;
        }
        cy = cy + 1;
    }
    proof {
        lemma_cells_fit(mask@, width, height, 64);
        lemma_cells_inside(mask@, width, height, 64);
        if unchanged(mask@) {
            lemma_unchanged_cells(mask@, width, height, 64);
        }
    }
    let ghost cells = regions@;
    merge_regions(&mut regions);
    proof {
        if cells.len() <= 1 {
            assert(regions@ == cells);
        } else {
            reveal(all_tight);
            assert forall|i: int| 0 <= i < regions@.len() implies inside(#[trigger] regions@[i], width, height) by {
                assert(tight(regions@[i], cells));
                lemma_tight_inside(regions@[i], cells, width, height);
            }
        }
    }
    regions
}

} // verus!
