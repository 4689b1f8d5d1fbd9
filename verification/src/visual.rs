//! Comparing two screenshots: a perceptual mean hash of each, and the mask
//! of pixels whose color moved past a threshold.
//!
//! Scaling and color conversion are done by the image library; the hash and
//! the mask are computed here from the plain bytes it hands back.

use vstd::prelude::*;

use crate::screenshot::{rgba_sized, Frame};

verus! {

/// The resampling filters the library scales images with.
#[derive(Clone, Copy, Debug, PartialEq, Eq, Structural)]
pub enum ScaleFilter {
    /// Lanczos with window 3.
    Lanczos3,
}

/// `DynamicImage::resize_exact`, then `to_luma8`, on the RGBA image held by
/// `rgba`: the gray levels of the scaled image, row by row, one per pixel.
/// Only their number is stated: the resampling weights are `f32` values
/// computed with std's `sin`, whose precision std leaves to the platform,
/// so which levels come back is not a function of the arguments alone.
#[verifier::external_body]
fn scale_gray(width: u32, height: u32, rgba: &Vec<u8>, nwidth: u32, nheight: u32, filter: ScaleFilter) -> (r: Vec<u8>)
    requires
        rgba_sized(width, height, rgba@),
    ensures
        r@.len() == nwidth * nheight,
{
    let f = match filter {
        ScaleFilter::Lanczos3 => image::imageops::FilterType::Lanczos3,
    };
    let img = image::DynamicImage::ImageRgba8(image::RgbaImage::from_raw(width, height, rgba.clone()).unwrap());
    img.resize_exact(nwidth, nheight, f).to_luma8().into_raw()
}

/// Sum of the first `n` levels.
pub open spec fn level_sum(s: Seq<u8>, n: int) -> int
    decreases n,
{
    if n <= 0 {
        0
    } else {
        level_sum(s, n - 1) + s[n - 1]
    }
}

/// The mean gray level, rounded down.
pub open spec fn level_mean(s: Seq<u8>) -> int {
    level_sum(s, s.len() as int) / if s.len() > 0 {
        s.len() as int
    } else {
        1
    }
}

/// Bit `k` of a byte, counted from the most significant (k = 0).
pub open spec fn bit_at(byte: u8, k: u8) -> bool {
    (byte >> ((7 - k) as u8)) & 1u8 == 1u8
}

/// Bit `i` of a hash, eight per byte, most significant first.
pub open spec fn hash_bit(h: Seq<u8>, i: int) -> bool {
    bit_at(h[i / 8], (i % 8) as u8)
}

/// `h` is the mean hash of the 256 levels `s`: bit `i` is set exactly when
/// level `i` is above the mean level.
pub open spec fn is_mean_hash(h: Seq<u8>, s: Seq<u8>) -> bool {
    &&& h.len() == 32
    &&& forall|i: int| 0 <= i < 256 ==> #[trigger] hash_bit(h, i) == (s[i] > level_mean(s))
}

/// How many of the first `n` hash bits differ (the Hamming distance).
pub open spec fn bits_apart(a: Seq<u8>, b: Seq<u8>, n: int) -> nat
    decreases n,
{
    if n <= 0 {
        0
    } else {
        bits_apart(a, b, n - 1) + if hash_bit(a, n - 1) != hash_bit(b, n - 1) {
            1nat
        } else {
            0nat
        }
    }
}

/// How many of the first `n` levels lie on different sides of their
/// image's mean level.
pub open spec fn levels_apart(la: Seq<u8>, lb: Seq<u8>, n: int) -> nat
    decreases n,
{
    if n <= 0 {
        0
    } else {
        levels_apart(la, lb, n - 1) + if (la[n - 1] > level_mean(la)) != (lb[n - 1] > level_mean(lb)) {
            1nat
        } else {
            0nat
        }
    }
}

proof fn lemma_bits_levels(ha: Seq<u8>, hb: Seq<u8>, la: Seq<u8>, lb: Seq<u8>, n: int)
    requires
        is_mean_hash(ha, la),
        is_mean_hash(hb, lb),
        n <= 256,
    ensures
        bits_apart(ha, hb, n) == levels_apart(la, lb, n),
    decreases n,
{
    if n > 0 {
        lemma_bits_levels(ha, hb, la, lb, n - 1);
        assert(hash_bit(ha, n - 1) == (la[n - 1] > level_mean(la)));
        assert(hash_bit(hb, n - 1) == (lb[n - 1] > level_mean(lb)));
    }
}

proof fn lemma_bit_or(b: u8, k: u8, t: u8)
    requires
        k < 8,
        t < 8,
    ensures
        bit_at(b | (1u8 << ((7 - k) as u8)), t) == (t == k || bit_at(b, t)),
{
    assert(((b | (1u8 << ((7 - k) as u8))) >> ((7 - t) as u8)) & 1u8 == 1u8 <==> (t == k || (b >> ((7 - t) as u8)) & 1u8 == 1u8))
        by (bit_vector)
        requires
            k < 8,
            t < 8,
    ;
}

proof fn lemma_bit_zero(t: u8)
    requires
        t < 8,
    ensures
        !bit_at(0u8, t),
{
    assert(!((0u8 >> ((7 - t) as u8)) & 1u8 == 1u8)) by (bit_vector)
        requires
            t < 8,
    ;
}

fn bit_of(byte: u8, k: u8) -> (r: bool)
    requires
        k < 8,
    ensures
        r == bit_at(byte, k),
{
    (byte >> (7 - k)) & 1 == 1
}

/// The mean hash of 256 gray levels.
pub fn hash_levels(levels: &Vec<u8>) -> (h: [u8; 32])
    requires
        levels@.len() == 256,
    ensures
        is_mean_hash(h@, levels@),
{
    let mut sum: u64 = 0;
    let mut i: usize = 0;
    while i < 256
        invariant
            levels@.len() == 256,
            i <= 256,
            sum == level_sum(levels@, i as int),
            sum <= 255 * i,
        decreases 256 - i,
    {
        sum = sum + levels[i] as u64;
        i = i + 1;
    }
    let mean = sum / 256;
    assert(mean == level_mean(levels@));
    let mut h = [0u8; 32];
    proof {
        assert forall|j: int| 0 <= j < 256 implies !#[trigger] hash_bit(h@, j) by {
            lemma_bit_zero((j % 8) as u8);
            assert(h@[j / 8] == 0u8);
        }
    }
    let mut i: usize = 0;
    while i < 256
        invariant
            levels@.len() == 256,
            i <= 256,
            mean == level_mean(levels@),
            h@.len() == 32,
            forall|j: int| 0 <= j < 256 ==> #[trigger] hash_bit(h@, j) == (j < i && levels@[j] > mean),
        decreases 256 - i,
    {
        if levels[i] as u64 > mean {
            let byte = i / 8;
            let k = (i % 8) as u8;
            let ghost before = h@;
            h[byte] = h[byte] | (1u8 << (7 - k));
            proof {
                assert forall|j: int| 0 <= j < 256 implies #[trigger] hash_bit(h@, j) == (j < i + 1 && levels@[j] > mean) by {
                    if j / 8 == byte as int {
                        lemma_bit_or(before[byte as int], k, (j % 8) as u8);
                        assert(hash_bit(before, j) == (j < i && levels@[j] > mean));
                    } else {
                        assert(h@[j / 8] == before[j / 8]);
                        assert(hash_bit(before, j) == (j < i && levels@[j] > mean));
                    }
                }
            }
        } else {
            proof {
                assert forall|j: int| 0 <= j < 256 implies #[trigger] hash_bit(h@, j) == (j < i + 1 && levels@[j] > mean) by {
                    assert(hash_bit(h@, j) == (j < i && levels@[j] > mean));
                }
            }
        }
        i = i + 1;
    }
    h
}

/// The Hamming distance between two hashes.
pub fn hash_distance(a: &[u8; 32], b: &[u8; 32]) -> (r: u32)
    ensures
        r == bits_apart(a@, b@, 256),
{
    let mut d: u32 = 0;
    let mut i: usize = 0;
    while i < 256
        invariant
            i <= 256,
            d == bits_apart(a@, b@, i as int),
            d <= i,
        decreases 256 - i,
    {
        let k = (i % 8) as u8;
        if bit_of(a[i / 8], k) != bit_of(b[i / 8], k) {
            d = d + 1;
        }
        i = i + 1;
    }
    d
}

/// The Hamming distance between the mean hashes of two sets of 256 gray
/// levels: how many levels lie above their mean in one set and not in the
/// other.
pub fn levels_hash_distance(la: &Vec<u8>, lb: &Vec<u8>) -> (r: u32)
    requires
        la@.len() == 256,
        lb@.len() == 256,
    ensures
        r == levels_apart(la@, lb@, 256),
{
    let ha = hash_levels(la);
    let hb = hash_levels(lb);
    proof {
        lemma_bits_levels(ha@, hb@, la@, lb@, 256);
    }
    hash_distance(&ha, &hb)
}

/// The mean hash of a frame: scaled by the image library to 16x16 gray
/// levels (Lanczos3), each bit set where the level is above their mean.
/// Which levels the scaling gives depends on the machine's floating point,
/// so the hash is stated over the levels that came back.
pub fn mean_hash(frame: &Frame) -> (h: [u8; 32])
    ensures
        exists|levels: Seq<u8>| levels.len() == 256 && #[trigger] is_mean_hash(h@, levels),
{
    let levels = scale_gray(frame.width(), frame.height(), frame.rgba(), 16, 16, ScaleFilter::Lanczos3);
    let h = hash_levels(&levels);
    assert(is_mean_hash(h@, levels@));
    h
}

/// The Hamming distance between the mean hashes of two frames, each scaled
/// by the image library to 16x16 gray levels (Lanczos3); stated over the
/// levels that came back.
pub fn perceptual_hash_distance(a: &Frame, b: &Frame) -> (r: u32)
    ensures
        exists|la: Seq<u8>, lb: Seq<u8>|
            la.len() == 256 && lb.len() == 256 && r == #[trigger] levels_apart(la, lb, 256),
        r <= 256,
{
    let la = scale_gray(a.width(), a.height(), a.rgba(), 16, 16, ScaleFilter::Lanczos3);
    let lb = scale_gray(b.width(), b.height(), b.rgba(), 16, 16, ScaleFilter::Lanczos3);
    let r = levels_hash_distance(&la, &lb);
    proof {
        lemma_levels_apart_bound(la@, lb@, 256);
    }
    r
}

proof fn lemma_levels_apart_bound(la: Seq<u8>, lb: Seq<u8>, n: int)
    ensures
        levels_apart(la, lb, n) <= if n > 0 { n } else { 0 },
    decreases n,
{
    if n > 0 {
        lemma_levels_apart_bound(la, lb, n - 1);
    }
}

/// How far apart two channel values are.
pub open spec fn gap(a: u8, b: u8) -> int {
    if a >= b {
        a - b
    } else {
        b - a
    }
}

/// Pixel (x, y) differs between two RGBA buffers of row widths `wa` and
/// `wb`: its red, green or blue value moved by more than `threshold`.
pub open spec fn pixel_differs(pa: Seq<u8>, wa: nat, pb: Seq<u8>, wb: nat, x: nat, y: nat, threshold: u8) -> bool {
    let ia = (4 * (y * wa + x)) as int;
    let ib = (4 * (y * wb + x)) as int;
    ||| gap(pa[ia], pb[ib]) > threshold
    ||| gap(pa[ia + 1], pb[ib + 1]) > threshold
    ||| gap(pa[ia + 2], pb[ib + 2]) > threshold
}

pub open spec fn nat_min(a: nat, b: nat) -> nat {
    if a <= b {
        a
    } else {
        b
    }
}

/// The changed-pixel mask over the `w` x `h` area common to both images,
/// row by row.
pub open spec fn diff_mask(pa: Seq<u8>, wa: nat, pb: Seq<u8>, wb: nat, w: nat, h: nat, threshold: u8) -> Seq<bool> {
    Seq::new(w * h, |i: int| pixel_differs(pa, wa, pb, wb, (i % w as int) as nat, (i / w as int) as nat, threshold))
}

/// A pixel of the common area is marked changed exactly when its red, green
/// or blue value moved, in either direction, by more than the threshold;
/// its alpha value is not compared.
pub proof fn law_mask_compares_colours(
    pa: Seq<u8>,
    wa: nat,
    pb: Seq<u8>,
    wb: nat,
    w: nat,
    h: nat,
    threshold: u8,
    x: nat,
    y: nat,
)
    requires
        x < w,
        y < h,
    ensures
        ({
            let ia = (4 * (y * wa + x)) as int;
            let ib = (4 * (y * wb + x)) as int;
            &&& (y * w + x) < diff_mask(pa, wa, pb, wb, w, h, threshold).len()
            &&& diff_mask(pa, wa, pb, wb, w, h, threshold)[(y * w + x) as int] <==> exists|c: int|
                #![trigger pa[ia + c]]
                0 <= c < 3 && (pa[ia + c] > pb[ib + c] + threshold || pb[ib + c] > pa[ia + c] + threshold)
        }),
{
    let i = y * w + x;
    assert(i < w * h) by (nonlinear_arith)
        requires
            x < w,
            y < h,
            i == y * w + x,
    ;
    vstd::arithmetic::div_mod::lemma_fundamental_div_mod_converse(i as int, w as int, y as int, x as int);
    let ia = (4 * (y * wa + x)) as int;
    let ib = (4 * (y * wb + x)) as int;
    assert(diff_mask(pa, wa, pb, wb, w, h, threshold)[i as int] == pixel_differs(pa, wa, pb, wb, x, y, threshold));
    if pixel_differs(pa, wa, pb, wb, x, y, threshold) {
        if gap(pa[ia], pb[ib]) > threshold {
            assert(pa[ia + 0] == pa[ia]);
        } else if gap(pa[ia + 1], pb[ib + 1]) > threshold {
            assert(pa[ia + 1] == pa[ia + 1]);
        } else {
            assert(pa[ia + 2] == pa[ia + 2]);
        }
    }
}

/// How many of the first `n` entries are set.
pub open spec fn count_set(s: Seq<bool>, n: int) -> nat
    decreases n,
{
    if n <= 0 {
        0
    } else {
        count_set(s, n - 1) + if s[n - 1] {
            1nat
        } else {
            0nat
        }
    }
}

fn channel_gap(a: u8, b: u8) -> (r: u8)
    ensures
        r == gap(a, b),
{
    if a >= b {
        a - b
    } else {
        b - a
    }
}

proof fn lemma_pixel_index(y: nat, x: nat, w: nat, h: nat, width: nat)
    requires
        y < h,
        x < w,
        w <= width,
    ensures
        y * width + x < h * width,
        y * width + x + 1 <= h * width,
{
    assert(y * width + x < y * width + width) by (nonlinear_arith)
        requires
            x < w,
            w <= width,
    ;
    assert(y * width + width == (y + 1) * width) by (nonlinear_arith);
    assert((y + 1) * width <= h * width) by (nonlinear_arith)
        requires
            y < h,
    ;
}

/// The changed-pixel mask of two RGBA buffers over their common area, and
/// how many pixels changed.
pub fn diff_buffers(pa: &Vec<u8>, wa: u32, ha: u32, pb: &Vec<u8>, wb: u32, hb: u32, threshold: u8) -> (r: (u64, Vec<bool>))
    requires
        pa@.len() >= 4 * wa * ha,
        pb@.len() >= 4 * wb * hb,
    ensures
        r.1@ == diff_mask(
            pa@,
            wa as nat,
            pb@,
            wb as nat,
            nat_min(wa as nat, wb as nat),
            nat_min(ha as nat, hb as nat),
            threshold,
        ),
        r.0 == count_set(r.1@, r.1@.len() as int),
{
    let w: u32 = if wa <= wb {
        wa
    } else {
        wb
    };
    let h: u32 = if ha <= hb {
        ha
    } else {
        hb
    };
    let ghost target = diff_mask(pa@, wa as nat, pb@, wb as nat, w as nat, h as nat, threshold);
    let mut mask: Vec<bool> = Vec::new();
    let mut count: u64 = 0;
    let mut y: u32 = 0;
    while y < h
        invariant
            pa@.len() >= 4 * wa * ha,
            pb@.len() >= 4 * wb * hb,
            w <= wa && w <= wb && h <= ha && h <= hb,
            target == diff_mask(pa@, wa as nat, pb@, wb as nat, w as nat, h as nat, threshold),
            y <= h,
            mask@.len() == y * w,
            forall|i: int| 0 <= i < mask@.len() ==> mask@[i] == #[trigger] target[i],
            count == count_set(mask@, mask@.len() as int),
            count <= mask@.len(),
        decreases h - y,
    {
        let mut x: u32 = 0;
        while x < w
            invariant
                pa@.len() >= 4 * wa * ha,
                pb@.len() >= 4 * wb * hb,
                w <= wa && w <= wb && h <= ha && h <= hb,
                target == diff_mask(pa@, wa as nat, pb@, wb as nat, w as nat, h as nat, threshold),
                y < h,
                x <= w,
                mask@.len() == y * w + x,
                forall|i: int| 0 <= i < mask@.len() ==> mask@[i] == #[trigger] target[i],
                count == count_set(mask@, mask@.len() as int),
                count <= mask@.len(),
            decreases w - x,
        {
            proof {
                lemma_pixel_index(y as nat, x as nat, w as nat, h as nat, wa as nat);
                lemma_pixel_index(y as nat, x as nat, w as nat, h as nat, wb as nat);
                assert(h * wa <= ha * wa) by (nonlinear_arith)
                    requires
                        h <= ha,
                ;
                assert(h * wb <= hb * wb) by (nonlinear_arith)
                    requires
                        h <= hb,
                ;
                assert(4 * wa * ha == 4 * (ha * wa)) by (nonlinear_arith);
                assert(4 * wb * hb == 4 * (hb * wb)) by (nonlinear_arith);
            }
            proof {
                assert(y as u64 * wa as u64 <= 0xffff_ffff * 0xffff_ffffu64) by (nonlinear_arith)
                    requires
                        y <= 0xffff_ffffu32,
                        wa <= 0xffff_ffffu32,
                ;
                assert(y as u64 * wb as u64 <= 0xffff_ffff * 0xffff_ffffu64) by (nonlinear_arith)
                    requires
                        y <= 0xffff_ffffu32,
                        wb <= 0xffff_ffffu32,
                ;
            }
            let ra: u64 = y as u64 * wa as u64 + x as u64;
            let rb: u64 = y as u64 * wb as u64 + x as u64;
            let la = pa.len();
            let lb = pb.len();
            assert(4 * ra + 3 <= la && 4 * rb + 3 <= lb);
            let ia = 4 * (ra as usize);
            let ib = 4 * (rb as usize);
            let dr = channel_gap(pa[ia], pb[ib]);
            let dg = channel_gap(pa[ia + 1], pb[ib + 1]);
            let db = channel_gap(pa[ia + 2], pb[ib + 2]);
            let changed = dr > threshold || dg > threshold || db > threshold;
            proof {
                let i = y * w + x;
                assert(i == y as int * w as int + x as int);
                vstd::arithmetic::div_mod::lemma_fundamental_div_mod_converse(i as int, w as int, y as int, x as int);
                assert(y as nat * w as nat + x < h as nat * w as nat) by (nonlinear_arith)
                    requires
                        y < h,
                        x < w,
                ;
                assert(target[i as int] == changed);
            }
            let ghost before = mask@;
            mask.push(changed);
            let ml = mask.len();
            assert(count < ml);
            if changed {
                count = count + 1;
            }
            proof {
                assert(mask@.drop_last() =~= before);
                assert(count_set(mask@, mask@.len() as int) == count_set(before, before.len() as int) + if changed {
                    1nat
                } else {
                    0nat
                }) by {
                    assert forall|j: int| 0 <= j < before.len() implies mask@[j] == before[j] by {}
                    lemma_count_prefix(mask@, before, before.len() as int);
                }
            }
            x = x + 1;
        }
        proof {
            assert((y + 1) * w == y * w + w) by (nonlinear_arith);
        }
        y = y + 1;
    }
    proof {
        assert(h as nat * w as nat == w as nat * h as nat) by (nonlinear_arith);
        assert(mask@ =~= target);
    }
    (count, mask)
}

proof fn lemma_count_prefix(a: Seq<bool>, b: Seq<bool>, n: int)
    requires
        0 <= n <= a.len(),
        n <= b.len(),
        forall|j: int| 0 <= j < n ==> a[j] == b[j],
    ensures
        count_set(a, n) == count_set(b, n),
    decreases n,
{
    if n > 0 {
        lemma_count_prefix(a, b, n - 1);
    }
}

/// The changed-pixel mask of two frames over their common area (a pixel
/// changed when its red, green or blue value moved by more than
/// `threshold`), and how many pixels changed.
pub fn pixel_diff(before: &Frame, after: &Frame, threshold: u8) -> (r: (u64, Vec<bool>))
    ensures
        r.1@ == diff_mask(
            before@.2,
            before@.0 as nat,
            after@.2,
            after@.0 as nat,
            nat_min(before@.0 as nat, after@.0 as nat),
            nat_min(before@.1 as nat, after@.1 as nat),
            threshold,
        ),
        r.0 == count_set(r.1@, r.1@.len() as int),
{
    diff_buffers(before.rgba(), before.width(), before.height(), after.rgba(), after.width(), after.height(), threshold)
}

/// A hash is at distance zero from itself.
pub proof fn law_distance_to_itself(h: Seq<u8>, n: int)
    ensures
        bits_apart(h, h, n) == 0,
    decreases n,
{
    if n > 0 {
        law_distance_to_itself(h, n - 1);
    }
}

/// The Hamming distance does not depend on the order of the hashes.
pub proof fn law_distance_symmetric(a: Seq<u8>, b: Seq<u8>, n: int)
    ensures
        bits_apart(a, b, n) == bits_apart(b, a, n),
    decreases n,
{
    if n > 0 {
        law_distance_symmetric(a, b, n - 1);
    }
}

/// Comparing a buffer with itself marks no pixel.
pub proof fn law_same_buffer_unchanged(p: Seq<u8>, wd: nat, w: nat, h: nat, threshold: u8)
    ensures
        forall|i: int| 0 <= i < w * h ==> !#[trigger] diff_mask(p, wd, p, wd, w, h, threshold)[i],
        count_set(diff_mask(p, wd, p, wd, w, h, threshold), (w * h) as int) == 0,
{
    let m = diff_mask(p, wd, p, wd, w, h, threshold);
    assert forall|i: int| 0 <= i < w * h implies !#[trigger] m[i] by {}
    lemma_count_none(m, (w * h) as int);
}

proof fn lemma_count_none(s: Seq<bool>, n: int)
    requires
        0 <= n <= s.len(),
        forall|i: int| 0 <= i < n ==> !#[trigger] s[i],
    ensures
        count_set(s, n) == 0,
    decreases n,
{
    if n > 0 {
        lemma_count_none(s, n - 1);
    }
}

} // verus!
