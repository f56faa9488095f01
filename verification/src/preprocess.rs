//! The image-preprocessing chain that readies a capture for recognition:
//! grayscale conversion, upscaling of narrow images, contrast
//! equalization, median denoising and sharpening.
//!
//! Grayscale conversion and resampling are done by the `image` crate
//! through trusted wrappers; the remaining stages are implemented and
//! verified here, each against a pixel-level spec function.

use vstd::arithmetic::div_mod::lemma_div_by_multiple;
use vstd::arithmetic::div_mod::lemma_div_is_ordered;
use vstd::arithmetic::div_mod::lemma_fundamental_div_mod;
use vstd::arithmetic::div_mod::lemma_fundamental_div_mod_converse;
use vstd::arithmetic::div_mod::lemma_multiply_divide_lt;
use vstd::prelude::*;

use crate::ocr::OcrEngine;
use crate::pixels::GrayImage;
use crate::pixels::RawImage;

verus! {

/// The luminance the `image` crate assigns to one RGB triple:
/// `(2126 r + 7152 g + 722 b) / 10000`.
pub open spec fn luma_value(r: u8, g: u8, b: u8) -> u8 {
    ((2126 * r + 7152 * g + 722 * b) / 10000) as u8
}

/// The grayscale buffer of an RGBA buffer of `n` pixels.
pub open spec fn gray_of(rgba: Seq<u8>, n: int) -> Seq<u8> {
    Seq::new(n as nat, |i: int| luma_value(rgba[4 * i], rgba[4 * i + 1], rgba[4 * i + 2]))
}

/// Relies on `image::imageops::grayscale`: each RGBA pixel becomes the
/// luminance of its RGB part, `(2126 r + 7152 g + 722 b) / 10000`, the
/// alpha byte ignored (`rgb_to_luma` in the crate's color module).
#[verifier::external_body]
fn grayscale_rgba(width: u32, height: u32, pixels: &Vec<u8>) -> (r: Vec<u8>)
    requires
        pixels@.len() == 4 * width * height,
    ensures
        r@ == gray_of(pixels@, width as int * height as int),
{
    let img = image::RgbaImage::from_raw(width, height, pixels.clone()).unwrap();
    image::imageops::grayscale(&img).into_raw()
}

/// The pixels that `image`'s Lanczos3 resampling produces for a
/// grayscale buffer; a fixed function of the buffer and the dimensions.
pub uninterp spec fn lanczos_resized(pixels: Seq<u8>, w: int, h: int, nw: int, nh: int) -> Seq<u8>;

/// Relies on `image::imageops::resize`: the result is a buffer of
/// exactly `nw * nh` pixels, resampled with the requested filter, and
/// depends on nothing but the inputs.
#[verifier::external_body]
fn resize_gray_lanczos(width: u32, height: u32, nw: u32, nh: u32, pixels: &Vec<u8>) -> (r: Vec<u8>)
    requires
        pixels@.len() == width * height,
        1 <= width <= 4096,
        1 <= height <= 4096,
        1 <= nw <= 4096,
        1 <= nh <= 4096,
    ensures
        r@ == lanczos_resized(pixels@, width as int, height as int, nw as int, nh as int),
        r@.len() == nw * nh,
{
    let img = image::ImageBuffer::<image::Luma<u8>, Vec<u8>>::from_raw(
        width,
        height,
        pixels.clone(),
    ).unwrap();
    image::imageops::resize(&img, nw, nh, image::imageops::FilterType::Lanczos3).into_raw()
}

/// How many elements of `p` equal `v`.
pub open spec fn count_eq(p: Seq<u8>, v: int) -> nat
    decreases p.len(),
{
    if p.len() == 0 {
        0
    } else {
        count_eq(p.drop_last(), v) + if p.last() == v {
            1nat
        } else {
            0nat
        }
    }
}

/// How many elements of `p` are at most `v`: the cumulative histogram.
pub open spec fn count_le(p: Seq<u8>, v: int) -> nat
    decreases p.len(),
{
    if p.len() == 0 {
        0
    } else {
        count_le(p.drop_last(), v) + if p.last() <= v {
            1nat
        } else {
            0nat
        }
    }
}

proof fn lemma_count_le_bound(p: Seq<u8>, v: int)
    ensures
        count_le(p, v) <= p.len(),
    decreases p.len(),
{
    if p.len() > 0 {
        lemma_count_le_bound(p.drop_last(), v);
    }
}

proof fn lemma_count_le_neg(p: Seq<u8>, v: int)
    requires
        v < 0,
    ensures
        count_le(p, v) == 0,
    decreases p.len(),
{
    if p.len() > 0 {
        lemma_count_le_neg(p.drop_last(), v);
    }
}

proof fn lemma_count_le_split(p: Seq<u8>, v: int)
    ensures
        count_le(p, v) == count_le(p, v - 1) + count_eq(p, v),
    decreases p.len(),
{
    if p.len() > 0 {
        lemma_count_le_split(p.drop_last(), v);
    }
}

proof fn lemma_count_le_monotone(p: Seq<u8>, v1: int, v2: int)
    requires
        v1 <= v2,
    ensures
        count_le(p, v1) <= count_le(p, v2),
    decreases p.len(),
{
    if p.len() > 0 {
        lemma_count_le_monotone(p.drop_last(), v1, v2);
    }
}

/// Where histogram equalization sends intensity `v` for buffer `p`:
/// `255 * (cumulative share of v)`, rounded to the nearest integer.
pub open spec fn remap_spec(p: Seq<u8>, v: int) -> int {
    ((510 * count_le(p, v) + p.len()) as int) / (2 * p.len() as int)
}

/// The equalized buffer: every pixel remapped through `remap_spec`.
pub open spec fn equalize_spec(p: Seq<u8>) -> Seq<u8> {
    Seq::new(p.len(), |i: int| remap_spec(p, p[i] as int) as u8)
}

/// The remapped intensity is always a byte.
pub proof fn lemma_remap_bounds(p: Seq<u8>, v: int)
    requires
        p.len() > 0,
    ensures
        0 <= remap_spec(p, v) <= 255,
{
    let n = p.len() as int;
    let c = count_le(p, v) as int;
    lemma_count_le_bound(p, v);
    assert(510 * c + n <= 511 * n) by (nonlinear_arith)
        requires
            c <= n,
    ;
    assert(511 * n < 256 * (2 * n)) by (nonlinear_arith)
        requires
            n > 0,
    ;
    lemma_multiply_divide_lt(510 * c + n, 2 * n, 256);
    lemma_div_is_ordered(0, 510 * c + n, 2 * n);
}

/// Histogram equalization is a monotone remap: pixels keep their
/// relative intensity order. In particular an already maximally
/// contrasted buffer keeps its aggregate intensity ordering.
pub proof fn lemma_equalize_monotone(p: Seq<u8>, i: int, j: int)
    requires
        0 <= i < p.len(),
        0 <= j < p.len(),
        p[i] <= p[j],
    ensures
        equalize_spec(p)[i] <= equalize_spec(p)[j],
{
    lemma_count_le_monotone(p, p[i] as int, p[j] as int);
    lemma_div_is_ordered(
        (510 * count_le(p, p[i] as int) + p.len()) as int,
        (510 * count_le(p, p[j] as int) + p.len()) as int,
        2 * p.len() as int,
    );
    lemma_remap_bounds(p, p[i] as int);
    lemma_remap_bounds(p, p[j] as int);
}

impl OcrEngine {
    /// Contrast enhancement by histogram equalization: computes the
    /// 256-bucket intensity histogram, its cumulative distribution, and
    /// remaps every pixel to `255 * cdf`, rounded.
    pub fn enhance_contrast(&self, img: &GrayImage) -> (out: GrayImage)
        requires
            img.wf(),
            1 <= img.width <= 4096,
            1 <= img.height <= 4096,
        ensures
            out.width == img.width,
            out.height == img.height,
            out.wf(),
            out.pixels@ == equalize_spec(img.pixels@),
    {
        let ghost px = img.pixels@;
        let n = img.pixels.len();
        proof {
            assert(img.width * img.height >= 1 && img.width * img.height <= 4096 * 4096)
                by (nonlinear_arith)
                requires
                    1 <= img.width <= 4096,
                    1 <= img.height <= 4096,
            ;
        }

        // the intensity histogram
        let mut hist: Vec<u64> = vec![0u64; 256];
        let mut i: usize = 0;
        proof {
            assert(px.take(0) =~= Seq::<u8>::empty());
        }
        while i < n
            invariant
                i <= n,
                n == px.len(),
                1 <= n <= 0x1000000,
                px == img.pixels@,
                hist@.len() == 256,
                forall|k: int| 0 <= k < 256 ==> hist@[k] == count_eq(px.take(i as int), k),
                forall|k: int| 0 <= k < 256 ==> hist@[k] <= i,
            decreases n - i,
        {
            let v = img.pixels[i];
            hist[v as usize] = hist[v as usize] + 1;
            proof {
                assert(px.take(i + 1).drop_last() =~= px.take(i as int));
                assert(px.take(i + 1).last() == px[i as int]);
            }
            i = i + 1;
        }
        proof {
            assert(px.take(n as int) =~= px);
        }

        // the cumulative distribution
        let mut cum: Vec<u64> = Vec::new();
        let mut running: u64 = 0;
        let mut v: usize = 0;
        proof {
            lemma_count_le_neg(px, -1);
        }
        while v < 256
            invariant
                v <= 256,
                n == px.len(),
                1 <= n <= 0x1000000,
                px == img.pixels@,
                hist@.len() == 256,
                forall|k: int| 0 <= k < 256 ==> hist@[k] == count_eq(px, k),
                cum@.len() == v,
                forall|k: int| 0 <= k < v ==> cum@[k] == count_le(px, k),
                running == count_le(px, v as int - 1),
            decreases 256 - v,
        {
            proof {
                lemma_count_le_split(px, v as int);
                lemma_count_le_bound(px, v as int);
            }
            running = running + hist[v];
            cum.push(running);
            v = v + 1;
        }

        // the remap table
        let mut table: Vec<u8> = Vec::new();
        let mut v: usize = 0;
        while v < 256
            invariant
                v <= 256,
                n == px.len(),
                1 <= n <= 0x1000000,
                px == img.pixels@,
                cum@.len() == 256,
                forall|k: int| 0 <= k < 256 ==> cum@[k] == count_le(px, k),
                table@.len() == v,
                forall|k: int| 0 <= k < v ==> table@[k] == remap_spec(px, k) as u8,
            decreases 256 - v,
        {
            proof {
                lemma_count_le_bound(px, v as int);
                lemma_remap_bounds(px, v as int);
            }
            let t = (510u64 * cum[v] + n as u64) / (2 * n as u64);
            table.push(t as u8);
            v = v + 1;
        }

        // remap every pixel
        let mut out: Vec<u8> = Vec::new();
        let mut i: usize = 0;
        while i < n
            invariant
                i <= n,
                n == px.len(),
                1 <= n <= 0x1000000,
                px == img.pixels@,
                table@.len() == 256,
                forall|k: int| 0 <= k < 256 ==> table@[k] == remap_spec(px, k) as u8,
                out@.len() == i,
                forall|k: int| 0 <= k < i ==> out@[k] == equalize_spec(px)[k],
            decreases n - i,
        {
            let v = img.pixels[i];
            out.push(table[v as usize]);
            i = i + 1;
        }
        proof {
            assert(out@ =~= equalize_spec(px));
        }
        GrayImage { width: img.width, height: img.height, pixels: out }
    }
}

/// Whether index `idx` of a `w` by `h` buffer is an interior pixel: not
/// on the outermost one-pixel ring. Border pixels pass the filters
/// unmodified.
pub open spec fn is_interior(w: int, h: int, idx: int) -> bool {
    &&& 1 <= idx % w <= w - 2
    &&& 1 <= idx / w <= h - 2
}

/// The three-by-three neighborhood of an interior pixel, row-major.
pub open spec fn neigh9(p: Seq<u8>, w: int, idx: int) -> Seq<u8> {
    seq![
        p[idx - w - 1],
        p[idx - w],
        p[idx - w + 1],
        p[idx - 1],
        p[idx],
        p[idx + 1],
        p[idx + w - 1],
        p[idx + w],
        p[idx + w + 1],
    ]
}

/// `x` inserted in front of the first element of `s` not below it; keeps
/// a sorted sequence sorted.
pub open spec fn sorted_insert(x: u8, s: Seq<u8>) -> Seq<u8>
    decreases s.len(),
{
    if s.len() == 0 {
        seq![x]
    } else if x <= s[0] {
        seq![x] + s
    } else {
        seq![s[0]] + sorted_insert(x, s.skip(1))
    }
}

/// Insertion sort of `s` from index `i` onward into accumulator `acc`.
pub open spec fn isort_from(s: Seq<u8>, i: int, acc: Seq<u8>) -> Seq<u8>
    decreases s.len() - i,
{
    if i < s.len() {
        isort_from(s, i + 1, sorted_insert(s[i], acc))
    } else {
        acc
    }
}

/// The median of a nine-element sequence: the fifth smallest value.
pub open spec fn median9(s: Seq<u8>) -> u8
    recommends
        s.len() == 9,
{
    isort_from(s, 0, Seq::empty())[4]
}

/// The median filter: every interior pixel becomes the median of its
/// three-by-three neighborhood; border pixels stay.
pub open spec fn denoise_spec(p: Seq<u8>, w: int, h: int) -> Seq<u8> {
    Seq::new(
        p.len(),
        |idx: int|
            if is_interior(w, h, idx) {
                median9(neigh9(p, w, idx))
            } else {
                p[idx]
            },
    )
}

/// An integer clamped into the byte range.
pub open spec fn clamp_byte(v: int) -> u8 {
    if v < 0 {
        0
    } else if v > 255 {
        255
    } else {
        v as u8
    }
}

/// The unsharp mask with kernel rows `0 -1 0`, `-1 5 -1`, `0 -1 0`:
/// every interior pixel becomes five times itself minus its four direct
/// neighbors, clamped to the byte range; border pixels stay.
pub open spec fn sharpen_spec(p: Seq<u8>, w: int, h: int) -> Seq<u8> {
    Seq::new(
        p.len(),
        |idx: int|
            if is_interior(w, h, idx) {
                clamp_byte(5 * p[idx] - p[idx - w] - p[idx - 1] - p[idx + 1] - p[idx + w])
            } else {
                p[idx]
            },
    )
}

proof fn lemma_sorted_insert_at(s: Seq<u8>, x: u8, k: int)
    requires
        0 <= k <= s.len(),
        forall|j: int| 0 <= j < k ==> s[j] < x,
        k < s.len() ==> x <= s[k],
    ensures
        sorted_insert(x, s) == s.insert(k, x),
    decreases k,
{
    if k == 0 {
        if s.len() == 0 {
            assert(sorted_insert(x, s) =~= s.insert(0, x));
        } else {
            assert(seq![x] + s =~= s.insert(0, x));
        }
    } else {
        let t = s.skip(1);
        assert(forall|j: int| 0 <= j < t.len() ==> t[j] == s[j + 1]);
        lemma_sorted_insert_at(t, x, k - 1);
        assert(seq![s[0]] + t.insert(k - 1, x) =~= s.insert(k, x));
    }
}

/// A fresh copy of a byte buffer.
fn copy_bytes(src: &Vec<u8>) -> (r: Vec<u8>)
    ensures
        r@ == src@,
{
    let mut r: Vec<u8> = Vec::new();
    let mut i: usize = 0;
    while i < src.len()
        invariant
            i <= src.len(),
            r@ == src@.take(i as int),
        decreases src.len() - i,
    {
        r.push(src[i]);
        proof {
            assert(src@.take(i + 1) =~= src@.take(i as int).push(src@[i as int]));
        }
        i = i + 1;
    }
    proof {
        assert(src@.take(src.len() as int) =~= src@);
    }
    r
}

/// Inserts `x` into the sorted vector `v`, keeping it sorted.
fn insert_sorted(v: &mut Vec<u8>, x: u8)
    ensures
        final(v)@ == sorted_insert(x, old(v)@),
        final(v)@.len() == old(v)@.len() + 1,
{
    let mut k: usize = 0;
    while k < v.len() && v[k] < x
        invariant
            k <= v@.len(),
            forall|j: int| 0 <= j < k ==> v@[j] < x,
            *v == *old(v),
        decreases v@.len() - k,
    {
        k = k + 1;
    }
    proof {
        lemma_sorted_insert_at(v@, x, k as int);
    }
    v.insert(k, x);
}

/// The median of nine values by insertion sort.
fn median_of_nine(vals: &Vec<u8>) -> (r: u8)
    requires
        vals@.len() == 9,
    ensures
        r == median9(vals@),
{
    let mut sorted: Vec<u8> = Vec::new();
    let mut m: usize = 0;
    while m < 9
        invariant
            m <= 9,
            vals@.len() == 9,
            sorted@.len() == m,
            isort_from(vals@, m as int, sorted@) == isort_from(vals@, 0, Seq::empty()),
        decreases 9 - m,
    {
        insert_sorted(&mut sorted, vals[m]);
        m = m + 1;
    }
    sorted[4]
}

impl OcrEngine {
    /// Noise removal by a three-by-three median filter over the interior
    /// pixels; the outermost one-pixel ring is left unmodified.
    pub fn denoise_image(&self, img: &GrayImage) -> (out: GrayImage)
        requires
            img.wf(),
            1 <= img.width <= 4096,
            1 <= img.height <= 4096,
        ensures
            out.width == img.width,
            out.height == img.height,
            out.wf(),
            out.pixels@ == denoise_spec(img.pixels@, img.width as int, img.height as int),
    {
        let ghost px = img.pixels@;
        let w = img.width as usize;
        let h = img.height as usize;
        let ghost dn = denoise_spec(px, w as int, h as int);
        proof {
            assert(w * h >= 1 && w * h <= 4096 * 4096) by (nonlinear_arith)
                requires
                    1 <= w <= 4096,
                    1 <= h <= 4096,
            ;
        }
        let n = w * h;
        let mut out = copy_bytes(&img.pixels);
        if w >= 3 && h >= 3 {
            let mut y: usize = 1;
            proof {
                assert forall|k: int| 0 <= k < n && k < 1 * w + 1 implies dn[k] == px[k] by {
                    if k < w {
                        lemma_fundamental_div_mod_converse(k, w as int, 0, k);
                    } else {
                        lemma_fundamental_div_mod_converse(k, w as int, 1, 0);
                    }
                }
            }
            while y < h - 1
                invariant
                    3 <= w <= 4096,
                    3 <= h <= 4096,
                    1 <= y <= h - 1,
                    n == w * h,
                    px.len() == n,
                    px == img.pixels@,
                    dn == denoise_spec(px, w as int, h as int),
                    out@.len() == n,
                    forall|k: int|
                        0 <= k < n ==> out@[k] == (if k < y * w + 1 {
                            dn[k]
                        } else {
                            px[k]
                        }),
                decreases h - y,
            {
                let mut x: usize = 1;
                while x < w - 1
                    invariant
                        3 <= w <= 4096,
                        3 <= h <= 4096,
                        1 <= y <= h - 2,
                        1 <= x <= w - 1,
                        n == w * h,
                        px.len() == n,
                        px == img.pixels@,
                        dn == denoise_spec(px, w as int, h as int),
                        out@.len() == n,
                        forall|k: int|
                            0 <= k < n ==> out@[k] == (if k < y * w + x {
                                dn[k]
                            } else {
                                px[k]
                            }),
                    decreases w - x,
                {
                    proof {
                        assert(y * w + x + w + 1 < n && y * w >= w) by (nonlinear_arith)
                            requires
                                1 <= y <= h - 2,
                                1 <= x <= w - 2,
                                3 <= w,
                                3 <= h,
                                n == w * h,
                        ;
                    }
                    let idx = y * w + x;
                    let mut vals: Vec<u8> = Vec::new();
                    vals.push(img.pixels[idx - w - 1]);
                    vals.push(img.pixels[idx - w]);
                    vals.push(img.pixels[idx - w + 1]);
                    vals.push(img.pixels[idx - 1]);
                    vals.push(img.pixels[idx]);
                    vals.push(img.pixels[idx + 1]);
                    vals.push(img.pixels[idx + w - 1]);
                    vals.push(img.pixels[idx + w]);
                    vals.push(img.pixels[idx + w + 1]);
                    let m = median_of_nine(&vals);
                    out[idx] = m;
                    proof {
                        lemma_fundamental_div_mod_converse(idx as int, w as int, y as int, x as int);
                        assert(vals@ =~= neigh9(px, w as int, idx as int));
                        assert(is_interior(w as int, h as int, idx as int));
                        assert(dn[idx as int] == median9(neigh9(px, w as int, idx as int)));
                    }
                    x = x + 1;
                }
                proof {
                    // the two cells between this row's last interior pixel and
                    // the next row's first are border cells
                    let k1 = y * w + (w - 1);
                    let k2 = y * w + w;
                    assert((y + 1) * w == y * w + w) by (nonlinear_arith);
                    assert(k2 + 1 <= n) by (nonlinear_arith)
                        requires
                            1 <= y <= h - 2,
                            3 <= w,
                            n == w * h,
                            k2 == y * w + w,
                    ;
                    lemma_fundamental_div_mod_converse(k1, w as int, y as int, w - 1);
                    lemma_fundamental_div_mod_converse(k2, w as int, y + 1, 0);
                }
                y = y + 1;
            }
            proof {
                assert forall|k: int| (h - 1) * w + 1 <= k < n implies dn[k] == px[k] by {
                    assert((h - 1) * w + w == h * w) by (nonlinear_arith);
                    lemma_fundamental_div_mod_converse(k, w as int, h - 1, k - (h - 1) * w);
                }
                assert(out@ =~= dn);
            }
        } else {
            proof {
                assert(out@ =~= dn);
            }
        }
        GrayImage { width: img.width, height: img.height, pixels: out }
    }

    /// Sharpening by the fixed unsharp kernel `0 -1 0 / -1 5 -1 / 0 -1 0`
    /// over the interior pixels, clamped to the byte range; the outermost
    /// one-pixel ring is left unmodified.
    pub fn sharpen_image(&self, img: &GrayImage) -> (out: GrayImage)
        requires
            img.wf(),
            1 <= img.width <= 4096,
            1 <= img.height <= 4096,
        ensures
            out.width == img.width,
            out.height == img.height,
            out.wf(),
            out.pixels@ == sharpen_spec(img.pixels@, img.width as int, img.height as int),
    {
        let ghost px = img.pixels@;
        let w = img.width as usize;
        let h = img.height as usize;
        let ghost sp = sharpen_spec(px, w as int, h as int);
        proof {
            assert(w * h >= 1 && w * h <= 4096 * 4096) by (nonlinear_arith)
                requires
                    1 <= w <= 4096,
                    1 <= h <= 4096,
            ;
        }
        let n = w * h;
        let mut out = copy_bytes(&img.pixels);
        if w >= 3 && h >= 3 {
            let mut y: usize = 1;
            proof {
                assert forall|k: int| 0 <= k < n && k < 1 * w + 1 implies sp[k] == px[k] by {
                    if k < w {
                        lemma_fundamental_div_mod_converse(k, w as int, 0, k);
                    } else {
                        lemma_fundamental_div_mod_converse(k, w as int, 1, 0);
                    }
                }
            }
            while y < h - 1
                invariant
                    3 <= w <= 4096,
                    3 <= h <= 4096,
                    1 <= y <= h - 1,
                    n == w * h,
                    px.len() == n,
                    px == img.pixels@,
                    sp == sharpen_spec(px, w as int, h as int),
                    out@.len() == n,
                    forall|k: int|
                        0 <= k < n ==> out@[k] == (if k < y * w + 1 {
                            sp[k]
                        } else {
                            px[k]
                        }),
                decreases h - y,
            {
                let mut x: usize = 1;
                while x < w - 1
                    invariant
                        3 <= w <= 4096,
                        3 <= h <= 4096,
                        1 <= y <= h - 2,
                        1 <= x <= w - 1,
                        n == w * h,
                        px.len() == n,
                        px == img.pixels@,
                        sp == sharpen_spec(px, w as int, h as int),
                        out@.len() == n,
                        forall|k: int|
                            0 <= k < n ==> out@[k] == (if k < y * w + x {
                                sp[k]
                            } else {
                                px[k]
                            }),
                    decreases w - x,
                {
                    proof {
                        assert(y * w + x + w + 1 < n && y * w >= w) by (nonlinear_arith)
                            requires
                                1 <= y <= h - 2,
                                1 <= x <= w - 2,
                                3 <= w,
                                3 <= h,
                                n == w * h,
                        ;
                    }
                    let idx = y * w + x;
                    let center = img.pixels[idx] as i32;
                    let up = img.pixels[idx - w] as i32;
                    let left = img.pixels[idx - 1] as i32;
                    let right = img.pixels[idx + 1] as i32;
                    let down = img.pixels[idx + w] as i32;
                    let sum = 5 * center - up - left - right - down;
                    let m: u8 = if sum < 0 {
                        0
                    } else if sum > 255 {
                        255
                    } else {
                        sum as u8
                    };
                    out[idx] = m;
                    proof {
                        lemma_fundamental_div_mod_converse(idx as int, w as int, y as int, x as int);
                        assert(is_interior(w as int, h as int, idx as int));
                    }
                    x = x + 1;
                }
                proof {
                    let k1 = y * w + (w - 1);
                    let k2 = y * w + w;
                    assert((y + 1) * w == y * w + w) by (nonlinear_arith);
                    assert(k2 + 1 <= n) by (nonlinear_arith)
                        requires
                            1 <= y <= h - 2,
                            3 <= w,
                            n == w * h,
                            k2 == y * w + w,
                    ;
                    lemma_fundamental_div_mod_converse(k1, w as int, y as int, w - 1);
                    lemma_fundamental_div_mod_converse(k2, w as int, y + 1, 0);
                }
                y = y + 1;
            }
            proof {
                assert forall|k: int| (h - 1) * w + 1 <= k < n implies sp[k] == px[k] by {
                    assert((h - 1) * w + w == h * w) by (nonlinear_arith);
                    lemma_fundamental_div_mod_converse(k, w as int, h - 1, k - (h - 1) * w);
                }
                assert(out@ =~= sp);
            }
        } else {
            proof {
                assert(out@ =~= sp);
            }
        }
        GrayImage { width: img.width, height: img.height, pixels: out }
    }
}

/// The numerator of the clamped upscale ratio for a width below the
/// 1000-pixel target: `1000 / w`, held within `3/2` and `4`.
pub open spec fn scale_num(w: int) -> int {
    if 2000 < 3 * w {
        3
    } else if 1000 > 4 * w {
        4
    } else {
        1000
    }
}

/// The denominator of the clamped upscale ratio.
pub open spec fn scale_den(w: int) -> int {
    if 2000 < 3 * w {
        2
    } else if 1000 > 4 * w {
        1
    } else {
        w
    }
}

/// Whether the upscale stage runs: the image is narrower than the
/// target and the scaled dimensions stay within 3000 by 3000.
pub open spec fn upscale_applies(w: int, h: int) -> bool {
    &&& w < 1000
    &&& w * scale_num(w) / scale_den(w) <= 3000
    &&& h * scale_num(w) / scale_den(w) <= 3000
}

/// The dimensions after the optional upscale stage.
pub open spec fn scaled_dims(w: int, h: int) -> (int, int) {
    if upscale_applies(w, h) {
        (w * scale_num(w) / scale_den(w), h * scale_num(w) / scale_den(w))
    } else {
        (w, h)
    }
}

/// The grayscale buffer after the optional upscale stage.
pub open spec fn pipeline_gray(rgba: Seq<u8>, w: int, h: int) -> Seq<u8> {
    let g = gray_of(rgba, w * h);
    if upscale_applies(w, h) {
        lanczos_resized(g, w, h, scaled_dims(w, h).0, scaled_dims(w, h).1)
    } else {
        g
    }
}

/// The whole preprocessing chain on an RGBA buffer: grayscale, optional
/// upscale, equalize, denoise, sharpen. A fixed function of the input
/// buffer and dimensions alone.
pub open spec fn preprocess_spec(rgba: Seq<u8>, w: int, h: int) -> Seq<u8> {
    let d = scaled_dims(w, h);
    sharpen_spec(denoise_spec(equalize_spec(pipeline_gray(rgba, w, h)), d.0, d.1), d.0, d.1)
}

/// Why preprocessing refused an image.
#[derive(Debug, Clone, Copy, PartialEq, Eq, Structural)]
pub enum PreprocessError {
    /// A dimension was zero.
    InvalidSize { width: u32, height: u32 },
    /// A dimension exceeded 4096 pixels.
    ImageTooLarge { width: u32, height: u32 },
}

/// The upscale stage respects the documented scale bounds: when it
/// runs, each dimension grows by a factor within `[3/2, 4]` (up to the
/// truncation of the division) and stays within 3000; otherwise the
/// dimensions are unchanged.
pub proof fn lemma_scaled_dims_bounds(w: int, h: int)
    requires
        1 <= w <= 4096,
        1 <= h <= 4096,
    ensures
        !upscale_applies(w, h) ==> scaled_dims(w, h) == (w, h),
        upscale_applies(w, h) ==> {
            let d = scaled_dims(w, h);
            &&& d.0 <= 3000 && d.1 <= 3000
            &&& 2 * d.0 >= 3 * w - 1 && 2 * d.1 >= 3 * h - 1
            &&& d.0 <= 4 * w && d.1 <= 4 * h
        },
        1 <= scaled_dims(w, h).0 <= 4096,
        1 <= scaled_dims(w, h).1 <= 4096,
{
    if upscale_applies(w, h) {
        let num = scale_num(w);
        let den = scale_den(w);
        let d0 = w * num / den;
        let d1 = h * num / den;
        if 2000 < 3 * w {
            // ratio 3/2
            lemma_fundamental_div_mod(3 * w, 2);
            lemma_fundamental_div_mod(3 * h, 2);
            assert(w * 3 == 3 * w && h * 3 == 3 * h) by (nonlinear_arith);
            lemma_div_is_ordered(3 * w, 8 * w, 2);
            lemma_div_by_multiple(4 * w, 2);
            assert(4 * w * 2 == 8 * w) by (nonlinear_arith);
            lemma_div_is_ordered(3 * h, 8 * h, 2);
            lemma_div_by_multiple(4 * h, 2);
            assert(4 * h * 2 == 8 * h) by (nonlinear_arith);
        } else if 1000 > 4 * w {
            // ratio 4
            lemma_div_by_multiple(4 * w, 1);
            lemma_div_by_multiple(4 * h, 1);
            assert(w * 4 == 4 * w * 1 && h * 4 == 4 * h * 1) by (nonlinear_arith);
        } else {
            // ratio 1000 / w, within the clamp by the case conditions
            assert(w * 1000 == 1000 * w) by (nonlinear_arith);
            lemma_div_by_multiple(1000, w);
            // lower bound for the height: 2 * (1000 h / w) >= 3 h - 1
            lemma_fundamental_div_mod(h * 1000, w);
            let q = h * 1000 / w;
            let r = h * 1000 % w;
            assert(h * 1000 == w * q + r);
            assert(2000 * h >= 3 * w * h) by (nonlinear_arith)
                requires
                    2000 >= 3 * w,
                    h >= 1,
            ;
            assert(w * (2 * q) == 2000 * h - 2 * r) by (nonlinear_arith)
                requires
                    h * 1000 == w * q + r,
            ;
            assert(2 * q >= 3 * h - 1) by (nonlinear_arith)
                requires
                    w * (2 * q) == 2000 * h - 2 * r,
                    2000 * h >= 3 * w * h,
                    0 <= r < w,
                    w >= 1,
            ;
            // upper bound for the height: 1000 h / w <= 4 h
            assert(h * 1000 <= 4 * h * w) by (nonlinear_arith)
                requires
                    1000 <= 4 * w,
                    h >= 1,
            ;
            lemma_div_is_ordered(h * 1000, 4 * h * w, w);
            lemma_div_by_multiple(4 * h, w);
            // d.0 and d.1 are at least 1
            lemma_div_is_ordered(w, h * 1000, w);
            lemma_div_by_multiple(1, w);
            assert(1 * w == w) by (nonlinear_arith);
            assert(h * 1000 >= w) by (nonlinear_arith)
                requires
                    h >= 1,
                    w < 1000,
            ;
        }
    }
}

/// The image (dimensions and RGBA pixels) that `DynamicImage::resize`
/// with the nearest-neighbor filter produces when asked to fit an RGBA
/// buffer within 200 by 100; a fixed function of the buffer and the
/// dimensions.
pub uninterp spec fn nearest_shrunk(pixels: Seq<u8>, w: int, h: int) -> (int, int, Seq<u8>);

/// Relies on `DynamicImage::resize` with the nearest-neighbor filter:
/// the result is an RGBA image scaled to fit within 200 by 100 (each
/// dimension forced to at least one), whose buffer length matches its
/// dimensions, and which depends on nothing but the inputs.
#[verifier::external_body]
fn shrink_rgba_nearest(width: u32, height: u32, pixels: &Vec<u8>) -> (r: (u32, u32, Vec<u8>))
    requires
        pixels@.len() == 4 * width * height,
        1 <= width <= 4096,
        1 <= height <= 4096,
    ensures
        r.0 as int == nearest_shrunk(pixels@, width as int, height as int).0,
        r.1 as int == nearest_shrunk(pixels@, width as int, height as int).1,
        r.2@ == nearest_shrunk(pixels@, width as int, height as int).2,
        r.2@.len() == 4 * r.0 * r.1,
        1 <= r.0 <= 200,
        1 <= r.1 <= 100,
{
    let img = image::RgbaImage::from_raw(width, height, pixels.clone()).unwrap();
    let small = image::DynamicImage::ImageRgba8(img).resize(
        200,
        100,
        image::imageops::FilterType::Nearest,
    );
    let buf = small.into_rgba8();
    (buf.width(), buf.height(), buf.into_raw())
}

impl OcrEngine {
    /// The heavily downscaled copy of the original capture that the last
    /// resort of the fallback chain hands to the engine: the
    /// nearest-neighbor shrink of the input, fitting within 200 by 100.
    /// Refuses empty or oversized images.
    pub fn downscale_for_retry(&self, img: &RawImage) -> (r: Option<RawImage>)
        requires
            img.wf(),
        ensures
            r matches Some(s) ==> {
                let d = nearest_shrunk(img.pixels@, img.width as int, img.height as int);
                &&& s.width as int == d.0
                &&& s.height as int == d.1
                &&& s.pixels@ == d.2
                &&& 1 <= s.width <= 200
                &&& 1 <= s.height <= 100
                &&& s.wf()
            },
            r is None <==> !(1 <= img.width <= 4096 && 1 <= img.height <= 4096),
    {
        if img.width == 0 || img.height == 0 || img.width > 4096 || img.height > 4096 {
            return None;
        }
        let parts = shrink_rgba_nearest(img.width, img.height, &img.pixels);
        let (nw, nh, buf) = parts;
        Some(RawImage { width: nw, height: nh, pixels: buf })
    }

    /// The whole preprocessing chain, readying a capture for the
    /// recognizer: size sanity check, grayscale conversion, upscale of
    /// narrow images by the clamped ratio, histogram equalization,
    /// median denoise, and sharpening. No partial output: an image with
    /// a zero or oversized dimension is refused up front.
    pub fn preprocess_image(&self, img: &RawImage) -> (r: Result<GrayImage, PreprocessError>)
        requires
            img.wf(),
        ensures
            img.width == 0 || img.height == 0 ==> r == Err::<GrayImage, PreprocessError>(
                PreprocessError::InvalidSize { width: img.width, height: img.height },
            ),
            img.width > 0 && img.height > 0 && (img.width > 4096 || img.height > 4096) ==> r
                == Err::<GrayImage, PreprocessError>(
                PreprocessError::ImageTooLarge { width: img.width, height: img.height },
            ),
            1 <= img.width <= 4096 && 1 <= img.height <= 4096 ==> (r matches Ok(g) && {
                let d = scaled_dims(img.width as int, img.height as int);
                &&& g.width == d.0 && g.height == d.1
                &&& g.wf()
                &&& 1 <= g.width <= 4096 && 1 <= g.height <= 4096
                &&& g.pixels@ == preprocess_spec(img.pixels@, img.width as int, img.height as int)
            }),
    {
        let w = img.width;
        let h = img.height;
        if w == 0 || h == 0 {
            return Err(PreprocessError::InvalidSize { width: w, height: h });
        }
        if w > 4096 || h > 4096 {
            return Err(PreprocessError::ImageTooLarge { width: w, height: h });
        }
        proof {
            lemma_scaled_dims_bounds(w as int, h as int);
        }

        let gray_buf = grayscale_rgba(w, h, &img.pixels);
        let mut gimg = GrayImage { width: w, height: h, pixels: gray_buf };

        if w < 1000 {
            let num: u64 = if 2000 < 3 * (w as u64) {
                3
            } else if 1000 > 4 * (w as u64) {
                4
            } else {
                1000
            };
            let den: u64 = if 2000 < 3 * (w as u64) {
                2
            } else if 1000 > 4 * (w as u64) {
                1
            } else {
                w as u64
            };
            let nw64: u64 = (w as u64) * num / den;
            let nh64: u64 = (h as u64) * num / den;
            if nw64 <= 3000 && nh64 <= 3000 {
                proof {
                    assert(upscale_applies(w as int, h as int));
                }
                let nw = nw64 as u32;
                let nh = nh64 as u32;
                let resized = resize_gray_lanczos(w, h, nw, nh, &gimg.pixels);
                gimg = GrayImage { width: nw, height: nh, pixels: resized };
            }
        }
        let equalized = self.enhance_contrast(&gimg);
        let denoised = self.denoise_image(&equalized);
        let sharpened = self.sharpen_image(&denoised);
        Ok(sharpened)
    }
}

} // verus!
