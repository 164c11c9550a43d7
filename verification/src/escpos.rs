//! ESC/POS raster bit-images (`GS v 0`): Floyd-Steinberg dithering of a
//! grayscale raster, MSB-first bit packing, and the command header.
use vstd::prelude::*;
use vstd::arithmetic::div_mod::lemma_fundamental_div_mod;
use vstd::arithmetic::div_mod::lemma_fundamental_div_mod_converse;
use image::imageops::FilterType;
use image::DynamicImage;

verus! {

// ── Grayscale raster ───────────────────────────────────────────────────────

/// An 8-bit grayscale image, row-major, one byte per pixel.
pub struct GrayRaster {
    pub width: u32,
    pub height: u32,
    pub pixels: Vec<u8>,
}

impl GrayRaster {
    /// The raster holds exactly one byte per pixel.
    pub open spec fn wf(&self) -> bool {
        self.pixels@.len() == self.width as int * self.height as int
    }

    /// A raster from its dimensions and pixels, if the pixel count matches.
    pub fn new(width: u32, height: u32, pixels: Vec<u8>) -> (r: Option<GrayRaster>)
        ensures
            r is Some <==> pixels@.len() == width as int * height as int,
            r matches Some(g) ==> g.wf() && g.width == width && g.height == height && g.pixels@
                == pixels@,
    {
        assert(width as int * height as int <= u64::MAX) by (nonlinear_arith)
            requires
                width <= u32::MAX,
                height <= u32::MAX,
        ;
        let n: u64 = width as u64 * height as u64;
        if pixels.len() as u64 == n {
            Some(GrayRaster { width, height, pixels })
        } else {
            None
        }
    }
}

// ── Floyd-Steinberg error diffusion ────────────────────────────────────────

/// Rust's `/` on signed integers: the quotient truncated toward zero.
pub open spec fn trunc_div(a: int, d: int) -> int {
    if a >= 0 {
        a / d
    } else {
        -((-a) / d)
    }
}

/// `v.clamp(0, 255)`.
pub open spec fn clamp_byte(v: int) -> int {
    if v < 0 {
        0
    } else if v > 255 {
        255
    } else {
        v
    }
}

/// The printed level of a clamped value: white (255) above 128, else black (0).
pub open spec fn quantize(v: int) -> int {
    if v > 128 {
        255
    } else {
        0
    }
}

/// Adds `d` to element `j`, when `j` is an index of `s`.
pub open spec fn add_at(s: Seq<int>, j: int, d: int) -> Seq<int> {
    if 0 <= j < s.len() {
        s.update(j, s[j] + d)
    } else {
        s
    }
}

/// Processes pixel `i` of a `w`×`h` buffer: quantizes it and spreads the error
/// to the right (7/16), lower-left (3/16), lower (5/16) and lower-right (1/16)
/// neighbours, each share truncated toward zero.
pub open spec fn diffuse_step(buf: Seq<int>, w: int, h: int, i: int) -> Seq<int> {
    let x = i % w;
    let y = i / w;
    let old = clamp_byte(buf[i]);
    let new = quantize(old);
    let err = old - new;
    let b0 = buf.update(i, new);
    let b1 = if x + 1 < w {
        add_at(b0, i + 1, trunc_div(err * 7, 16))
    } else {
        b0
    };
    let b2 = if y + 1 < h && x > 0 {
        add_at(b1, i + w - 1, trunc_div(err * 3, 16))
    } else {
        b1
    };
    let b3 = if y + 1 < h {
        add_at(b2, i + w, trunc_div(err * 5, 16))
    } else {
        b2
    };
    if y + 1 < h && x + 1 < w {
        add_at(b3, i + w + 1, trunc_div(err, 16))
    } else {
        b3
    }
}

/// The pixels as integers.
pub open spec fn widen(px: Seq<u8>) -> Seq<int> {
    Seq::new(px.len(), |j: int| px[j] as int)
}

/// The working buffer after the first `k` pixels (row-major) have been processed.
pub open spec fn diffused(px: Seq<u8>, w: int, h: int, k: nat) -> Seq<int>
    decreases k,
{
    if k == 0 {
        widen(px)
    } else {
        diffuse_step(diffused(px, w, h, (k - 1) as nat), w, h, k - 1)
    }
}

/// The dithered image: 1 where the pixel ends white, 0 where it ends black.
pub open spec fn dithered(px: Seq<u8>, w: int, h: int) -> Seq<u8> {
    let fin = diffused(px, w, h, (w * h) as nat);
    Seq::new((w * h) as nat, |j: int| if fin[j] > 128 { 1u8 } else { 0u8 })
}

/// The share of sixteenths of error that pixel `j` has received once the
/// pixels before `i` have been processed.
pub open spec fn received(j: int, i: int, w: int) -> int {
    (if j % w >= 1 && j - 1 < i { 7int } else { 0int }) + (if j >= w && j % w + 1 < w && j - w + 1
        < i {
        3int
    } else {
        0int
    }) + (if j >= w && j - w < i { 5int } else { 0int }) + (if j >= w && j % w >= 1 && j - w - 1
        < i {
        1int
    } else {
        0int
    })
}

/// What holds of the working buffer after `k` steps: processed pixels are
/// black or white, and each pending pixel has moved from its start by at
/// most 8 per sixteenth of error it has received.
pub open spec fn diffusion_bounded(px: Seq<u8>, w: int, h: int, k: int, buf: Seq<int>) -> bool {
    &&& buf.len() == px.len()
    &&& forall|j: int| 0 <= j < k && j < buf.len() ==> #[trigger] buf[j] == 0 || buf[j] == 255
    &&& forall|j: int|
        k <= j < buf.len() ==> -8 * received(j, k, w) <= #[trigger] buf[j] - px[j] <= 8 * received(
            j,
            k,
            w,
        )
}

/// Coordinates of a pixel index and of its neighbours.
proof fn lemma_grid(i: int, w: int, h: int)
    requires
        w > 0,
        h >= 0,
        0 <= i < w * h,
    ensures
        0 <= i % w < w,
        0 <= i / w < h,
        i == (i / w) * w + i % w,
        (i / w + 1 < h) <==> (i + w < w * h),
        i % w + 1 < w ==> (i + 1) % w == i % w + 1 && i + 1 < w * h,
        i % w + 1 == w ==> (i + 1) % w == 0,
        i % w > 0 ==> (i + w - 1) % w == i % w - 1,
        i % w == 0 ==> (i + w - 1) % w == w - 1,
        (i + w) % w == i % w,
        i % w + 1 < w ==> (i + w + 1) % w == i % w + 1,
        i % w + 1 < w && i + w < w * h ==> i + w + 1 < w * h,
        i % w + 1 == w ==> (i + w + 1) % w == 0,
{
    let x = i % w;
    let y = i / w;
    lemma_fundamental_div_mod(i, w);
    assert(0 <= x < w) by {
        vstd::arithmetic::div_mod::lemma_mod_bound(i, w);
    }
    assert(i == y * w + x) by (nonlinear_arith)
        requires
            i == w * (i / w) + i % w,
            x == i % w,
            y == i / w,
    ;
    assert(0 <= y) by {
        vstd::arithmetic::div_mod::lemma_div_pos_is_pos(i, w);
    }
    assert(y < h) by (nonlinear_arith)
        requires
            i == y * w + x,
            0 <= x,
            i < w * h,
            w > 0,
    ;
    assert((y + 1 < h) <==> (i + w < w * h)) by (nonlinear_arith)
        requires
            i == y * w + x,
            0 <= x < w,
            w > 0,
    ;
    assert((y + 1) * w == y * w + w) by (nonlinear_arith);
    assert(x + 1 < w ==> i + 1 < w * h) by (nonlinear_arith)
        requires
            i == y * w + x,
            y < h,
            w > 0,
    ;
    assert((y + 2) * w == y * w + w + w) by (nonlinear_arith);
    assert(x + 1 < w && y + 1 < h ==> i + w + 1 < w * h) by (nonlinear_arith)
        requires
            i == y * w + x,
            w > 0,
    ;
    if x + 1 < w {
        lemma_fundamental_div_mod_converse(i + 1, w, y, x + 1);
        lemma_fundamental_div_mod_converse(i + w + 1, w, y + 1, x + 1);
    } else {
        lemma_fundamental_div_mod_converse(i + 1, w, y + 1, 0);
        lemma_fundamental_div_mod_converse(i + w + 1, w, y + 2, 0);
    }
    if x > 0 {
        lemma_fundamental_div_mod_converse(i + w - 1, w, y + 1, x - 1);
    } else {
        lemma_fundamental_div_mod_converse(i + w - 1, w, y, w - 1);
    }
    lemma_fundamental_div_mod_converse(i + w, w, y + 1, x);
}

/// A share of an error of at most 128 is at most 8 per sixteenth.
proof fn lemma_share_bound(err: int, k: int)
    requires
        -128 <= err <= 128,
        1 <= k <= 16,
    ensures
        -8 * k <= trunc_div(err * k, 16) <= 8 * k,
{
    assert(-128 * k <= err * k <= 128 * k) by (nonlinear_arith)
        requires
            -128 <= err <= 128,
            1 <= k,
    ;
}

/// The working buffer stays bounded while the pixels are processed.
pub proof fn lemma_diffusion_bounded(px: Seq<u8>, w: int, h: int, k: nat)
    requires
        w > 0,
        h >= 0,
        px.len() == w * h,
        k <= w * h,
    ensures
        diffusion_bounded(px, w, h, k as int, diffused(px, w, h, k)),
    decreases k,
{
    if k == 0 {
        assert forall|j: int| 0 <= j < px.len() implies received(j, 0, w) >= 0 by {}
    } else {
        let i = k - 1;
        lemma_diffusion_bounded(px, w, h, (k - 1) as nat);
        lemma_grid(i, w, h);
        let buf = diffused(px, w, h, (k - 1) as nat);
        let n = w * h;
        let x = i % w;
        let y = i / w;
        assert(received(i, i, w) <= 16);
        assert(-128 <= buf[i] - px[i] <= 128);
        let old = clamp_byte(buf[i]);
        let new = quantize(old);
        let err = old - new;
        assert(-128 <= err <= 128);
        lemma_share_bound(err, 7);
        lemma_share_bound(err, 3);
        lemma_share_bound(err, 5);
        lemma_share_bound(err, 1);
        let next = diffuse_step(buf, w, h, i);
        assert(next == diffused(px, w, h, k));
        assert(next.len() == buf.len());
        assert forall|j: int| 0 <= j < k && j < next.len() implies #[trigger] next[j] == 0 || next[j]
            == 255 by {
            if j < i {
                assert(next[j] == buf[j]);
            }
        }
        assert forall|j: int| k <= j < next.len() implies -8 * received(j, k as int, w) <= #[trigger] next[j]
            - px[j] <= 8 * received(j, k as int, w) by {
            if j == i + 1 && x + 1 < w {
                assert(received(j, k as int, w) == received(j, i, w) + 7);
            } else if j == i + w - 1 && x > 0 && y + 1 < h {
                assert(received(j, k as int, w) == received(j, i, w) + 3);
            } else if j == i + w && y + 1 < h {
                assert(received(j, k as int, w) == received(j, i, w) + 5);
            } else if j == i + w + 1 && x + 1 < w && y + 1 < h {
                assert(received(j, k as int, w) == received(j, i, w) + 1);
            } else {
                assert(next[j] == buf[j]);
                assert(received(j, k as int, w) >= received(j, i, w));
            }
        }
    }
}

/// The buffer's values as integers.
pub open spec fn as_ints(v: Seq<i32>) -> Seq<int> {
    Seq::new(v.len(), |k: int| v[k] as int)
}

fn add_share(buf: &mut Vec<i32>, j: usize, share: i32)
    requires
        j < old(buf)@.len(),
        -1000 <= old(buf)@[j as int] <= 1000,
        -100 <= share <= 100,
    ensures
        as_ints(final(buf)@) == add_at(as_ints(old(buf)@), j as int, share as int),
{
    let t = buf[j] + share;
    buf.set(j, t);
    assert(as_ints(buf@) =~= add_at(as_ints(old(buf)@), j as int, share as int));
}

/// Floyd-Steinberg error-diffusion dithering. Returns a flat 0/1 vec (0=black), row-major.
pub fn floyd_steinberg(gray: &GrayRaster) -> (r: Vec<u8>)
    requires
        gray.wf(),
    ensures
        r@ == dithered(gray.pixels@, gray.width as int, gray.height as int),
{
    let ghost px = gray.pixels@;
    let ghost wi = gray.width as int;
    let ghost hi = gray.height as int;
    let w = gray.width as usize;
    let h = gray.height as usize;
    let n = gray.pixels.len();
    let mut buf: Vec<i32> = Vec::new();
    let mut j: usize = 0;
    while j < n
        invariant
            n == px.len(),
            gray.pixels@ == px,
            j <= n,
            buf@.len() == j,
            forall|k: int| 0 <= k < j ==> buf@[k] as int == px[k] as int,
        decreases n - j,
    {
        buf.push(gray.pixels[j] as i32);
        j = j + 1;
    }
    assert(as_ints(buf@) =~= widen(px));
    let mut i: usize = 0;
    let mut x: usize = 0;
    proof {
        if n > 0 {
            assert(wi > 0) by (nonlinear_arith)
                requires
                    n == wi * hi,
                    n > 0,
                    wi >= 0,
                    hi >= 0,
            ;
            vstd::arithmetic::div_mod::lemma_small_mod(0, wi as nat);
        }
    }
    while i < n
        invariant
            n == px.len(),
            n == wi * hi,
            w as int == wi,
            h as int == hi,
            i <= n,
            buf@.len() == n,
            as_ints(buf@) == diffused(px, wi, hi, i as nat),
            i < n ==> w > 0 && x as int == i as int % wi,
        decreases n - i,
    {
        let ghost before = as_ints(buf@);
        proof {
            lemma_diffusion_bounded(px, wi, hi, i as nat);
            lemma_grid(i as int, wi, hi);
            assert(before[i as int] == buf@[i as int] as int);
            assert forall|q: int| i <= q < n implies -128 <= #[trigger] before[q] <= 383 by {
                assert(received(q, i as int, wi) <= 16);
                assert(-8 * received(q, i as int, wi) <= before[q] - px[q] <= 8 * received(q, i as int, wi));
            }
        }
        let v = buf[i];
        let old: i32 = if v < 0 {
            0
        } else if v > 255 {
            255
        } else {
            v
        };
        let new: i32 = if old > 128 {
            255
        } else {
            0
        };
        let err: i32 = old - new;
        proof {
            lemma_share_bound(err as int, 7);
            lemma_share_bound(err as int, 3);
            lemma_share_bound(err as int, 5);
            lemma_share_bound(err as int, 1);
        }
        let ghost iw = i as int;
        let ghost b0 = before.update(iw, new as int);
        buf.set(i, new);
        assert(as_ints(buf@) =~= b0);
        let ghost b1 = if (x as int) + 1 < wi { add_at(b0, iw + 1, trunc_div(err * 7, 16)) } else { b0 };
        if x + 1 < w {
            add_share(&mut buf, i + 1, err * 7 / 16);
        }
        assert(as_ints(buf@) == b1);
        assert forall|q: int| iw < q < n implies -300 <= #[trigger] b1[q] <= 600 by {}
        let ghost b2 = if iw + wi < n && x > 0 { add_at(b1, iw + wi - 1, trunc_div(err * 3, 16)) } else { b1 };
        let ghost b3 = if iw + wi < n { add_at(b2, iw + wi, trunc_div(err * 5, 16)) } else { b2 };
        let ghost b4 = if iw + wi < n && (x as int) + 1 < wi { add_at(b3, iw + wi + 1, trunc_div(err as int, 16)) } else { b3 };
        if w < n - i {
            if x > 0 {
                add_share(&mut buf, i + w - 1, err * 3 / 16);
            }
            assert(as_ints(buf@) == b2);
            assert forall|q: int| iw < q < n implies -400 <= #[trigger] b2[q] <= 700 by {}
            add_share(&mut buf, i + w, err * 5 / 16);
            assert(as_ints(buf@) == b3);
            assert forall|q: int| iw < q < n implies -500 <= #[trigger] b3[q] <= 800 by {}
            if x + 1 < w {
                add_share(&mut buf, i + w + 1, err / 16);
            }
        }
        assert(as_ints(buf@) == b4);
        assert(b4 == diffuse_step(before, wi, hi, iw));
        i = i + 1;
        if x + 1 < w {
            x = x + 1;
        } else {
            x = 0;
        }
    }
    let ghost fin = diffused(px, wi, hi, n as nat);
    let mut out: Vec<u8> = Vec::new();
    let mut k: usize = 0;
    while k < n
        invariant
            n == wi * hi,
            buf@.len() == n,
            as_ints(buf@) == fin,
            fin == diffused(px, wi, hi, (wi * hi) as nat),
            k <= n,
            out@.len() == k,
            forall|q: int| 0 <= q < k ==> out@[q] == (if fin[q] > 128 { 1u8 } else { 0u8 }),
        decreases n - k,
    {
        assert(fin[k as int] == buf@[k as int] as int);
        if buf[k] > 128 {
            out.push(1);
        } else {
            out.push(0);
        }
        k = k + 1;
    }
    assert(out@ =~= dithered(px, wi, hi));
    out
}


/// Pixels that are all black (0) or white (255) carry no error: dithering
/// just reads them as they are.
pub proof fn lemma_dither_keeps_pure_pixels(px: Seq<u8>, w: int, h: int)
    requires
        w > 0,
        h >= 0,
        px.len() == w * h,
        forall|j: int| 0 <= j < px.len() ==> #[trigger] px[j] == 0 || px[j] == 255,
    ensures
        forall|j: int| 0 <= j < w * h ==> #[trigger] dithered(px, w, h)[j] == (if px[j] == 255 { 1u8 } else { 0u8 }),
{
    lemma_pure_pixels_stay(px, w, h, (w * h) as nat);
}

proof fn lemma_pure_pixels_stay(px: Seq<u8>, w: int, h: int, k: nat)
    requires
        w > 0,
        h >= 0,
        px.len() == w * h,
        k <= w * h,
        forall|j: int| 0 <= j < px.len() ==> #[trigger] px[j] == 0 || px[j] == 255,
    ensures
        diffused(px, w, h, k) == widen(px),
    decreases k,
{
    if k > 0 {
        let i = k - 1;
        lemma_pure_pixels_stay(px, w, h, (k - 1) as nat);
        let buf = widen(px);
        assert(buf[i] == 0 || buf[i] == 255);
        assert(buf.update(i, buf[i]) =~= buf);
        assert forall|j: int, d: int| d == 0 implies #[trigger] add_at(buf, j, d) == buf by {
            if 0 <= j < buf.len() {
                assert(buf.update(j, buf[j] + d) =~= buf);
            }
        }
    }
}

/// Every dithered pixel is 0 (black) or 1 (white).
pub proof fn lemma_dither_is_binary(px: Seq<u8>, w: int, h: int, j: int)
    requires
        0 <= j < w * h,
    ensures
        dithered(px, w, h)[j] == 0 || dithered(px, w, h)[j] == 1,
{
}

// ── Bit packing ────────────────────────────────────────────────────────────

/// 1 when pixel `x` of row `y` exists and is black (0), else 0.
pub open spec fn pixel_bit(bits: Seq<u8>, w: int, y: int, x: int) -> int {
    if x < w && bits[y * w + x] == 0 {
        1
    } else {
        0
    }
}

/// The first `k` pixels of byte `b` of row `y`, read as a binary number, leftmost first.
pub open spec fn byte_prefix(bits: Seq<u8>, w: int, y: int, b: int, k: nat) -> int
    decreases k,
{
    if k == 0 {
        0
    } else {
        2 * byte_prefix(bits, w, y, b, (k - 1) as nat) + pixel_bit(bits, w, y, 8 * b + k - 1)
    }
}

/// `2` to the power `k`.
pub open spec fn two_pow(k: nat) -> int
    decreases k,
{
    if k == 0 {
        1
    } else {
        2 * two_pow((k - 1) as nat)
    }
}

proof fn lemma_byte_prefix_bound(bits: Seq<u8>, w: int, y: int, b: int, k: nat)
    ensures
        0 <= byte_prefix(bits, w, y, b, k) < two_pow(k),
    decreases k,
{
    if k > 0 {
        lemma_byte_prefix_bound(bits, w, y, b, (k - 1) as nat);
    }
}

proof fn lemma_two_pow_positive(k: nat)
    ensures
        two_pow(k) >= 1,
    decreases k,
{
    if k > 0 {
        lemma_two_pow_positive((k - 1) as nat);
    }
}

proof fn lemma_prefix_bits(bits: Seq<u8>, w: int, y: int, b: int, n: nat, k: nat)
    requires
        k < n,
    ensures
        (byte_prefix(bits, w, y, b, n) / two_pow((n - 1 - k) as nat)) % 2 == pixel_bit(
            bits,
            w,
            y,
            8 * b + k,
        ),
    decreases n,
{
    let bit = pixel_bit(bits, w, y, 8 * b + n - 1);
    let a = byte_prefix(bits, w, y, b, (n - 1) as nat);
    lemma_byte_prefix_bound(bits, w, y, b, (n - 1) as nat);
    assert(byte_prefix(bits, w, y, b, n) == 2 * a + bit);
    if k + 1 == n {
        assert(two_pow(0) == 1);
        assert((2 * a + bit) / 1 == 2 * a + bit);
    } else {
        lemma_prefix_bits(bits, w, y, b, (n - 1) as nat, k);
        let c = two_pow((n - 2 - k) as nat);
        lemma_two_pow_positive((n - 2 - k) as nat);
        assert(two_pow((n - 1 - k) as nat) == 2 * c);
        vstd::arithmetic::div_mod::lemma_div_denominator(2 * a + bit, 2, c);
        assert((2 * a + bit) / 2 == a);
    }
}

/// Bit `7 - k` of a packed byte is set exactly when pixel `k` of its eight is black.
pub proof fn lemma_packed_bit(bits: Seq<u8>, w: int, y: int, b: int, k: nat)
    requires
        k < 8,
    ensures
        (packed_byte(bits, w, y, b) as int / two_pow((7 - k) as nat)) % 2 == pixel_bit(bits, w, y, 8 * b + k),
{
    lemma_byte_prefix_bound(bits, w, y, b, 8);
    assert(two_pow(8) == 256) by {
        reveal_with_fuel(two_pow, 9);
    }
    lemma_prefix_bits(bits, w, y, b, 8, k);
}

/// Byte `b` of row `y`: bit 7 is the leftmost of its eight pixels, set when that pixel is black.
pub open spec fn packed_byte(bits: Seq<u8>, w: int, y: int, b: int) -> u8 {
    byte_prefix(bits, w, y, b, 8) as u8
}

/// The packed raster: `bpl` bytes per row, `h` rows.
pub open spec fn packed(bits: Seq<u8>, w: int, h: int, bpl: int) -> Seq<u8> {
    Seq::new((bpl * h) as nat, |i: int| packed_byte(bits, w, i / bpl, i % bpl))
}

/// Packs 1-bit pixels MSB-first into bytes (ESC/POS: bit 7 = leftmost pixel).
pub fn pack_bits(bits: &[u8], w: u32, h: u32, bytes_per_line: u32) -> (r: Vec<u8>)
    requires
        bits@.len() >= w as int * h as int,
        h == 0 || w as int <= 8 * bytes_per_line as int,
        bytes_per_line as int * h as int <= usize::MAX,
    ensures
        r@ == packed(bits@, w as int, h as int, bytes_per_line as int),
{
    let ghost wi = w as int;
    let ghost hi = h as int;
    let ghost bpl = bytes_per_line as int;
    let blen = bits.len();
    let mut out: Vec<u8> = Vec::new();
    let mut y: u32 = 0;
    let mut row_start: usize = 0;
    while y < h
        invariant
            wi == w as int,
            hi == h as int,
            bpl == bytes_per_line as int,
            bits@.len() >= wi * hi,
            blen as int == bits@.len(),
            h == 0 || wi <= 8 * bpl,
            bpl * hi <= usize::MAX,
            y <= h,
            row_start as int == y as int * wi,
            out@.len() == y as int * bpl,
            forall|i: int| 0 <= i < out@.len() ==> #[trigger] out@[i] == packed_byte(bits@, wi, i / bpl, i % bpl),
        decreases h - y,
    {
        proof {
            assert((y as int + 1) * wi <= hi * wi) by (nonlinear_arith)
                requires
                    y < hi,
                    wi >= 0,
            ;
            assert((y as int + 1) * wi == y as int * wi + wi) by (nonlinear_arith);
            assert((y as int + 1) * bpl == y as int * bpl + bpl) by (nonlinear_arith);
            assert((y as int + 1) * bpl <= bpl * hi) by (nonlinear_arith)
                requires
                    y < hi,
                    bpl >= 0,
            ;
        }
        let mut b: u32 = 0;
        while b < bytes_per_line
            invariant
                wi == w as int,
                hi == h as int,
                bpl == bytes_per_line as int,
                (y as int + 1) * wi == y as int * wi + wi,
                bits@.len() >= wi * hi,
                blen as int == bits@.len(),
                h == 0 || wi <= 8 * bpl,
                y < h,
                row_start as int == y as int * wi,
                (y as int + 1) * wi <= hi * wi,
                (y as int + 1) * bpl <= bpl * hi,
                bpl * hi <= usize::MAX,
                b <= bytes_per_line,
                out@.len() == y as int * bpl + b,
                forall|i: int| 0 <= i < out@.len() ==> #[trigger] out@[i] == packed_byte(bits@, wi, i / bpl, i % bpl),
            decreases bytes_per_line - b,
        {
            let mut byte: u8 = 0;
            let mut k: u32 = 0;
            while k < 8
                invariant
                    wi == w as int,
                    hi == h as int,
                    bpl == bytes_per_line as int,
                    (y as int + 1) * wi == y as int * wi + wi,
                    bits@.len() >= wi * hi,
                    blen as int == bits@.len(),
                    y < h,
                    row_start as int == y as int * wi,
                    (y as int + 1) * wi <= hi * wi,
                    b < bytes_per_line,
                    k <= 8,
                    byte as int == byte_prefix(bits@, wi, y as int, b as int, k as nat),
                decreases 8 - k,
            {
                proof {
                    lemma_byte_prefix_bound(bits@, wi, y as int, b as int, k as nat);
                    assert(two_pow(k as nat) <= 128) by {
                        reveal_with_fuel(two_pow, 8);
                    }
                }
                let x: u64 = b as u64 * 8 + k as u64;
                let bit: u8 = if x < w as u64 && bits[row_start + x as usize] == 0 {
                    1
                } else {
                    0
                };
                assert(bit as int == pixel_bit(bits@, wi, y as int, 8 * b + k));
                byte = byte * 2 + bit;
                k = k + 1;
            }
            proof {
                let idx = y as int * bpl + b as int;
                lemma_fundamental_div_mod_converse(idx, bpl, y as int, b as int);
            }
            out.push(byte);
            b = b + 1;
        }
        row_start = row_start + w as usize;
        y = y + 1;
    }
    proof {
        assert(hi * bpl == bpl * hi) by (nonlinear_arith);
    }
    assert(out@ =~= packed(bits@, wi, hi, bpl));
    out
}


// ── The GS v 0 command ─────────────────────────────────────────────────────

/// `GS v 0` in normal mode, then the width in bytes and the height in dots,
/// each as a little-endian 16-bit number (higher bits are dropped).
pub open spec fn raster_header(bytes_per_line: int, h: int) -> Seq<u8> {
    seq![
        0x1Du8,
        0x76u8,
        0x30u8,
        0x00u8,
        (bytes_per_line % 256) as u8,
        ((bytes_per_line / 256) % 256) as u8,
        (h % 256) as u8,
        ((h / 256) % 256) as u8,
    ]
}

/// Bytes per raster line for a width in dots: the width divided by 8, rounded up.
pub open spec fn bytes_per_line(w: int) -> int {
    (w + 7) / 8
}

/// The complete ESC/POS stream for a grayscale raster: header, then the
/// dithered and packed image.
pub open spec fn escpos_image(px: Seq<u8>, w: int, h: int) -> Seq<u8> {
    raster_header(bytes_per_line(w), h) + packed(dithered(px, w, h), w, h, bytes_per_line(w))
}

/// The stream is the 8-byte header followed by one packed line per row.
pub proof fn lemma_escpos_length(px: Seq<u8>, w: int, h: int)
    requires
        w >= 0,
        h >= 0,
    ensures
        escpos_image(px, w, h).len() == 8 + bytes_per_line(w) * h,
{
    assert(bytes_per_line(w) * h >= 0) by (nonlinear_arith)
        requires
            bytes_per_line(w) >= 0,
            h >= 0,
    ;
}

/// The header's width field (its bytes 4 and 5, little-endian) is the number
/// of bytes per line, and the body is a whole number of such lines.
pub proof fn lemma_escpos_header_width(px: Seq<u8>, w: int, h: int)
    requires
        w > 0,
        h >= 0,
    ensures
        escpos_image(px, w, h).len() >= 8,
        escpos_image(px, w, h)[4] as int + 256 * escpos_image(px, w, h)[5] as int == bytes_per_line(w)
            % 65536,
        (escpos_image(px, w, h).len() - 8) % bytes_per_line(w) == 0,
{
    let b = bytes_per_line(w);
    let s = escpos_image(px, w, h);
    lemma_escpos_length(px, w, h);
    assert(s[4] == raster_header(b, h)[4]);
    assert(s[5] == raster_header(b, h)[5]);
    assert((b % 256) + 256 * ((b / 256) % 256) == b % 65536) by {
        lemma_fundamental_div_mod(b, 256);
        lemma_fundamental_div_mod(b / 256, 256);
        lemma_fundamental_div_mod(b, 65536);
        vstd::arithmetic::div_mod::lemma_div_denominator(b, 256, 256);
        vstd::arithmetic::div_mod::lemma_breakdown(b, 256, 256);
    }
    assert(b > 0);
    vstd::arithmetic::div_mod::lemma_mod_multiples_basic(h, b);
    assert(b * h == h * b) by (nonlinear_arith);
}

/// Dithers a grayscale raster and frames it as an ESC/POS `GS v 0` bit image.
pub fn escpos_raster_from_gray(gray: &GrayRaster) -> (r: Vec<u8>)
    requires
        gray.wf(),
    ensures
        r@ == escpos_image(gray.pixels@, gray.width as int, gray.height as int),
{
    let w = gray.width;
    let h = gray.height;
    let bits = floyd_steinberg(gray);
    let bpl: u32 = if w % 8 == 0 {
        w / 8
    } else {
        w / 8 + 1
    };
    assert(bpl as int == bytes_per_line(w as int));
    proof {
        assert(bpl as int * h as int <= w as int * h as int) by (nonlinear_arith)
            requires
                bpl <= w,
                h >= 0,
        ;
        assert(gray.pixels@.len() <= usize::MAX) by {
            let _ = gray.pixels.len();
        }
    }
    let mut raster = pack_bits(bits.as_slice(), w, h, bpl);
    let mut out: Vec<u8> = Vec::new();
    out.push(0x1D);
    out.push(0x76);
    out.push(0x30);
    out.push(0x00);
    out.push((bpl % 256) as u8);
    out.push(((bpl / 256) % 256) as u8);
    out.push((h % 256) as u8);
    out.push(((h / 256) % 256) as u8);
    assert(out@ =~= raster_header(bytes_per_line(w as int), h as int));
    out.append(&mut raster);
    out
}

// ── Decoding through the image crate ───────────────────────────────────────

#[verifier::external_type_specification]
#[verifier::external_body]
pub struct ExDynamicImage(DynamicImage);

/// The resampling filters of the image crate.
#[derive(Debug, Clone, Copy, PartialEq, Eq)]
pub enum ResizeFilter {
    Nearest,
    Triangle,
    CatmullRom,
    Gaussian,
    Lanczos3,
}

/// The resizes applied to an image, in order: bounds and filter of each.
pub type Resizes = Seq<(u32, u32, ResizeFilter)>;

/// A decoded image, with how it was obtained: the bytes it was decoded from
/// and the resizes applied since. Only the image wrappers below make one.
pub struct DecodedImage {
    image: DynamicImage,
    source: Ghost<Seq<u8>>,
    resizes: Ghost<Resizes>,
}

impl DecodedImage {
    /// The bytes the image was decoded from.
    pub closed spec fn source(&self) -> Seq<u8> {
        self.source@
    }

    /// The resizes applied to it since decoding.
    pub closed spec fn resizes(&self) -> Resizes {
        self.resizes@
    }
}

/// Whether `image::load_from_memory` decodes these bytes (format guessed from the content).
pub uninterp spec fn image_decodes(data: Seq<u8>) -> bool;

/// The width `DynamicImage::width` gives for the image decoded from `data`
/// and then resized as listed.
pub uninterp spec fn image_width_of(data: Seq<u8>, resizes: Resizes) -> u32;

/// What `DynamicImage::to_luma8` makes of the image decoded from `data` and
/// then resized as listed: width, height and row-major 8-bit gray pixels.
pub uninterp spec fn luma_raster(data: Seq<u8>, resizes: Resizes) -> (u32, u32, Seq<u8>);

/// `image::load_from_memory`: guesses the format from the bytes and decodes them.
/// Trusted: whether decoding succeeds is a function of the bytes, named
/// `image_decodes`; the image remembers the bytes it came from.
#[verifier::external_body]
fn load_from_memory(data: &[u8]) -> (r: Option<DecodedImage>)
    ensures
        r is Some <==> image_decodes(data@),
        r matches Some(img) ==> img.source() == data@ && img.resizes() == Seq::<(u32, u32, ResizeFilter)>::empty(),
{
    match image::load_from_memory(data) {
        Ok(image) => Some(DecodedImage { image, source: Ghost(data@), resizes: Ghost(Seq::empty()) }),
        Err(_) => None,
    }
}

/// `DynamicImage::width`. Trusted: the width is a function of how the image
/// was obtained, named `image_width_of`.
#[verifier::external_body]
fn image_width(img: &DecodedImage) -> (r: u32)
    ensures
        r == image_width_of(img.source(), img.resizes()),
{
    img.image.width()
}

/// `DynamicImage::resize`: scales the image, keeping its aspect ratio, to the
/// largest size that fits the bounds. Trusted: the result is the same image
/// with this resize added to its history; its pixels are left to the names
/// above. When the height is unbounded (`u32::MAX`) and the width bound is
/// the tighter one by a factor of two or more, the new width is exactly
/// `nwidth`: `resize_dimensions` then scales by `nwidth / width`, and
/// `width * (nwidth / width)` rounds back to `nwidth`. (The height of the image
/// is the height that `to_luma8` reports, which keeps the dimensions.)
#[verifier::external_body]
fn resize_image(img: &DecodedImage, nwidth: u32, nheight: u32, filter: ResizeFilter) -> (r: DecodedImage)
    ensures
        r.source() == img.source(),
        r.resizes() == img.resizes().push((nwidth, nheight, filter)),
        nheight == u32::MAX && 0 < nwidth && 0 < image_width_of(img.source(), img.resizes()) && 2
            * nwidth * luma_raster(img.source(), img.resizes()).1 <= image_width_of(
            img.source(),
            img.resizes(),
        ) * u32::MAX ==> image_width_of(r.source(), r.resizes()) == nwidth,
{
    let f = match filter {
        ResizeFilter::Nearest => FilterType::Nearest,
        ResizeFilter::Triangle => FilterType::Triangle,
        ResizeFilter::CatmullRom => FilterType::CatmullRom,
        ResizeFilter::Gaussian => FilterType::Gaussian,
        ResizeFilter::Lanczos3 => FilterType::Lanczos3,
    };
    let image = img.image.resize(nwidth, nheight, f);
    DecodedImage { image, source: Ghost(img.source@), resizes: Ghost(img.resizes@.push((nwidth, nheight, filter))) }
}

/// `DynamicImage::to_luma8`: the image converted to 8-bit grayscale, taken
/// apart into its width, height and row-major pixels. Trusted: the result is a
/// function of how the image was obtained, named `luma_raster`; the pixel
/// count is width times height, as `ImageBuffer::pixels` yields exactly that
/// many; and the conversion keeps the image's width.
#[verifier::external_body]
fn to_luma8(img: &DecodedImage) -> (r: GrayRaster)
    ensures
        r.wf(),
        (r.width, r.height, r.pixels@) == luma_raster(img.source(), img.resizes()),
        r.width == image_width_of(img.source(), img.resizes()),
{
    let gray = img.image.to_luma8();
    let (width, height) = gray.dimensions();
    GrayRaster { width, height, pixels: gray.pixels().map(|p| p.0[0]).collect() }
}

/// The resizes `to_escpos_raster` applies: none when the image already has
/// the target width, else one to that width (height unbounded) with Lanczos3.
pub open spec fn escpos_resizes(data: Seq<u8>, width_px: u32) -> Resizes {
    if image_width_of(data, Seq::empty()) == width_px {
        Seq::empty()
    } else {
        seq![(width_px, u32::MAX, ResizeFilter::Lanczos3)]
    }
}

/// The ESC/POS stream for an image: its grayscale raster after the resizes,
/// dithered, packed and framed.
pub open spec fn escpos_of_image(data: Seq<u8>, width_px: u32) -> Seq<u8> {
    let g = luma_raster(data, escpos_resizes(data, width_px));
    escpos_image(g.2, g.0 as int, g.1 as int)
}

/// Whether a decodable image can be brought to `width_px` dots wide: it
/// already is, or it is wide enough that scaling it to that width with the
/// height unbounded keeps the height within the bound (by a factor of two).
pub open spec fn escpos_width_reached(data: Seq<u8>, width_px: u32) -> bool {
    let w0 = image_width_of(data, Seq::empty());
    let h0 = luma_raster(data, Seq::empty()).1;
    &&& image_decodes(data)
    &&& 0 < width_px
    &&& (w0 == width_px || (0 < w0 && 2 * width_px * h0 <= w0 * u32::MAX))
}

/// Converts a JPEG or PNG image to an ESC/POS raster bit-image (`GS v 0`) stream.
///
/// Pipeline: decode → scale to `width_px` → grayscale → Floyd-Steinberg → pack MSB-first.
/// When decoding fails the input bytes come back unchanged.
pub fn to_escpos_raster(data: &[u8], width_px: u32) -> (r: Vec<u8>)
    ensures
        !image_decodes(data@) ==> r@ == data@,
        image_decodes(data@) ==> r@ == escpos_of_image(data@, width_px),
        escpos_width_reached(data@, width_px) ==> r@.len() >= 8 && r@[4] as int + 256 * r@[5] as int
            == bytes_per_line(width_px as int) % 65536 && (r@.len() - 8) % bytes_per_line(
            width_px as int,
        ) == 0,
{
    let img = match load_from_memory(data) {
        Some(img) => img,
        None => {
            return vstd::slice::slice_to_vec(data);
        },
    };
    let scaled = if image_width(&img) == width_px {
        img
    } else {
        resize_image(&img, width_px, u32::MAX, ResizeFilter::Lanczos3)
    };
    assert(scaled.resizes() =~= escpos_resizes(data@, width_px));
    let gray = to_luma8(&scaled);
    proof {
        if escpos_width_reached(data@, width_px) {
            assert(gray.width == width_px);
            lemma_escpos_header_width(gray.pixels@, gray.width as int, gray.height as int);
        }
    }
    escpos_raster_from_gray(&gray)
}

} // verus!
