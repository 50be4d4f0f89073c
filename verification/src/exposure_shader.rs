//! The plain-data side of the exposure shader: what a live detail image
//! carries, when its texture must be uploaded again, the layout of its
//! parameters, the half-precision encoding of its samples, and the percentiles
//! of their histogram.

use vstd::prelude::*;
use crate::exif_writer;
use crate::single::Single;

verus! {

/// A detail image with its live adjustments.
#[derive(Debug)]
pub struct ExposureProgram {
    pub mono: Vec<Single>,
    pub width: u32,
    pub height: u32,
    /// Raw EV value in stops.
    pub exposure: Single,
    /// Detail-view zoom in doublings; one is contain fit.
    pub zoom: Single,
    /// Pan offset of the image center from the widget center.
    pub pan: (Single, Single),
    /// The mid-gray the contrast curve pivots around.
    pub mid: Single,
    /// The white point the highlight-rolloff curve pivots around.
    pub white: Single,
    pub contrast: Single,
    pub rolloff: Single,
    /// Bumped on each new detail decode.
    pub image_id: u64,
}

impl ExposureProgram {
    /// The number one.
    pub open spec fn one() -> Single {
        Single { bits: 0x3f80_0000 }
    }

    /// The number zero.
    pub open spec fn zero() -> Single {
        Single { bits: 0 }
    }

    /// A new program for the given mono image, whose mid-gray and white point
    /// have been measured. The view starts at contain fit, with an identity
    /// tone curve.
    pub fn new(
        mono: Vec<Single>,
        width: u32,
        height: u32,
        exposure: Single,
        image_id: u64,
        mid: Single,
        white: Single,
    ) -> (r: Self)
        ensures
            r.mono@ == mono@,
            r.width == width && r.height == height,
            r.exposure == exposure && r.image_id == image_id,
            r.mid == mid && r.white == white,
            r.zoom == Self::one() && r.pan == (Self::zero(), Self::zero()),
            r.contrast == Self::one() && r.rolloff == Self::one(),
    {
        let one: Single = Single { bits: 0x3f80_0000 };
        let zero: Single = Single { bits: 0 };
        ExposureProgram {
            mono,
            width,
            height,
            exposure,
            zoom: one,
            pan: (zero, zero),
            mid,
            white,
            contrast: one,
            rolloff: one,
            image_id,
        }
    }

    /// Updates the exposure value and nothing else.
    pub fn set_exposure(&mut self, ev: Single)
        ensures
            *final(self) == (ExposureProgram { exposure: ev, ..*old(self) }),
    {
        self.exposure = ev;
    }

    /// Updates the zoom and pan and nothing else.
    pub fn set_view(&mut self, zoom: Single, pan: (Single, Single))
        ensures
            *final(self) == (ExposureProgram { zoom, pan, ..*old(self) }),
    {
        self.zoom = zoom;
        self.pan = pan;
    }

    /// Updates the contrast and rolloff powers and nothing else.
    pub fn set_curve(&mut self, contrast: Single, rolloff: Single)
        ensures
            *final(self) == (ExposureProgram { contrast, rolloff, ..*old(self) }),
    {
        self.contrast = contrast;
        self.rolloff = rolloff;
    }
}

/// Which image a GPU pipeline holds in its texture. Pipelines outlive image
/// selections, so the image's identity decides whether the texture is stale.
#[derive(Clone, Copy, Debug, PartialEq, Eq, Structural)]
pub struct ResidentTexture {
    pub initialized: bool,
    pub current_image_id: Option<u64>,
}

impl ResidentTexture {
    /// A pipeline that holds no image yet.
    pub fn new() -> (r: Self)
        ensures
            r == (ResidentTexture { initialized: false, current_image_id: None }),
    {
        ResidentTexture { initialized: false, current_image_id: None }
    }

    /// Whether an image must be uploaded before it can be drawn.
    pub open spec fn stale_for(self, image_id: u64) -> bool {
        !self.initialized || self.current_image_id != Some(image_id)
    }

    /// Makes ready to draw an image: says whether its texture must be built
    /// anew, and takes it down as the resident one.
    pub fn prepare(&mut self, image_id: u64) -> (r: bool)
        ensures
            r == old(self).stale_for(image_id),
            *final(self) == (if r {
                ResidentTexture { initialized: true, current_image_id: Some(image_id) }
            } else {
                *old(self)
            }),
            !final(self).stale_for(image_id),
    {
        let current: bool = match self.current_image_id {
            Some(id) => id == image_id,
            None => false,
        };
        if self.initialized && current {
            return false;
        }
        self.initialized = true;
        self.current_image_id = Some(image_id);
        true
    }
}

/// The byte layout of a half-precision texture upload.
#[derive(Clone, Copy, Debug, PartialEq, Eq, Structural)]
pub struct UploadLayout {
    pub bytes_per_row: u32,
    pub rows_per_image: u32,
}

/// The layout of an upload of `width` by `height` half-precision samples.
pub fn upload_layout(width: u32, height: u32) -> (r: UploadLayout)
    requires
        2 * width <= u32::MAX,
    ensures
        r.bytes_per_row == 2 * width,
        r.rows_per_image == height,
{
    UploadLayout { bytes_per_row: width * 2, rows_per_image: height }
}

/// One byte of a word, counted from the least significant.
pub open spec fn byte_of(word: u32, place: int) -> u8 {
    if place == 0 {
        (word % 256) as u8
    } else if place == 1 {
        (word / 0x100 % 256) as u8
    } else if place == 2 {
        (word / 0x1_0000 % 256) as u8
    } else {
        (word / 0x100_0000) as u8
    }
}

/// The bytes of words, the least significant of each first.
pub open spec fn little_endian(words: Seq<u32>) -> Seq<u8> {
    Seq::new(4 * words.len(), |i: int| byte_of(words[i / 4], i % 4))
}

/// The bytes of words, the most significant of each first.
pub open spec fn big_endian(words: Seq<u32>) -> Seq<u8> {
    Seq::new(4 * words.len(), |i: int| byte_of(words[i / 4], 3 - i % 4))
}

/// Gives the bytes of words with `bytemuck::bytes_of`, as the machine has them
/// in memory: word after word, all in the one byte order or all in the other.
/// Which of the two depends on the machine.
#[verifier::external_body]
fn words_as_bytes(words: [u32; 12]) -> (r: Vec<u8>)
    ensures
        r@ == little_endian(words@) || r@ == big_endian(words@),
{
    bytemuck::bytes_of(&words).to_vec()
}

/// The numbers that the shader reads for each frame, in the order of its own
/// declaration.
#[derive(Clone, Copy, Debug, PartialEq, Eq, Structural)]
pub struct Uniforms {
    /// The gain in linear light.
    pub exposure: Single,
    pub tex_w: Single,
    pub tex_h: Single,
    /// Where the preview lies, in physical pixels.
    pub sc_x: Single,
    pub sc_y: Single,
    pub sc_w: Single,
    pub sc_h: Single,
    pub zoom: Single,
    /// The pan in physical pixels.
    pub pan_x: Single,
    pub pan_y: Single,
    pub curve_ratio: Single,
    pub curve_exp: Single,
}

impl Uniforms {
    /// The bits of the numbers, in their order.
    pub open spec fn words(self) -> Seq<u32> {
        seq![
            self.exposure.bits,
            self.tex_w.bits,
            self.tex_h.bits,
            self.sc_x.bits,
            self.sc_y.bits,
            self.sc_w.bits,
            self.sc_h.bits,
            self.zoom.bits,
            self.pan_x.bits,
            self.pan_y.bits,
            self.curve_ratio.bits,
            self.curve_exp.bits,
        ]
    }

    /// The contents of the uniform buffer, in the machine's byte order.
    pub fn bytes(self) -> (r: Vec<u8>)
        ensures
            r@.len() == 48,
            r@ == little_endian(self.words()) || r@ == big_endian(self.words()),
    {
        let words: [u32; 12] = [
            self.exposure.bits,
            self.tex_w.bits,
            self.tex_h.bits,
            self.sc_x.bits,
            self.sc_y.bits,
            self.sc_w.bits,
            self.sc_h.bits,
            self.zoom.bits,
            self.pan_x.bits,
            self.pan_y.bits,
            self.curve_ratio.bits,
            self.curve_exp.bits,
        ];
        assert(words@ =~= self.words());
        words_as_bytes(words)
    }
}

/// A quotient rounded to the nearest whole number, halves to the even one.
pub open spec fn nearest_even(x: int, d: int) -> int {
    let q = x / d;
    let r = x % d;
    if 2 * r > d || (2 * r == d && q % 2 != 0) {
        q + 1
    } else {
        q
    }
}

/// The half-precision bits, without the sign, for single-precision bits
/// without the sign: too small numbers become zero, too large ones infinite,
/// and all others are rounded to the nearest.
pub open spec fn half_magnitude(m: int) -> int {
    let exponent = m / 0x80_0000;
    if exponent == 0xff {
        if m % 0x80_0000 == 0 {
            0x7c00
        } else {
            0x7e00
        }
    } else if exponent > 127 + 15 {
        0x7c00
    } else if exponent < 127 - 14 {
        0
    } else {
        nearest_even(m - 112 * 0x80_0000, 0x2000)
    }
}

/// The half-precision bits for a single-precision number.
pub open spec fn half_bits(value: Single) -> int {
    half_magnitude(value.magnitude()) + (if value.negative() {
        0x8000int
    } else {
        0
    })
}

/// Converts a number to half precision, rounding to nearest even. Numbers
/// below the smallest normal half become zero, and no subnormals are produced.
pub fn f32_to_half(value: Single) -> (r: u16)
    ensures
        r == half_bits(value),
{
    let sign: u16 = if value.bits >= 0x8000_0000 {
        0x8000
    } else {
        0
    };
    let m: u32 = value.bits % 0x8000_0000;
    let exponent: u32 = m / 0x80_0000;
    let mantissa: u32 = m % 0x80_0000;
    if exponent == 0xff {
        return if mantissa == 0 {
            sign + 0x7c00
        } else {
            sign + 0x7e00
        };
    }
    if exponent > 142 {
        return sign + 0x7c00;
    }
    if exponent < 113 {
        return sign;
    }
    let x: u32 = m - 0x3800_0000;
    let mut q: u32 = x / 0x2000;
    let rest: u32 = x % 0x2000;
    if rest > 0x1000 || (rest == 0x1000 && q % 2 != 0) {
        q = q + 1;
    }
    sign + (q as u16)
}

/// Rounding lands within half a step of the number, and on an even step where
/// two are equally near.
pub proof fn nearest_even_is_nearest(x: int, d: int)
    requires
        d > 0,
        d % 2 == 0,
    ensures
        -d <= 2 * (x - d * nearest_even(x, d)) <= d,
        2 * (x - d * nearest_even(x, d)) == d || 2 * (x - d * nearest_even(x, d)) == -d
            ==> nearest_even(x, d) % 2 == 0,
{
    let q = x / d;
    let r = x % d;
    assert(x == d * q + r && 0 <= r < d) by (nonlinear_arith)
        requires
            d > 0,
            q == x / d,
            r == x % d,
    ;
    assert(d * (q + 1) == d * q + d) by (nonlinear_arith);
}

/// Halves keep the order of magnitudes: a larger number never has a smaller
/// half, up to and including infinity.
pub proof fn half_magnitude_is_monotone(a: int, b: int)
    requires
        0 <= a <= b <= 0x7f80_0000,
    ensures
        half_magnitude(a) <= half_magnitude(b) <= 0x7c00,
{
}

/// The little-endian bytes of the half-precision samples.
pub open spec fn half_bytes(mono: Seq<Single>) -> Seq<u8>
    decreases mono.len(),
{
    if mono.len() == 0 {
        Seq::empty()
    } else {
        half_bytes(mono.drop_last()) + exif_writer::le16(half_bits(mono.last()))
    }
}

/// Converts linear mono values into the byte buffer of a half-precision
/// texture.
pub fn mono_to_half_bytes(mono: &[Single]) -> (r: Vec<u8>)
    ensures
        r@ == half_bytes(mono@),
{
    let mut half: Vec<u8> = Vec::new();
    let mut i: usize = 0;
    assert(mono@.take(0) =~= Seq::<Single>::empty());
    while i < mono.len()
        invariant
            i <= mono@.len(),
            half@ == half_bytes(mono@.take(i as int)),
        decreases mono@.len() - i,
    {
        assert(mono@.take(i + 1).drop_last() =~= mono@.take(i as int));
        exif_writer::push_u16(&mut half, f32_to_half(mono[i]));
        i += 1;
    }
    assert(mono@.take(mono@.len() as int) =~= mono@);
    half
}

/// The sum of the first `n` bin counts.
pub open spec fn cumulative(bins: Seq<u64>, n: int) -> int
    decreases n,
{
    if n <= 0 {
        0
    } else {
        cumulative(bins, n - 1) + bins[n - 1]
    }
}

proof fn cumulative_grows(bins: Seq<u64>, a: int, b: int)
    requires
        0 <= a <= b <= bins.len(),
    ensures
        0 <= cumulative(bins, a) <= cumulative(bins, b),
    decreases b,
{
    if a < b {
        cumulative_grows(bins, a, b - 1);
    } else if a > 0 {
        cumulative_grows(bins, a - 1, a - 1);
    }
}

/// The first bin at which the counts, added up from the start, reach `target`;
/// `None` when all of them together do not.
pub fn percentile_bin(bins: &[u64], target: u64) -> (r: Option<usize>)
    requires
        cumulative(bins@, bins@.len() as int) <= u64::MAX,
    ensures
        r is Some <==> bins@.len() > 0 && cumulative(bins@, bins@.len() as int) >= target,
        r is Some ==> r.unwrap() < bins@.len() && cumulative(bins@, r.unwrap() + 1) >= target
            && forall|j: int| 0 <= j < r.unwrap() ==> #[trigger] cumulative(bins@, j + 1) < target,
{
    let mut sum: u64 = 0;
    let mut i: usize = 0;
    while i < bins.len()
        invariant
            i <= bins@.len(),
            sum == cumulative(bins@, i as int),
            cumulative(bins@, bins@.len() as int) <= u64::MAX,
            forall|j: int| 0 <= j < i ==> #[trigger] cumulative(bins@, j + 1) < target,
        decreases bins@.len() - i,
    {
        proof {
            cumulative_grows(bins@, i + 1, bins@.len() as int);
        }
        sum = sum + bins[i];
        if sum >= target {
            proof {
                cumulative_grows(bins@, i + 1, bins@.len() as int);
            }
            return Some(i);
        }
        i += 1;
    }
    proof {
        if bins@.len() > 0 {
            assert(cumulative(bins@, (bins@.len() - 1) + 1) < target);
        }
    }
    None
}

} // verus!
