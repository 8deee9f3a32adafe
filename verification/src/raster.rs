//! The `Raster` data type: a raw pixel buffer together with the metadata
//! that tells how to decode it, and the validating constructor that upholds
//! the buffer-length invariant.

use vstd::prelude::*;
use vstd::arithmetic::div_mod::{lemma_div_is_ordered, lemma_div_multiples_vanish};

use crate::endian::Endian;
use crate::endian::word16;

verus! {

/// The numeric encoding of one band's samples.
#[derive(Clone, Copy, Debug, PartialEq, Eq, Structural)]
pub enum SampleFormat {
    Unsigned,
    Float,
    ComplexFloat,
}

/// The meaning of a band beyond the primary color bands.
#[derive(Clone, Copy, Debug, PartialEq, Eq, Structural)]
pub enum ExtraSamples {
    AssociatedAlpha,
}

/// The photometric meaning of the primary bands.
#[derive(Clone, Copy, Debug, PartialEq, Eq, Structural)]
pub enum PhotometricInterpretation {
    BlackIsZero,
    RGB,
    Unknown,
}

/// Why a `Raster` could not be constructed.
#[derive(Clone, Copy, Debug, PartialEq, Eq, Structural)]
pub enum RasterError {
    /// `bits_per_sample` and `sample_format` differ in length.
    SampleFormatLengthMismatch,
    /// A dimension is zero.
    EmptyDimensions,
    /// The buffer length does not match the dimensions and bit depths.
    BufferLengthMismatch,
}

/// One decoded image plane set: the raw bytes and the metadata that
/// describes them.
#[derive(Debug)]
pub struct Raster {
    /// `(width, height)` in pixels, both positive.
    pub dimensions: (u32, u32),
    /// The raw bytes, row-major and band-interleaved.
    pub buffer: Vec<u8>,
    /// Bit depth of each band, in sample interleaving order.
    pub bits_per_sample: Vec<u16>,
    /// Photometric meaning of the primary bands.
    pub interpretation: PhotometricInterpretation,
    /// Numeric encoding of each band, same length as `bits_per_sample`.
    pub sample_format: Vec<SampleFormat>,
    /// Meaning of the bands beyond the primary color bands.
    pub extra_samples: Vec<ExtraSamples>,
    /// Byte order of every multi-byte sample in `buffer`.
    pub endian: Endian,
}

/// The mathematical model of a `Raster`.
#[verifier::ext_equal]
pub struct RasterModel {
    pub width: nat,
    pub height: nat,
    pub buffer: Seq<u8>,
    pub bits: Seq<u16>,
    pub interpretation: PhotometricInterpretation,
    pub formats: Seq<SampleFormat>,
    pub extra: Seq<ExtraSamples>,
    pub endian: Endian,
}

impl View for Raster {
    type V = RasterModel;

    open spec fn view(&self) -> RasterModel {
        RasterModel {
            width: self.dimensions.0 as nat,
            height: self.dimensions.1 as nat,
            buffer: self.buffer@,
            bits: self.bits_per_sample@,
            interpretation: self.interpretation,
            formats: self.sample_format@,
            extra: self.extra_samples@,
            endian: self.endian,
        }
    }
}

/// The sum of the per-band bit depths: the number of bits in one pixel.
pub open spec fn bits_sum(bits: Seq<u16>) -> nat
    decreases bits.len(),
{
    if bits.len() == 0 {
        0
    } else {
        bits_sum(bits.drop_last()) + bits.last() as nat
    }
}

/// `bits_sum` grows at most by `u16::MAX` per band.
pub proof fn lemma_bits_sum_bound(bits: Seq<u16>)
    ensures
        bits_sum(bits) <= bits.len() * 65535,
    decreases bits.len(),
{
    if bits.len() > 0 {
        lemma_bits_sum_bound(bits.drop_last());
    }
}

/// The byte length a raster buffer must have for the given dimensions and
/// bit depths.
pub open spec fn expected_len(width: nat, height: nat, bits: Seq<u16>) -> nat {
    (width * height * bits_sum(bits)) / 8
}

impl RasterModel {
    /// The invariant every `Raster` constructor establishes: one sample
    /// format per band, positive dimensions, and a buffer of exactly the
    /// length the metadata describes.
    pub open spec fn wf(self) -> bool {
        &&& self.bits.len() == self.formats.len()
        &&& self.width > 0
        &&& self.height > 0
        &&& self.buffer.len() == expected_len(self.width, self.height, self.bits)
    }
}

/// Sums the per-band bit depths of a raster; `u128` never overflows here
/// because each entry is at most `u16::MAX`.
fn sum_bits(bits: &Vec<u16>) -> (s: u128)
    ensures
        s == bits_sum(bits@),
{
    let n = bits.len();
    let mut acc: u128 = 0;
    let mut i: usize = 0;
    while i < n
        invariant
            0 <= i <= n,
            n == bits@.len(),
            acc == bits_sum(bits@.take(i as int)),
            acc <= 65535 * i,
        decreases n - i,
    {
        proof {
            assert(bits@.take(i + 1).drop_last() =~= bits@.take(i as int));
            assert(bits@.take(i + 1).last() == bits@[i as int]);
        }
        acc = acc + bits[i] as u128;
        i = i + 1;
    }
    proof {
        assert(bits@.take(n as int) =~= bits@);
    }
    acc
}

/// Copies a byte vector.
pub(crate) fn copy_bytes(v: &Vec<u8>) -> (r: Vec<u8>)
    ensures
        r@ == v@,
{
    let n = v.len();
    let mut out: Vec<u8> = Vec::new();
    let mut i: usize = 0;
    while i < n
        invariant
            0 <= i <= n,
            n == v@.len(),
            out@ =~= v@.take(i as int),
        decreases n - i,
    {
        out.push(v[i]);
        i = i + 1;
    }
    proof {
        assert(v@.take(n as int) =~= v@);
    }
    out
}

/// One 8-bit RGBA color.
#[derive(Clone, Copy, Debug, PartialEq, Eq, Structural)]
pub struct Rgba8 {
    pub r: u8,
    pub g: u8,
    pub b: u8,
    pub a: u8,
}

/// The number of whole bytes one pixel occupies.
pub open spec fn sample_size(bits: Seq<u16>) -> nat {
    bits_sum(bits) / 8
}

/// The bytes of the pixel at `(x, y)`: row-major, band-interleaved.
pub open spec fn pixel_bytes(m: RasterModel, x: int, y: int) -> Seq<u8>
    recommends
        m.wf(),
        0 <= x < m.width,
        0 <= y < m.height,
{
    let ps = sample_size(m.bits) as int;
    let idx = y * m.width + x;
    m.buffer.subrange(idx * ps, idx * ps + ps)
}

/// The display byte of a 16-bit intensity sample: the stored word is read
/// as a signed 16-bit integer, divided by 10 and clamped to `0 ..= 255`
/// (a display convention for scaled integer intensity data).
pub open spec fn gray16_display_byte(v: u16) -> u8 {
    if v >= 0x8000 {
        0
    } else if v / 10 > 255 {
        255
    } else {
        (v / 10) as u8
    }
}

/// The RGBA color of the pixel at `(x, y)`, when the raster's band layout
/// has one: `None` outside the raster or for an unmapped layout.
pub open spec fn rgba_model(m: RasterModel, x: int, y: int) -> Option<Rgba8> {
    if 0 <= x < m.width && 0 <= y < m.height {
        let p = pixel_bytes(m, x, y);
        if m.bits =~= seq![8u16] {
            Some(Rgba8 { r: p[0], g: p[0], b: p[0], a: 255 })
        } else if m.bits =~= seq![8u16, 8u16] {
            Some(Rgba8 { r: p[0], g: p[0], b: p[0], a: p[1] })
        } else if m.bits =~= seq![8u16, 8u16, 8u16] {
            Some(Rgba8 { r: p[0], g: p[1], b: p[2], a: 255 })
        } else if m.bits =~= seq![8u16, 8u16, 8u16, 8u16] {
            Some(Rgba8 { r: p[0], g: p[1], b: p[2], a: p[3] })
        } else if m.bits =~= seq![16u16] {
            let g = gray16_display_byte(word16(m.endian, p[0], p[1]));
            Some(Rgba8 { r: g, g: g, b: g, a: 255 })
        } else {
            None
        }
    } else {
        None
    }
}

/// `bits_sum` on band lists of up to four entries, written out.
pub proof fn lemma_bits_sum4(a: u16, b: u16, c: u16, d: u16)
    ensures
        bits_sum(seq![a]) == a,
        bits_sum(seq![a, b]) == a + b,
        bits_sum(seq![a, b, c]) == a + b + c,
        bits_sum(seq![a, b, c, d]) == a + b + c + d,
{
    assert(seq![a].drop_last() =~= Seq::<u16>::empty());
    assert(bits_sum(Seq::<u16>::empty()) == 0);
    assert(bits_sum(seq![a]) == a);
    assert(seq![a, b].drop_last() =~= seq![a]);
    assert(bits_sum(seq![a, b]) == a + b);
    assert(seq![a, b, c].drop_last() =~= seq![a, b]);
    assert(bits_sum(seq![a, b, c]) == a + b + c);
    assert(seq![a, b, c, d].drop_last() =~= seq![a, b, c]);
    assert(bits_sum(seq![a, b, c, d]) == a + b + c + d);
}

/// Within the buffer-length invariant, the byte range of any in-bounds
/// pixel lies inside the buffer.
pub proof fn lemma_pixel_slot_in_buffer(w: int, h: int, s: int, x: int, y: int)
    requires
        0 <= x < w,
        0 <= y < h,
        0 <= s,
    ensures
        0 <= (y * w + x) * (s / 8),
        (y * w + x) * (s / 8) + (s / 8) <= (w * h * s) / 8,
        y * w + x + 1 <= w * h,
{
    let q = s / 8;
    let idx = y * w + x;
    let k = idx + 1;
    assert(1 <= k && k <= w * h) by (nonlinear_arith)
        requires
            0 <= x < w,
            0 <= y < h,
            k == y * w + x + 1,
    ;
    assert(0 <= q);
    assert(8 * q <= s);
    assert(k * (8 * q) <= k * s && 8 * (k * q) == k * (8 * q) && idx * q + q == k * q && 0 <= idx
        * q) by (nonlinear_arith)
        requires
            0 <= idx,
            k == idx + 1,
            0 <= q,
            8 * q <= s,
    ;
    lemma_div_multiples_vanish(k * q, 8);
    lemma_div_is_ordered(8 * (k * q), k * s, 8);
    assert(k * s <= w * h * s) by (nonlinear_arith)
        requires
            k <= w * h,
            0 <= s,
    ;
    lemma_div_is_ordered(k * s, w * h * s, 8);
}

/// When one pixel occupies `bytes_per` whole bytes, the expected buffer
/// length is `bytes_per` bytes for each of the `w * h` pixels.
pub proof fn lemma_expected_len_bytes(w: nat, h: nat, bits: Seq<u16>, bytes_per: nat)
    requires
        bits_sum(bits) == 8 * bytes_per,
    ensures
        expected_len(w, h, bits) == bytes_per * (w * h),
{
    let t = (w * h) as int;
    assert(t >= 0);
    assert((w * h * bits_sum(bits)) as int == 8 * (bytes_per * t)) by (nonlinear_arith)
        requires
            t == (w * h) as int,
            bits_sum(bits) == 8 * bytes_per,
    ;
    lemma_div_multiples_vanish((bytes_per * t) as int, 8);
}

/// On a four-band 8-bit raster, the RGBA color of any in-bounds pixel is
/// exactly its four stored bytes, in band order.
pub proof fn lemma_rgba_four_band(m: RasterModel, x: int, y: int)
    requires
        m.wf(),
        m.bits =~= seq![8u16, 8u16, 8u16, 8u16],
        0 <= x < m.width,
        0 <= y < m.height,
    ensures
        ({
            let base = (y * m.width + x) * 4;
            rgba_model(m, x, y) == Some(
                Rgba8 {
                    r: m.buffer[base],
                    g: m.buffer[base + 1],
                    b: m.buffer[base + 2],
                    a: m.buffer[base + 3],
                },
            )
        }),
{
    lemma_bits_sum4(8, 8, 8, 8);
    lemma_pixel_slot_in_buffer(m.width as int, m.height as int, 32, x, y);
    assert(sample_size(m.bits) == 4);
    let base = (y * m.width + x) * 4;
    let p = pixel_bytes(m, x, y);
    assert(p[0] == m.buffer[base]);
    assert(p[1] == m.buffer[base + 1]);
    assert(p[2] == m.buffer[base + 2]);
    assert(p[3] == m.buffer[base + 3]);
}

/// True exactly when `bits` is the one-entry band list `[a]`.
pub(crate) fn shape1(bits: &Vec<u16>, a: u16) -> (r: bool)
    ensures
        r <==> bits@ =~= seq![a],
{
    bits.len() == 1 && bits[0] == a
}

/// True exactly when `bits` is the two-entry band list `[a, b]`.
pub(crate) fn shape2(bits: &Vec<u16>, a: u16, b: u16) -> (r: bool)
    ensures
        r <==> bits@ =~= seq![a, b],
{
    bits.len() == 2 && bits[0] == a && bits[1] == b
}

/// True exactly when `bits` is the three-entry band list `[a, b, c]`.
pub(crate) fn shape3(bits: &Vec<u16>, a: u16, b: u16, c: u16) -> (r: bool)
    ensures
        r <==> bits@ =~= seq![a, b, c],
{
    bits.len() == 3 && bits[0] == a && bits[1] == b && bits[2] == c
}

/// True exactly when `bits` is the four-entry band list `[a, b, c, d]`.
pub(crate) fn shape4(bits: &Vec<u16>, a: u16, b: u16, c: u16, d: u16) -> (r: bool)
    ensures
        r <==> bits@ =~= seq![a, b, c, d],
{
    bits.len() == 4 && bits[0] == a && bits[1] == b && bits[2] == c && bits[3] == d
}

impl Raster {
    /// Builds a raster after validating the invariant: `bits_per_sample`
    /// and `sample_format` must agree in length, the dimensions must be
    /// positive, and the buffer must hold exactly
    /// `width * height * bits_sum / 8` bytes.
    pub fn new(
        dimensions: (u32, u32),
        buffer: Vec<u8>,
        bits_per_sample: Vec<u16>,
        interpretation: PhotometricInterpretation,
        sample_format: Vec<SampleFormat>,
        extra_samples: Vec<ExtraSamples>,
        endian: Endian,
    ) -> (r: Result<Raster, RasterError>)
        ensures
            r is Ok <==> {
                &&& bits_per_sample@.len() == sample_format@.len()
                &&& dimensions.0 > 0
                &&& dimensions.1 > 0
                &&& buffer@.len() == expected_len(
                    dimensions.0 as nat,
                    dimensions.1 as nat,
                    bits_per_sample@,
                )
            },
            r matches Ok(ra) ==> ra@ == (RasterModel {
                width: dimensions.0 as nat,
                height: dimensions.1 as nat,
                buffer: buffer@,
                bits: bits_per_sample@,
                interpretation,
                formats: sample_format@,
                extra: extra_samples@,
                endian,
            }) && ra@.wf(),
            bits_per_sample@.len() != sample_format@.len() ==> r == Err::<Raster, RasterError>(
                RasterError::SampleFormatLengthMismatch,
            ),
            bits_per_sample@.len() == sample_format@.len() && (dimensions.0 == 0 || dimensions.1
                == 0) ==> r == Err::<Raster, RasterError>(RasterError::EmptyDimensions),
            bits_per_sample@.len() == sample_format@.len() && dimensions.0 > 0 && dimensions.1 > 0
                && buffer@.len() != expected_len(
                dimensions.0 as nat,
                dimensions.1 as nat,
                bits_per_sample@,
            ) ==> r == Err::<Raster, RasterError>(RasterError::BufferLengthMismatch),
    {
        let (w, h) = dimensions;
        if bits_per_sample.len() != sample_format.len() {
            return Err(RasterError::SampleFormatLengthMismatch);
        }
        if w == 0 || h == 0 {
            return Err(RasterError::EmptyDimensions);
        }
        let s: u128 = sum_bits(&bits_per_sample);
        let blen: usize = buffer.len();
        proof {
            assert((w as int) * (h as int) <= 0xffff_ffffu64 * 0xffff_ffffu64) by (nonlinear_arith)
                requires
                    0 <= w as int <= 0xffff_ffffu64,
                    0 <= h as int <= 0xffff_ffffu64,
            ;
        }
        let p: u128 = (w as u128) * (h as u128);
        match p.checked_mul(s) {
            Some(total_bits) => {
                let expected: u128 = total_bits / 8;
                if (blen as u128) == expected {
                    Ok(Raster {
                        dimensions,
                        buffer,
                        bits_per_sample,
                        interpretation,
                        sample_format,
                        extra_samples,
                        endian,
                    })
                } else {
                    Err(RasterError::BufferLengthMismatch)
                }
            },
            None => {
                // The product of dimensions and bits per pixel overflows
                // u128, so the expected length exceeds any real buffer.
                proof {
                    let wh = (w as int) * (h as int);
                    let bs = bits_sum(bits_per_sample@) as int;
                    assert(wh * bs > u128::MAX);
                    lemma_div_is_ordered(u128::MAX + 1, wh * bs, 8);
                    assert((u128::MAX + 1) / 8 > usize::MAX);
                    assert(buffer@.len() <= usize::MAX);
                }
                Err(RasterError::BufferLengthMismatch)
            },
        }
    }

    /// Re-checks the invariant the constructor establishes.  Every raster
    /// built by `new` or by the encoder satisfies it; a caller that
    /// assembled the fields directly can test them here.
    pub fn is_wf(&self) -> (r: bool)
        ensures
            r == self@.wf(),
    {
        if self.bits_per_sample.len() != self.sample_format.len() {
            return false;
        }
        let (w, h) = self.dimensions;
        if w == 0 || h == 0 {
            return false;
        }
        let s: u128 = sum_bits(&self.bits_per_sample);
        let blen: usize = self.buffer.len();
        proof {
            assert((w as int) * (h as int) <= 0xffff_ffffu64 * 0xffff_ffffu64) by (nonlinear_arith)
                requires
                    0 <= w as int <= 0xffff_ffffu64,
                    0 <= h as int <= 0xffff_ffffu64,
            ;
        }
        let p: u128 = (w as u128) * (h as u128);
        match p.checked_mul(s) {
            Some(total_bits) => (blen as u128) == total_bits / 8,
            None => {
                // The expected length exceeds u128::MAX / 8, so no real
                // buffer can match it.
                proof {
                    let wh = (w as int) * (h as int);
                    let bs = bits_sum(self.bits_per_sample@) as int;
                    assert(wh * bs > u128::MAX);
                    lemma_div_is_ordered(u128::MAX + 1, wh * bs, 8);
                    assert((u128::MAX + 1) / 8 > usize::MAX);
                }
                false
            },
        }
    }

    /// The raw bytes of the pixel at `(x, y)`, or `None` outside the raster.
    pub fn get_pixel(&self, x: u32, y: u32) -> (r: Option<Vec<u8>>)
        requires
            self@.wf(),
        ensures
            r is Some <==> x < self@.width && y < self@.height,
            r matches Some(p) ==> p@ == pixel_bytes(self@, x as int, y as int) && p@.len()
                == sample_size(self@.bits),
    {
        let (w, h) = self.dimensions;
        if x >= w || y >= h {
            return None;
        }
        let s: u128 = sum_bits(&self.bits_per_sample);
        let blen: usize = self.buffer.len();
        proof {
            assert((w as int) * (h as int) <= 0xffff_ffffu64 * 0xffff_ffffu64) by (nonlinear_arith)
                requires
                    0 <= w as int <= 0xffff_ffffu64,
                    0 <= h as int <= 0xffff_ffffu64,
            ;
            lemma_pixel_slot_in_buffer(w as int, h as int, s as int, x as int, y as int);
            assert(((y as u64) as int) * ((w as u64) as int) == (y as int) * (w as int));
        }
        let ps64: u64 = (s / 8) as u64;
        let idx64: u64 = (y as u64) * (w as u64) + (x as u64);
        let off64: u64 = idx64 * ps64;
        let ps: usize = ps64 as usize;
        let off: usize = off64 as usize;
        let mut p: Vec<u8> = Vec::new();
        let mut k: usize = 0;
        while k < ps
            invariant
                0 <= k <= ps,
                off + ps <= self.buffer@.len(),
                self.buffer@.len() <= usize::MAX,
                p@.len() == k,
                forall|j: int| 0 <= j < k ==> p@[j] == self.buffer@[off + j],
            decreases ps - k,
        {
            p.push(self.buffer[off + k]);
            k = k + 1;
        }
        proof {
            assert(p@ =~= pixel_bytes(self@, x as int, y as int));
        }
        Some(p)
    }

    /// The pixel at `(x, y)` as an 8-bit RGBA color, for the supported band
    /// layouts; `None` outside the raster or for an unmapped layout.
    ///
    /// Grayscale layouts replicate the intensity to R, G and B; a 16-bit
    /// single band is read as a signed integer, divided by 10 and clamped
    /// to `0 ..= 255` before that.
    pub fn get_pixel_rgba(&self, x: u32, y: u32) -> (r: Option<Rgba8>)
        requires
            self@.wf(),
        ensures
            r == rgba_model(self@, x as int, y as int),
    {
        let p = match self.get_pixel(x, y) {
            Some(p) => p,
            None => {
                return None;
            },
        };
        let bits = &self.bits_per_sample;
        if shape1(bits, 8) {
            proof {
                lemma_bits_sum4(8, 8, 8, 8);
            }
            Some(Rgba8 { r: p[0], g: p[0], b: p[0], a: 255 })
        } else if shape2(bits, 8, 8) {
            proof {
                lemma_bits_sum4(8, 8, 8, 8);
            }
            Some(Rgba8 { r: p[0], g: p[0], b: p[0], a: p[1] })
        } else if shape3(bits, 8, 8, 8) {
            proof {
                lemma_bits_sum4(8, 8, 8, 8);
            }
            Some(Rgba8 { r: p[0], g: p[1], b: p[2], a: 255 })
        } else if shape4(bits, 8, 8, 8, 8) {
            proof {
                lemma_bits_sum4(8, 8, 8, 8);
            }
            Some(Rgba8 { r: p[0], g: p[1], b: p[2], a: p[3] })
        } else if shape1(bits, 16) {
            proof {
                lemma_bits_sum4(16, 16, 16, 16);
            }
            let v: u16 = self.endian.decode_u16_pair(p[0], p[1]);
            let g: u8 = if v >= 0x8000 {
                0
            } else {
                let d = v / 10;
                if d > 255 {
                    255
                } else {
                    d as u8
                }
            };
            Some(Rgba8 { r: g, g, b: g, a: 255 })
        } else {
            None
        }
    }
}

} // verus!
