//! A common in-memory pixel image, and the mapping between such images and
//! rasters.
//!
//! `PixelImage` is the exchange type the codec decodes a raster into and
//! encodes a raster from: a band layout, the dimensions, and the samples in
//! the word width of that layout.  Floating-point sample kinds carry each
//! sample's IEEE bit pattern; turning those words into host floats is the
//! caller's concern.

use vstd::prelude::*;
use vstd::arithmetic::div_mod::{lemma_div_multiples_vanish, lemma_mod_multiples_basic};

use crate::endian::{
    bytes_of_words16, bytes_of_words32, words16_of, words32_of, Endian,
};
use crate::raster::{
    copy_bytes, expected_len, lemma_bits_sum4, lemma_expected_len_bytes, shape1, shape2, shape3, shape4,
    ExtraSamples, PhotometricInterpretation, Raster, RasterError, RasterModel, SampleFormat,
};

verus! {

/// The band layout of a common pixel image: bands per pixel and the word
/// width of each sample.  `Other` stands for any layout outside the closed
/// table; encoding it falls back to a single 8-bit band.
#[derive(Clone, Copy, Debug, PartialEq, Eq, Structural)]
pub enum ImageKind {
    Luma8,
    LumaA8,
    Rgb8,
    Rgba8,
    Luma16,
    LumaA16,
    Rgb16,
    Rgba16,
    Rgb32F,
    Rgba32F,
    Other,
}

/// The samples of a pixel image, stored in the word width of its kind.
/// 32-bit float samples are carried as their IEEE bit patterns.
#[derive(Debug, PartialEq, Eq)]
pub enum SampleData {
    Bytes(Vec<u8>),
    Words16(Vec<u16>),
    Words32(Vec<u32>),
}

/// A common in-memory pixel image.
#[derive(Debug, PartialEq, Eq)]
pub struct PixelImage {
    pub kind: ImageKind,
    pub width: u32,
    pub height: u32,
    pub data: SampleData,
}

/// The mathematical model of `SampleData`.
#[verifier::ext_equal]
pub enum DataModel {
    Bytes(Seq<u8>),
    Words16(Seq<u16>),
    Words32(Seq<u32>),
}

/// The mathematical model of a `PixelImage`.
#[verifier::ext_equal]
pub struct ImageModel {
    pub kind: ImageKind,
    pub width: nat,
    pub height: nat,
    pub data: DataModel,
}

impl View for SampleData {
    type V = DataModel;

    open spec fn view(&self) -> DataModel {
        match self {
            SampleData::Bytes(v) => DataModel::Bytes(v@),
            SampleData::Words16(v) => DataModel::Words16(v@),
            SampleData::Words32(v) => DataModel::Words32(v@),
        }
    }
}

impl View for PixelImage {
    type V = ImageModel;

    open spec fn view(&self) -> ImageModel {
        ImageModel {
            kind: self.kind,
            width: self.width as nat,
            height: self.height as nat,
            data: self.data@,
        }
    }
}

/// The number of bands one pixel of this kind holds.
pub open spec fn kind_channels(k: ImageKind) -> nat {
    match k {
        ImageKind::Luma8 => 1,
        ImageKind::LumaA8 => 2,
        ImageKind::Rgb8 => 3,
        ImageKind::Rgba8 => 4,
        ImageKind::Luma16 => 1,
        ImageKind::LumaA16 => 2,
        ImageKind::Rgb16 => 3,
        ImageKind::Rgba16 => 4,
        ImageKind::Rgb32F => 3,
        ImageKind::Rgba32F => 4,
        ImageKind::Other => 1,
    }
}

impl ImageModel {
    /// A pixel image is well formed when its samples come in the word
    /// width of its kind and there is one sample per band of every pixel.
    /// `Other` images carry raw bytes of any length.
    pub open spec fn wf(self) -> bool {
        match self.kind {
            ImageKind::Luma8 | ImageKind::LumaA8 | ImageKind::Rgb8 | ImageKind::Rgba8 => {
                &&& self.data matches DataModel::Bytes(b)
                &&& self.data->Bytes_0.len() == self.width * self.height * kind_channels(self.kind)
            },
            ImageKind::Luma16 | ImageKind::LumaA16 | ImageKind::Rgb16 | ImageKind::Rgba16 => {
                &&& self.data matches DataModel::Words16(ws)
                &&& self.data->Words16_0.len() == self.width * self.height * kind_channels(
                    self.kind,
                )
            },
            ImageKind::Rgb32F | ImageKind::Rgba32F => {
                &&& self.data matches DataModel::Words32(ws)
                &&& self.data->Words32_0.len() == self.width * self.height * kind_channels(
                    self.kind,
                )
            },
            ImageKind::Other => self.data matches DataModel::Bytes(b),
        }
    }
}

/// The photometric interpretation a raster encoded from this image kind
/// carries.
pub open spec fn kind_interpretation(k: ImageKind) -> PhotometricInterpretation {
    match k {
        ImageKind::Luma8 | ImageKind::LumaA8 | ImageKind::Luma16 | ImageKind::LumaA16
            => PhotometricInterpretation::BlackIsZero,
        ImageKind::Other => PhotometricInterpretation::Unknown,
        _ => PhotometricInterpretation::RGB,
    }
}

/// The per-band bit depths a raster encoded from this image kind carries.
pub open spec fn kind_bits(k: ImageKind) -> Seq<u16> {
    match k {
        ImageKind::Luma8 => seq![8u16],
        ImageKind::LumaA8 => seq![8u16, 8u16],
        ImageKind::Rgb8 => seq![8u16, 8u16, 8u16],
        ImageKind::Rgba8 => seq![8u16, 8u16, 8u16, 8u16],
        ImageKind::Luma16 => seq![16u16],
        ImageKind::LumaA16 => seq![16u16, 16u16],
        ImageKind::Rgb16 => seq![16u16, 16u16, 16u16],
        ImageKind::Rgba16 => seq![16u16, 16u16, 16u16, 16u16],
        ImageKind::Rgb32F => seq![32u16, 32u16, 32u16],
        ImageKind::Rgba32F => seq![32u16, 32u16, 32u16, 32u16],
        ImageKind::Other => seq![8u16],
    }
}

/// The per-band sample formats a raster encoded from this image kind
/// carries.
pub open spec fn kind_formats(k: ImageKind) -> Seq<SampleFormat> {
    match k {
        ImageKind::Rgb32F => seq![SampleFormat::Float, SampleFormat::Float, SampleFormat::Float],
        ImageKind::Rgba32F => seq![
            SampleFormat::Float,
            SampleFormat::Float,
            SampleFormat::Float,
            SampleFormat::Float,
        ],
        _ => Seq::new(kind_bits(k).len(), |i: int| SampleFormat::Unsigned),
    }
}

/// The extra-sample tags a raster encoded from this image kind carries:
/// the alpha band, when there is one, is associated alpha.
pub open spec fn kind_extra(k: ImageKind) -> Seq<ExtraSamples> {
    match k {
        ImageKind::LumaA8 | ImageKind::Rgba8 | ImageKind::LumaA16 | ImageKind::Rgba16
            | ImageKind::Rgba32F => seq![ExtraSamples::AssociatedAlpha],
        _ => Seq::<ExtraSamples>::empty(),
    }
}

/// The raster buffer bytes that store this sample data under byte order
/// `e`: bytes verbatim, multi-byte words through the byte-order encoder.
pub open spec fn encode_data(e: Endian, d: DataModel) -> Seq<u8> {
    match d {
        DataModel::Bytes(b) => b,
        DataModel::Words16(ws) => bytes_of_words16(e, ws),
        DataModel::Words32(ws) => bytes_of_words32(e, ws),
    }
}

/// The raster that encodes the pixel image `m` under byte order `e`: the
/// sample bytes with the metadata of `m`'s kind, validated exactly as the
/// raster constructor validates.
pub open spec fn encode_image(m: ImageModel, e: Endian) -> Result<RasterModel, RasterError> {
    let buffer = encode_data(e, m.data);
    let bits = kind_bits(m.kind);
    if m.width == 0 || m.height == 0 {
        Err(RasterError::EmptyDimensions)
    } else if buffer.len() != expected_len(m.width, m.height, bits) {
        Err(RasterError::BufferLengthMismatch)
    } else {
        Ok(
            RasterModel {
                width: m.width,
                height: m.height,
                buffer,
                bits,
                interpretation: kind_interpretation(m.kind),
                formats: kind_formats(m.kind),
                extra: kind_extra(m.kind),
                endian: e,
            },
        )
    }
}

/// The pixel image a raster's band layout selects: the buffer decoded into
/// the samples of that kind.  `None` for a layout outside the table, and
/// for the single-band 32-bit float layout, whose grayscale display bytes
/// are not a function of the raster alone but of the tone map applied.
pub open spec fn decode_image(rm: RasterModel) -> Option<ImageModel> {
    let w = rm.width;
    let h = rm.height;
    if rm.bits =~= seq![8u16] {
        Some(ImageModel { kind: ImageKind::Luma8, width: w, height: h, data: DataModel::Bytes(rm.buffer) })
    } else if rm.bits =~= seq![8u16, 8u16] {
        Some(ImageModel { kind: ImageKind::LumaA8, width: w, height: h, data: DataModel::Bytes(rm.buffer) })
    } else if rm.bits =~= seq![16u16] {
        Some(
            ImageModel {
                kind: ImageKind::Luma16,
                width: w,
                height: h,
                data: DataModel::Words16(words16_of(rm.endian, rm.buffer)),
            },
        )
    } else if rm.bits =~= seq![16u16, 16u16] {
        Some(
            ImageModel {
                kind: ImageKind::LumaA16,
                width: w,
                height: h,
                data: DataModel::Words16(words16_of(rm.endian, rm.buffer)),
            },
        )
    } else if rm.bits =~= seq![8u16, 8u16, 8u16] {
        Some(ImageModel { kind: ImageKind::Rgb8, width: w, height: h, data: DataModel::Bytes(rm.buffer) })
    } else if rm.bits =~= seq![8u16, 8u16, 8u16, 8u16] {
        Some(ImageModel { kind: ImageKind::Rgba8, width: w, height: h, data: DataModel::Bytes(rm.buffer) })
    } else if rm.bits =~= seq![16u16, 16u16, 16u16] {
        Some(
            ImageModel {
                kind: ImageKind::Rgb16,
                width: w,
                height: h,
                data: DataModel::Words16(words16_of(rm.endian, rm.buffer)),
            },
        )
    } else if rm.bits =~= seq![16u16, 16u16, 16u16, 16u16] {
        Some(
            ImageModel {
                kind: ImageKind::Rgba16,
                width: w,
                height: h,
                data: DataModel::Words16(words16_of(rm.endian, rm.buffer)),
            },
        )
    } else if rm.bits =~= seq![32u16, 32u16, 32u16] {
        Some(
            ImageModel {
                kind: ImageKind::Rgb32F,
                width: w,
                height: h,
                data: DataModel::Words32(words32_of(rm.endian, rm.buffer)),
            },
        )
    } else if rm.bits =~= seq![32u16, 32u16, 32u16, 32u16] {
        Some(
            ImageModel {
                kind: ImageKind::Rgba32F,
                width: w,
                height: h,
                data: DataModel::Words32(words32_of(rm.endian, rm.buffer)),
            },
        )
    } else {
        None
    }
}

/// Whether the outcome `r` is the encoding of `m` under byte order `e`:
/// the same success or failure, and on success the encoded raster.
pub open spec fn models_encode(
    r: Result<Raster, RasterError>,
    m: ImageModel,
    e: Endian,
) -> bool {
    match (r, encode_image(m, e)) {
        (Ok(ra), Ok(rm)) => ra@ == rm && ra@.wf(),
        (Err(a), Err(b)) => a == b,
        _ => false,
    }
}

/// Relies on `u16::to_ne_bytes` to observe the byte order of the host:
/// the first stored byte of `1u16` is `1` exactly on a little-endian host.
#[verifier::external_body]
fn native_endian() -> Endian {
    if 1u16.to_ne_bytes()[0] == 1 {
        Endian::Little
    } else {
        Endian::Big
    }
}

impl Raster {
    /// Encodes a common pixel image as a raster under the given byte
    /// order: the image's samples become the buffer, and the metadata is
    /// inferred from the image's kind.  The raster constructor re-validates
    /// the buffer-length invariant; its failure is this function's failure.
    pub fn from_image_with_endian(img: &PixelImage, e: Endian) -> (r: Result<Raster, RasterError>)
        ensures
            models_encode(r, img@, e),
    {
        let buffer: Vec<u8> = match &img.data {
            SampleData::Bytes(b) => copy_bytes(b),
            SampleData::Words16(ws) => e.encode_all_u16(ws.as_slice()),
            SampleData::Words32(ws) => e.encode_all_u32(ws.as_slice()),
        };
        let interpretation: PhotometricInterpretation;
        let bits: Vec<u16>;
        let formats: Vec<SampleFormat>;
        let extra: Vec<ExtraSamples>;
        match img.kind {
            ImageKind::Luma8 => {
                interpretation = PhotometricInterpretation::BlackIsZero;
                bits = vec![8];
                formats = vec![SampleFormat::Unsigned];
                extra = vec![];
            },
            ImageKind::LumaA8 => {
                interpretation = PhotometricInterpretation::BlackIsZero;
                bits = vec![8, 8];
                formats = vec![SampleFormat::Unsigned, SampleFormat::Unsigned];
                extra = vec![ExtraSamples::AssociatedAlpha];
            },
            ImageKind::Rgb8 => {
                interpretation = PhotometricInterpretation::RGB;
                bits = vec![8, 8, 8];
                formats = vec![
                    SampleFormat::Unsigned,
                    SampleFormat::Unsigned,
                    SampleFormat::Unsigned,
                ];
                extra = vec![];
            },
            ImageKind::Rgba8 => {
                interpretation = PhotometricInterpretation::RGB;
                bits = vec![8, 8, 8, 8];
                formats = vec![
                    SampleFormat::Unsigned,
                    SampleFormat::Unsigned,
                    SampleFormat::Unsigned,
                    SampleFormat::Unsigned,
                ];
                extra = vec![ExtraSamples::AssociatedAlpha];
            },
            ImageKind::Luma16 => {
                interpretation = PhotometricInterpretation::BlackIsZero;
                bits = vec![16];
                formats = vec![SampleFormat::Unsigned];
                extra = vec![];
            },
            ImageKind::LumaA16 => {
                interpretation = PhotometricInterpretation::BlackIsZero;
                bits = vec![16, 16];
                formats = vec![SampleFormat::Unsigned, SampleFormat::Unsigned];
                extra = vec![ExtraSamples::AssociatedAlpha];
            },
            ImageKind::Rgb16 => {
                interpretation = PhotometricInterpretation::RGB;
                bits = vec![16, 16, 16];
                formats = vec![
                    SampleFormat::Unsigned,
                    SampleFormat::Unsigned,
                    SampleFormat::Unsigned,
                ];
                extra = vec![];
            },
            ImageKind::Rgba16 => {
                interpretation = PhotometricInterpretation::RGB;
                bits = vec![16, 16, 16, 16];
                formats = vec![
                    SampleFormat::Unsigned,
                    SampleFormat::Unsigned,
                    SampleFormat::Unsigned,
                    SampleFormat::Unsigned,
                ];
                extra = vec![ExtraSamples::AssociatedAlpha];
            },
            ImageKind::Rgb32F => {
                interpretation = PhotometricInterpretation::RGB;
                bits = vec![32, 32, 32];
                formats = vec![SampleFormat::Float, SampleFormat::Float, SampleFormat::Float];
                extra = vec![];
            },
            ImageKind::Rgba32F => {
                interpretation = PhotometricInterpretation::RGB;
                bits = vec![32, 32, 32, 32];
                formats = vec![
                    SampleFormat::Float,
                    SampleFormat::Float,
                    SampleFormat::Float,
                    SampleFormat::Float,
                ];
                extra = vec![ExtraSamples::AssociatedAlpha];
            },
            ImageKind::Other => {
                interpretation = PhotometricInterpretation::Unknown;
                bits = vec![8];
                formats = vec![SampleFormat::Unsigned];
                extra = vec![];
            },
        }
        proof {
            assert(bits@ =~= kind_bits(img@.kind));
            assert(formats@ =~= kind_formats(img@.kind));
            assert(extra@ =~= kind_extra(img@.kind));
            assert(interpretation == kind_interpretation(img@.kind));
        }
        Raster::new((img.width, img.height), buffer, bits, interpretation, formats, extra, e)
    }

    /// Decodes a raster into a common pixel image: the buffer is decoded
    /// through the byte-order-aware word decoder into the samples of the
    /// kind its band layout selects.  The single-band 32-bit float layout
    /// has no direct kind of its own and is tone-mapped to 8-bit grayscale
    /// by `tone32`, one byte per decoded sample word; every other layout
    /// outside the table is refused.
    pub fn into_image<F: Fn(u32) -> u8>(self, tone32: F) -> (r: Result<PixelImage, String>)
        requires
            self@.wf(),
            forall|wd: u32| #[trigger] call_requires(tone32, (wd,)),
        ensures
            decode_image(self@) matches Some(m) ==> r matches Ok(img) && img@ == m,
            self@.bits =~= seq![32u16] ==> (r matches Ok(img) && {
                &&& img@.kind == ImageKind::Luma8
                &&& img@.width == self@.width
                &&& img@.height == self@.height
                &&& img@.data matches DataModel::Bytes(b)
                &&& b.len() == self@.width * self@.height
                &&& forall|i: int| 0 <= i < b.len() ==> call_ensures(
                    tone32,
                    (words32_of(self@.endian, self@.buffer)[i],),
                    #[trigger] b[i],
                )
            }),
            r is Err <==> decode_image(self@) is None && !(self@.bits =~= seq![32u16]),
            r matches Ok(img) ==> img@.wf() && img@.width == self@.width && img@.height
                == self@.height,
    {
        let ghost m0 = self@;
        let Raster { dimensions, buffer, bits_per_sample, endian, .. } = self;
        let (width, height) = dimensions;
        proof {
            lemma_bits_sum4(8, 8, 8, 8);
            lemma_bits_sum4(16, 16, 16, 16);
            lemma_bits_sum4(32, 32, 32, 32);
            let t = (m0.width * m0.height) as int;
            assert(t >= 0);
        }
        let bits = &bits_per_sample;
        if shape1(bits, 8) {
            proof {
                lemma_expected_len_bytes(m0.width, m0.height, m0.bits, 1);
            }
            let img = PixelImage {
                kind: ImageKind::Luma8,
                width,
                height,
                data: SampleData::Bytes(buffer),
            };
            proof {
                assert(decode_image(m0) matches Some(m) && img@ =~= m);
                assert(img@.wf());
            }
            Ok(img)
        } else if shape2(bits, 8, 8) {
            proof {
                lemma_expected_len_bytes(m0.width, m0.height, m0.bits, 2);
            }
            let img = PixelImage {
                kind: ImageKind::LumaA8,
                width,
                height,
                data: SampleData::Bytes(buffer),
            };
            proof {
                assert(decode_image(m0) matches Some(m) && img@ =~= m);
                assert(img@.wf());
            }
            Ok(img)
        } else if shape1(bits, 16) {
            proof {
                lemma_expected_len_bytes(m0.width, m0.height, m0.bits, 2);
                let t = (m0.width * m0.height) as int;
                lemma_mod_multiples_basic(t, 2);
                assert(m0.buffer.len() as int == t * 2);
                lemma_div_multiples_vanish(t, 2);
            }
            match endian.decode_all_u16(buffer.as_slice()) {
                Some(ws) => {
                    let img = PixelImage {
                        kind: ImageKind::Luma16,
                        width,
                        height,
                        data: SampleData::Words16(ws),
                    };
                    proof {
                        assert(decode_image(m0) matches Some(m) && img@ =~= m);
                assert(img@.wf());
                    }
                    Ok(img)
                },
                None => Err("Not Supported".to_string()),
            }
        } else if shape2(bits, 16, 16) {
            proof {
                lemma_expected_len_bytes(m0.width, m0.height, m0.bits, 4);
                let t = (m0.width * m0.height) as int;
                lemma_mod_multiples_basic(2 * t, 2);
                assert(m0.buffer.len() as int == (2 * t) * 2);
                lemma_div_multiples_vanish(2 * t, 2);
            }
            match endian.decode_all_u16(buffer.as_slice()) {
                Some(ws) => {
                    let img = PixelImage {
                        kind: ImageKind::LumaA16,
                        width,
                        height,
                        data: SampleData::Words16(ws),
                    };
                    proof {
                        assert(decode_image(m0) matches Some(m) && img@ =~= m);
                assert(img@.wf());
                    }
                    Ok(img)
                },
                None => Err("Not Supported".to_string()),
            }
        } else if shape3(bits, 8, 8, 8) {
            proof {
                lemma_expected_len_bytes(m0.width, m0.height, m0.bits, 3);
            }
            let img = PixelImage {
                kind: ImageKind::Rgb8,
                width,
                height,
                data: SampleData::Bytes(buffer),
            };
            proof {
                assert(decode_image(m0) matches Some(m) && img@ =~= m);
                assert(img@.wf());
            }
            Ok(img)
        } else if shape4(bits, 8, 8, 8, 8) {
            proof {
                lemma_expected_len_bytes(m0.width, m0.height, m0.bits, 4);
            }
            let img = PixelImage {
                kind: ImageKind::Rgba8,
                width,
                height,
                data: SampleData::Bytes(buffer),
            };
            proof {
                assert(decode_image(m0) matches Some(m) && img@ =~= m);
                assert(img@.wf());
            }
            Ok(img)
        } else if shape3(bits, 16, 16, 16) {
            proof {
                lemma_expected_len_bytes(m0.width, m0.height, m0.bits, 6);
                let t = (m0.width * m0.height) as int;
                lemma_mod_multiples_basic(3 * t, 2);
                assert(m0.buffer.len() as int == (3 * t) * 2);
                lemma_div_multiples_vanish(3 * t, 2);
            }
            match endian.decode_all_u16(buffer.as_slice()) {
                Some(ws) => {
                    let img = PixelImage {
                        kind: ImageKind::Rgb16,
                        width,
                        height,
                        data: SampleData::Words16(ws),
                    };
                    proof {
                        assert(decode_image(m0) matches Some(m) && img@ =~= m);
                assert(img@.wf());
                    }
                    Ok(img)
                },
                None => Err("Not Supported".to_string()),
            }
        } else if shape4(bits, 16, 16, 16, 16) {
            proof {
                lemma_expected_len_bytes(m0.width, m0.height, m0.bits, 8);
                let t = (m0.width * m0.height) as int;
                lemma_mod_multiples_basic(4 * t, 2);
                assert(m0.buffer.len() as int == (4 * t) * 2);
                lemma_div_multiples_vanish(4 * t, 2);
            }
            match endian.decode_all_u16(buffer.as_slice()) {
                Some(ws) => {
                    let img = PixelImage {
                        kind: ImageKind::Rgba16,
                        width,
                        height,
                        data: SampleData::Words16(ws),
                    };
                    proof {
                        assert(decode_image(m0) matches Some(m) && img@ =~= m);
                assert(img@.wf());
                    }
                    Ok(img)
                },
                None => Err("Not Supported".to_string()),
            }
        } else if shape3(bits, 32, 32, 32) {
            proof {
                lemma_expected_len_bytes(m0.width, m0.height, m0.bits, 12);
                let t = (m0.width * m0.height) as int;
                lemma_mod_multiples_basic(3 * t, 4);
                assert(m0.buffer.len() as int == (3 * t) * 4);
                lemma_div_multiples_vanish(3 * t, 4);
            }
            match endian.decode_all_u32(buffer.as_slice()) {
                Some(ws) => {
                    let img = PixelImage {
                        kind: ImageKind::Rgb32F,
                        width,
                        height,
                        data: SampleData::Words32(ws),
                    };
                    proof {
                        assert(decode_image(m0) matches Some(m) && img@ =~= m);
                assert(img@.wf());
                    }
                    Ok(img)
                },
                None => Err("Not Supported".to_string()),
            }
        } else if shape4(bits, 32, 32, 32, 32) {
            proof {
                lemma_expected_len_bytes(m0.width, m0.height, m0.bits, 16);
                let t = (m0.width * m0.height) as int;
                lemma_mod_multiples_basic(4 * t, 4);
                assert(m0.buffer.len() as int == (4 * t) * 4);
                lemma_div_multiples_vanish(4 * t, 4);
            }
            match endian.decode_all_u32(buffer.as_slice()) {
                Some(ws) => {
                    let img = PixelImage {
                        kind: ImageKind::Rgba32F,
                        width,
                        height,
                        data: SampleData::Words32(ws),
                    };
                    proof {
                        assert(decode_image(m0) matches Some(m) && img@ =~= m);
                assert(img@.wf());
                    }
                    Ok(img)
                },
                None => Err("Not Supported".to_string()),
            }
        } else if shape1(bits, 32) {
            proof {
                lemma_expected_len_bytes(m0.width, m0.height, m0.bits, 4);
                let t = (m0.width * m0.height) as int;
                lemma_mod_multiples_basic(t, 4);
                assert(m0.buffer.len() as int == t * 4);
                lemma_div_multiples_vanish(t, 4);
            }
            match endian.decode_all_u32(buffer.as_slice()) {
                Some(ws) => {
                    let n = ws.len();
                    let mut mapped: Vec<u8> = Vec::new();
                    let mut i: usize = 0;
                    while i < n
                        invariant
                            0 <= i <= n,
                            n == ws@.len(),
                            mapped@.len() == i,
                            forall|wd: u32| #[trigger] call_requires(tone32, (wd,)),
                            forall|j: int| 0 <= j < i ==> call_ensures(
                                tone32,
                                (ws@[j],),
                                #[trigger] mapped@[j],
                            ),
                        decreases n - i,
                    {
                        let b = tone32(ws[i]);
                        mapped.push(b);
                        i = i + 1;
                    }
                    let img = PixelImage {
                        kind: ImageKind::Luma8,
                        width,
                        height,
                        data: SampleData::Bytes(mapped),
                    };
                    proof {
                        assert(mapped@.len() == ws@.len());
                        assert(ws@.len() == m0.width * m0.height);
                        assert(img@.wf());
                    }
                    Ok(img)
                },
                None => Err("Not Supported".to_string()),
            }
        } else {
            Err("Not Supported".to_string())
        }
    }

    /// Encodes a common pixel image as a raster, tagging it with the
    /// host's native byte order, as `from_image_with_endian` does.
    pub fn from_image(img: &PixelImage) -> (r: Result<Raster, RasterError>)
        ensures
            exists|e: Endian| models_encode(r, img@, e),
    {
        let e = native_endian();
        let r = Raster::from_image_with_endian(img, e);
        proof {
            assert(models_encode(r, img@, e));
        }
        r
    }
}

} // verus!
