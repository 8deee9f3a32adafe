//! The round-trip laws: decoding an encoded pixel image gives the image
//! back.

use vstd::prelude::*;

use crate::endian::{
    lemma_words16_round_trip, lemma_words32_round_trip, words16_of, words32_of, Endian,
};
use crate::pixel_image::{
    decode_image, encode_data, encode_image, kind_bits, kind_channels, DataModel, ImageKind,
    ImageModel,
};
use crate::raster::{expected_len, lemma_bits_sum4, lemma_expected_len_bytes};

verus! {

/// Encoding any well-formed pixel image of a tabled kind, under either
/// byte order, yields a raster that decodes back to the very same image:
/// the round trip is the identity on every pixel.
pub proof fn lemma_encode_decode_round_trip(m: ImageModel, e: Endian)
    requires
        m.wf(),
        m.kind != ImageKind::Other,
        m.width > 0,
        m.height > 0,
    ensures
        encode_image(m, e) matches Ok(rm) && decode_image(rm) == Some(m),
{
    lemma_bits_sum4(8, 8, 8, 8);
    lemma_bits_sum4(16, 16, 16, 16);
    lemma_bits_sum4(32, 32, 32, 32);
    let bits = kind_bits(m.kind);
    let buffer = encode_data(e, m.data);
    let ch = kind_channels(m.kind);
    match m.kind {
        ImageKind::Luma8 | ImageKind::LumaA8 | ImageKind::Rgb8 | ImageKind::Rgba8 => {
            lemma_expected_len_bytes(m.width, m.height, bits, ch);
            assert(buffer.len() == ch * (m.width * m.height));
            assert(expected_len(m.width, m.height, bits) == ch * (m.width * m.height));
        },
        ImageKind::Luma16 | ImageKind::LumaA16 | ImageKind::Rgb16 | ImageKind::Rgba16 => {
            let ws = m.data->Words16_0;
            lemma_expected_len_bytes(m.width, m.height, bits, 2 * ch);
            assert(buffer.len() == 2 * ws.len());
            assert((2 * ch) * (m.width * m.height) == 2 * (m.width * m.height * ch))
                by (nonlinear_arith);
            lemma_words16_round_trip(e, ws);
        },
        ImageKind::Rgb32F | ImageKind::Rgba32F => {
            let ws = m.data->Words32_0;
            lemma_expected_len_bytes(m.width, m.height, bits, 4 * ch);
            assert(buffer.len() == 4 * ws.len());
            assert((4 * ch) * (m.width * m.height) == 4 * (m.width * m.height * ch))
                by (nonlinear_arith);
            lemma_words32_round_trip(e, ws);
        },
        ImageKind::Other => {},
    }
    let rm = encode_image(m, e)->Ok_0;
    assert(encode_image(m, e) is Ok);
    let dec = decode_image(rm);
    match m.kind {
        ImageKind::Luma8 => {
            assert(rm.bits =~= seq![8u16]);
            assert(dec->Some_0 =~= m);
        },
        ImageKind::LumaA8 => {
            assert(!(rm.bits =~= seq![8u16]));
            assert(rm.bits =~= seq![8u16, 8u16]);
            assert(dec->Some_0 =~= m);
        },
        ImageKind::Rgb8 => {
            assert(rm.bits =~= seq![8u16, 8u16, 8u16]);
            assert(dec->Some_0 =~= m);
        },
        ImageKind::Rgba8 => {
            assert(rm.bits =~= seq![8u16, 8u16, 8u16, 8u16]);
            assert(dec->Some_0 =~= m);
        },
        ImageKind::Luma16 => {
            assert(rm.bits =~= seq![16u16]);
            assert(words16_of(e, rm.buffer) =~= m.data->Words16_0);
            assert(dec->Some_0 =~= m);
        },
        ImageKind::LumaA16 => {
            assert(rm.bits =~= seq![16u16, 16u16]);
            assert(words16_of(e, rm.buffer) =~= m.data->Words16_0);
            assert(dec->Some_0 =~= m);
        },
        ImageKind::Rgb16 => {
            assert(rm.bits =~= seq![16u16, 16u16, 16u16]);
            assert(words16_of(e, rm.buffer) =~= m.data->Words16_0);
            assert(dec->Some_0 =~= m);
        },
        ImageKind::Rgba16 => {
            assert(rm.bits =~= seq![16u16, 16u16, 16u16, 16u16]);
            assert(words16_of(e, rm.buffer) =~= m.data->Words16_0);
            assert(dec->Some_0 =~= m);
        },
        ImageKind::Rgb32F => {
            assert(rm.bits =~= seq![32u16, 32u16, 32u16]);
            assert(words32_of(e, rm.buffer) =~= m.data->Words32_0);
            assert(dec->Some_0 =~= m);
        },
        ImageKind::Rgba32F => {
            assert(rm.bits =~= seq![32u16, 32u16, 32u16, 32u16]);
            assert(words32_of(e, rm.buffer) =~= m.data->Words32_0);
            assert(dec->Some_0 =~= m);
        },
        ImageKind::Other => {},
    }
    assert(dec is Some && dec->Some_0 == m);
}

/// The fallback path round-trips shape-wise only: an image of the
/// untabled kind encodes as a single 8-bit band exactly when it carries
/// one byte per pixel, and then decodes to an 8-bit grayscale image with
/// the same dimensions and the same bytes, though not the same kind.
pub proof fn lemma_fallback_round_trip(m: ImageModel, e: Endian)
    requires
        m.wf(),
        m.kind == ImageKind::Other,
        m.width > 0,
        m.height > 0,
    ensures
        encode_image(m, e) is Ok <==> m.data->Bytes_0.len() == m.width * m.height,
        encode_image(m, e) matches Ok(rm) ==> decode_image(rm) matches Some(d) && d.kind
            == ImageKind::Luma8 && d.width == m.width && d.height == m.height && d.data == m.data,
{
    lemma_bits_sum4(8, 8, 8, 8);
    let bits = kind_bits(m.kind);
    lemma_expected_len_bytes(m.width, m.height, bits, 1);
    assert(expected_len(m.width, m.height, bits) == 1 * (m.width * m.height));
    if encode_image(m, e) is Ok {
        let rm = encode_image(m, e)->Ok_0;
        assert(rm.bits =~= seq![8u16]);
        let d = decode_image(rm)->Some_0;
        assert(d.data =~= m.data);
    }
}

} // verus!
