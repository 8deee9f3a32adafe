//! Whole-raster extraction into typed sample arrays.
//!
//! Each operation accepts exactly one band layout and decodes the whole
//! buffer through the byte-order-aware word decoder.  Samples whose numeric
//! meaning is an IEEE float are handed out as their stored bit patterns:
//! the raster's job is to recover each sample's word exactly, and a word is
//! what the byte order tag governs.

use vstd::prelude::*;
use vstd::arithmetic::div_mod::{lemma_div_multiples_vanish, lemma_mod_multiples_basic};

use crate::raster::{copy_bytes, lemma_bits_sum4, lemma_expected_len_bytes, shape1, Raster, SampleFormat};
use crate::endian::{words32_of, words64_of};

verus! {

/// One complex sample, as the stored bit patterns of its real and
/// imaginary 32-bit float parts.
#[derive(Clone, Copy, Debug, PartialEq, Eq, Structural)]
pub struct Complex32Bits {
    pub re: u32,
    pub im: u32,
}

/// Consecutive decoded words paired into complex samples: real part first,
/// imaginary part second.
pub open spec fn complex_pairs(ws: Seq<u32>) -> Seq<Complex32Bits> {
    Seq::new(ws.len() / 2, |i: int| Complex32Bits { re: ws[2 * i], im: ws[2 * i + 1] })
}

impl Raster {
    /// The raster's samples as one byte each; only the single-band 8-bit
    /// layout is accepted.
    pub fn to_bool_array(&self) -> (r: Result<Vec<u8>, String>)
        requires
            self@.wf(),
        ensures
            r is Ok <==> self@.bits =~= seq![8u16],
            r matches Ok(v) ==> v@ == self@.buffer,
    {
        if shape1(&self.bits_per_sample, 8) {
            Ok(copy_bytes(&self.buffer))
        } else {
            Err("Unsupported bits_per_sample configuration for f32 conversion".to_string())
        }
    }

    /// The raster's samples as 32-bit words, decoded per the raster's byte
    /// order; only the single-band 32-bit layout is accepted.  Each word is
    /// the bit pattern of one 32-bit float sample.
    pub fn to_f32_bits_array(&self) -> (r: Result<Vec<u32>, String>)
        requires
            self@.wf(),
        ensures
            r is Ok <==> self@.bits =~= seq![32u16],
            r matches Ok(v) ==> v@ == words32_of(self@.endian, self@.buffer),
    {
        if shape1(&self.bits_per_sample, 32) {
            proof {
                lemma_bits_sum4(32, 32, 32, 32);
                lemma_expected_len_bytes(self@.width, self@.height, self@.bits, 4);
                let t = (self@.width * self@.height) as int;
                lemma_mod_multiples_basic(t, 4);
                assert(self@.buffer.len() as int == t * 4);
            }
            match self.endian.decode_all_u32(self.buffer.as_slice()) {
                Some(data) => Ok(data),
                None => Err("Failed to decode endianness".to_string()),
            }
        } else {
            Err("Unsupported bits_per_sample configuration for f32 conversion".to_string())
        }
    }

    /// The raster's samples as 64-bit words, decoded per the raster's byte
    /// order; only the single-band 64-bit layout is accepted.  Each word is
    /// the bit pattern of one 64-bit float sample.
    pub fn to_f64_bits_array(&self) -> (r: Result<Vec<u64>, String>)
        requires
            self@.wf(),
        ensures
            r is Ok <==> self@.bits =~= seq![64u16],
            r matches Ok(v) ==> v@ == words64_of(self@.endian, self@.buffer),
    {
        if shape1(&self.bits_per_sample, 64) {
            proof {
                lemma_bits_sum4(64, 64, 64, 64);
                lemma_expected_len_bytes(self@.width, self@.height, self@.bits, 8);
                let t = (self@.width * self@.height) as int;
                lemma_mod_multiples_basic(t, 8);
                assert(self@.buffer.len() as int == t * 8);
            }
            match self.endian.decode_all_u64(self.buffer.as_slice()) {
                Some(data) => Ok(data),
                None => Err("Failed to decode endianness".to_string()),
            }
        } else {
            Err("Unsupported bits_per_sample configuration for f64 conversion".to_string())
        }
    }

    /// The raster's samples as complex 32-bit float bit patterns: each
    /// 64-bit pixel holds two consecutive 32-bit words, real part then
    /// imaginary part.  Only the single-band 64-bit complex-float layout is
    /// accepted.
    pub fn to_complex32_bits_array(&self) -> (r: Result<Vec<Complex32Bits>, String>)
        requires
            self@.wf(),
        ensures
            r is Ok <==> self@.formats =~= seq![SampleFormat::ComplexFloat] && self@.bits
                =~= seq![64u16],
            r matches Ok(v) ==> v@ == complex_pairs(words32_of(self@.endian, self@.buffer))
                && v@.len() == self@.width * self@.height,
    {
        let formats_match = self.sample_format.len() == 1 && matches!(
            self.sample_format[0],
            SampleFormat::ComplexFloat
        );
        proof {
            assert(formats_match <==> self@.formats =~= seq![SampleFormat::ComplexFloat]);
        }
        if formats_match && shape1(&self.bits_per_sample, 64) {
            let blen: usize = self.buffer.len();
            proof {
                lemma_bits_sum4(64, 64, 64, 64);
                lemma_expected_len_bytes(self@.width, self@.height, self@.bits, 8);
                let t = (self@.width * self@.height) as int;
                lemma_mod_multiples_basic(2 * t, 4);
                assert(self@.buffer.len() as int == (2 * t) * 4);
                assert(blen == 8 * (self@.width * self@.height));
            }
            let data = match self.endian.decode_all_u32(self.buffer.as_slice()) {
                Some(data) => data,
                None => {
                    return Err("Failed to decode endianness for complex data".to_string());
                },
            };
            let (w, h) = self.dimensions;
            proof {
                assert((w as int) * (h as int) <= 0xffff_ffffu64 * 0xffff_ffffu64)
                    by (nonlinear_arith)
                    requires
                        0 <= w as int <= 0xffff_ffffu64,
                        0 <= h as int <= 0xffff_ffffu64,
                ;
                assert(((w as u64) as int) * ((h as u64) as int) == (w as int) * (h as int));
                lemma_div_multiples_vanish((self@.width * self@.height) as int, 2);
            }
            let pixel_count: usize = ((w as u64) * (h as u64)) as usize;
            if data.len() != pixel_count * 2 {
                return Err("Data length mismatch".to_string());
            }
            let mut out: Vec<Complex32Bits> = Vec::new();
            let mut i: usize = 0;
            while i < pixel_count
                invariant
                    0 <= i <= pixel_count,
                    data@.len() == 2 * pixel_count,
                    2 * pixel_count <= usize::MAX,
                    out@.len() == i,
                    forall|j: int| 0 <= j < i ==> out@[j] == (Complex32Bits {
                        re: data@[2 * j],
                        im: data@[2 * j + 1],
                    }),
                decreases pixel_count - i,
            {
                let re = data[2 * i];
                let im = data[2 * i + 1];
                out.push(Complex32Bits { re, im });
                i = i + 1;
            }
            proof {
                assert(out@ =~= complex_pairs(words32_of(self@.endian, self@.buffer)));
            }
            Ok(out)
        } else {
            Err(
                "Unsupported bits_per_sample or sample_format configuration for complex f32 conversion".to_string(),
            )
        }
    }
}

} // verus!
