//! Byte order, and the byte-order-aware decoding and encoding of multi-byte
//! sample words.
//!
//! A raster buffer stores each multi-byte sample as consecutive bytes whose
//! order is given by the raster's `Endian` tag.  The functions here convert
//! between the flat byte buffer and the sequence of sample words it encodes.

use vstd::prelude::*;

verus! {

/// The byte order used to decode any multi-byte sample of a raster buffer.
#[derive(Clone, Copy, Debug, PartialEq, Eq, Structural)]
pub enum Endian {
    Little,
    Big,
}

/// The value of two little-endian bytes.
pub open spec fn le16(b0: u8, b1: u8) -> int {
    b0 + 256 * b1
}

/// The value of four little-endian bytes.
pub open spec fn le32(b0: u8, b1: u8, b2: u8, b3: u8) -> int {
    le16(b0, b1) + 65536 * le16(b2, b3)
}

/// The value of eight little-endian bytes.
pub open spec fn le64(b0: u8, b1: u8, b2: u8, b3: u8, b4: u8, b5: u8, b6: u8, b7: u8) -> int {
    le32(b0, b1, b2, b3) + 0x1_0000_0000 * le32(b4, b5, b6, b7)
}

/// The 16-bit word stored as the bytes `b0, b1` under byte order `e`.
pub open spec fn word16(e: Endian, b0: u8, b1: u8) -> u16 {
    match e {
        Endian::Little => le16(b0, b1) as u16,
        Endian::Big => le16(b1, b0) as u16,
    }
}

/// The 32-bit word stored as the bytes `b0 .. b3` under byte order `e`.
pub open spec fn word32(e: Endian, b0: u8, b1: u8, b2: u8, b3: u8) -> u32 {
    match e {
        Endian::Little => le32(b0, b1, b2, b3) as u32,
        Endian::Big => le32(b3, b2, b1, b0) as u32,
    }
}

/// The 64-bit word stored as the bytes `b0 .. b7` under byte order `e`.
pub open spec fn word64(e: Endian, b0: u8, b1: u8, b2: u8, b3: u8, b4: u8, b5: u8, b6: u8, b7: u8) -> u64 {
    match e {
        Endian::Little => le64(b0, b1, b2, b3, b4, b5, b6, b7) as u64,
        Endian::Big => le64(b7, b6, b5, b4, b3, b2, b1, b0) as u64,
    }
}

/// The sequence of 16-bit words stored in `bytes` under byte order `e`.
pub open spec fn words16_of(e: Endian, bytes: Seq<u8>) -> Seq<u16>
    recommends
        bytes.len() % 2 == 0,
{
    Seq::new(bytes.len() / 2, |i: int| word16(e, bytes[2 * i], bytes[2 * i + 1]))
}

/// The sequence of 32-bit words stored in `bytes` under byte order `e`.
pub open spec fn words32_of(e: Endian, bytes: Seq<u8>) -> Seq<u32>
    recommends
        bytes.len() % 4 == 0,
{
    Seq::new(
        bytes.len() / 4,
        |i: int| word32(e, bytes[4 * i], bytes[4 * i + 1], bytes[4 * i + 2], bytes[4 * i + 3]),
    )
}

/// The sequence of 64-bit words stored in `bytes` under byte order `e`.
pub open spec fn words64_of(e: Endian, bytes: Seq<u8>) -> Seq<u64>
    recommends
        bytes.len() % 8 == 0,
{
    Seq::new(
        bytes.len() / 8,
        |i: int| word64(
            e,
            bytes[8 * i],
            bytes[8 * i + 1],
            bytes[8 * i + 2],
            bytes[8 * i + 3],
            bytes[8 * i + 4],
            bytes[8 * i + 5],
            bytes[8 * i + 6],
            bytes[8 * i + 7],
        ),
    )
}

/// The byte at position `k` of the 16-bit word `w` under byte order `e`.
pub open spec fn byte_of16(e: Endian, w: u16, k: int) -> u8
    recommends
        0 <= k < 2,
{
    match e {
        Endian::Little => if k == 0 { (w % 256) as u8 } else { (w / 256) as u8 },
        Endian::Big => if k == 0 { (w / 256) as u8 } else { (w % 256) as u8 },
    }
}

/// The byte at position `k` of the 32-bit word `w` under byte order `e`.
pub open spec fn byte_of32(e: Endian, w: u32, k: int) -> u8
    recommends
        0 <= k < 4,
{
    match e {
        Endian::Little => byte_of16(Endian::Little, (if k < 2 { w % 65536 } else { w / 65536 }) as u16, k % 2),
        Endian::Big => byte_of16(Endian::Big, (if k < 2 { w / 65536 } else { w % 65536 }) as u16, k % 2),
    }
}

/// The bytes that store the word sequence `ws` under byte order `e`,
/// two bytes per word.
pub open spec fn bytes_of_words16(e: Endian, ws: Seq<u16>) -> Seq<u8> {
    Seq::new(2 * ws.len(), |i: int| byte_of16(e, ws[i / 2], i % 2))
}

/// The bytes that store the word sequence `ws` under byte order `e`,
/// four bytes per word.
pub open spec fn bytes_of_words32(e: Endian, ws: Seq<u32>) -> Seq<u8> {
    Seq::new(4 * ws.len(), |i: int| byte_of32(e, ws[i / 4], i % 4))
}

/// Storing a 16-bit word and reading its two bytes back gives the word again.
pub proof fn lemma_word16_of_bytes(e: Endian, w: u16)
    ensures
        word16(e, byte_of16(e, w, 0), byte_of16(e, w, 1)) == w,
{
}

/// Storing a 32-bit word and reading its four bytes back gives the word again.
pub proof fn lemma_word32_of_bytes(e: Endian, w: u32)
    ensures
        word32(e, byte_of32(e, w, 0), byte_of32(e, w, 1), byte_of32(e, w, 2), byte_of32(e, w, 3)) == w,
{
    let lo = (w % 65536) as u16;
    let hi = (w / 65536) as u16;
    lemma_word16_of_bytes(e, lo);
    lemma_word16_of_bytes(e, hi);
}

/// Encoding a 16-bit word sequence and decoding the bytes again gives the
/// sequence back, under either byte order.
pub proof fn lemma_words16_round_trip(e: Endian, ws: Seq<u16>)
    ensures
        words16_of(e, bytes_of_words16(e, ws)) =~= ws,
{
    let bytes = bytes_of_words16(e, ws);
    assert forall|i: int| 0 <= i < ws.len() implies words16_of(e, bytes)[i] == ws[i] by {
        assert(bytes[2 * i] == byte_of16(e, ws[i], 0));
        assert(bytes[2 * i + 1] == byte_of16(e, ws[i], 1));
        lemma_word16_of_bytes(e, ws[i]);
    }
}

/// Encoding a 32-bit word sequence and decoding the bytes again gives the
/// sequence back, under either byte order.
pub proof fn lemma_words32_round_trip(e: Endian, ws: Seq<u32>)
    ensures
        words32_of(e, bytes_of_words32(e, ws)) =~= ws,
{
    let bytes = bytes_of_words32(e, ws);
    assert forall|i: int| 0 <= i < ws.len() implies words32_of(e, bytes)[i] == ws[i] by {
        assert(bytes[4 * i] == byte_of32(e, ws[i], 0));
        assert(bytes[4 * i + 1] == byte_of32(e, ws[i], 1));
        assert(bytes[4 * i + 2] == byte_of32(e, ws[i], 2));
        assert(bytes[4 * i + 3] == byte_of32(e, ws[i], 3));
        lemma_word32_of_bytes(e, ws[i]);
    }
}

impl Endian {
    /// Decodes one 16-bit word from its two stored bytes.
    pub fn decode_u16_pair(self, b0: u8, b1: u8) -> (w: u16)
        ensures
            w == word16(self, b0, b1),
    {
        match self {
            Endian::Little => (b0 as u16) + 256 * (b1 as u16),
            Endian::Big => (b1 as u16) + 256 * (b0 as u16),
        }
    }

    /// Decodes a buffer of bytes as 16-bit words; `None` when the buffer
    /// cannot be split into whole words.
    pub fn decode_all_u16(self, bytes: &[u8]) -> (r: Option<Vec<u16>>)
        ensures
            r is Some <==> bytes@.len() % 2 == 0,
            r matches Some(ws) ==> ws@ == words16_of(self, bytes@),
    {
        if bytes.len() % 2 != 0 {
            return None;
        }
        let n = bytes.len() / 2;
        let mut ws: Vec<u16> = Vec::new();
        let mut i: usize = 0;
        while i < n
            invariant
                0 <= i <= n,
                n == bytes@.len() / 2,
                bytes@.len() % 2 == 0,
                bytes@.len() <= usize::MAX,
                ws@.len() == i,
                forall|j: int| 0 <= j < i ==> ws@[j] == words16_of(self, bytes@)[j],
            decreases n - i,
        {
            let b0 = bytes[2 * i];
            let b1 = bytes[2 * i + 1];
            let w: u16 = match self {
                Endian::Little => (b0 as u16) + 256 * (b1 as u16),
                Endian::Big => (b1 as u16) + 256 * (b0 as u16),
            };
            ws.push(w);
            i = i + 1;
        }
        assert(ws@ =~= words16_of(self, bytes@));
        Some(ws)
    }

    /// Decodes a buffer of bytes as 32-bit words; `None` when the buffer
    /// cannot be split into whole words.
    pub fn decode_all_u32(self, bytes: &[u8]) -> (r: Option<Vec<u32>>)
        ensures
            r is Some <==> bytes@.len() % 4 == 0,
            r matches Some(ws) ==> ws@ == words32_of(self, bytes@),
    {
        if bytes.len() % 4 != 0 {
            return None;
        }
        let n = bytes.len() / 4;
        let mut ws: Vec<u32> = Vec::new();
        let mut i: usize = 0;
        while i < n
            invariant
                0 <= i <= n,
                n == bytes@.len() / 4,
                bytes@.len() % 4 == 0,
                bytes@.len() <= usize::MAX,
                ws@.len() == i,
                forall|j: int| 0 <= j < i ==> ws@[j] == words32_of(self, bytes@)[j],
            decreases n - i,
        {
            let b0 = bytes[4 * i];
            let b1 = bytes[4 * i + 1];
            let b2 = bytes[4 * i + 2];
            let b3 = bytes[4 * i + 3];
            let w: u32 = match self {
                Endian::Little => (b0 as u32) + 256 * (b1 as u32) + 65536 * (b2 as u32) + 0x100_0000 * (b3 as u32),
                Endian::Big => (b3 as u32) + 256 * (b2 as u32) + 65536 * (b1 as u32) + 0x100_0000 * (b0 as u32),
            };
            ws.push(w);
            i = i + 1;
        }
        assert(ws@ =~= words32_of(self, bytes@));
        Some(ws)
    }

    /// Decodes a buffer of bytes as 64-bit words; `None` when the buffer
    /// cannot be split into whole words.
    pub fn decode_all_u64(self, bytes: &[u8]) -> (r: Option<Vec<u64>>)
        ensures
            r is Some <==> bytes@.len() % 8 == 0,
            r matches Some(ws) ==> ws@ == words64_of(self, bytes@),
    {
        if bytes.len() % 8 != 0 {
            return None;
        }
        let n = bytes.len() / 8;
        let mut ws: Vec<u64> = Vec::new();
        let mut i: usize = 0;
        while i < n
            invariant
                0 <= i <= n,
                n == bytes@.len() / 8,
                bytes@.len() % 8 == 0,
                bytes@.len() <= usize::MAX,
                ws@.len() == i,
                forall|j: int| 0 <= j < i ==> ws@[j] == words64_of(self, bytes@)[j],
            decreases n - i,
        {
            let b0 = bytes[8 * i];
            let b1 = bytes[8 * i + 1];
            let b2 = bytes[8 * i + 2];
            let b3 = bytes[8 * i + 3];
            let b4 = bytes[8 * i + 4];
            let b5 = bytes[8 * i + 5];
            let b6 = bytes[8 * i + 6];
            let b7 = bytes[8 * i + 7];
            let w: u64 = match self {
                Endian::Little => (b0 as u64) + 256 * (b1 as u64) + 65536 * (b2 as u64)
                    + 0x100_0000 * (b3 as u64) + 0x1_0000_0000 * (b4 as u64)
                    + 0x100_0000_0000 * (b5 as u64) + 0x1_0000_0000_0000 * (b6 as u64)
                    + 0x100_0000_0000_0000 * (b7 as u64),
                Endian::Big => (b7 as u64) + 256 * (b6 as u64) + 65536 * (b5 as u64)
                    + 0x100_0000 * (b4 as u64) + 0x1_0000_0000 * (b3 as u64)
                    + 0x100_0000_0000 * (b2 as u64) + 0x1_0000_0000_0000 * (b1 as u64)
                    + 0x100_0000_0000_0000 * (b0 as u64),
            };
            ws.push(w);
            i = i + 1;
        }
        assert(ws@ =~= words64_of(self, bytes@));
        Some(ws)
    }

    /// Encodes 16-bit words as bytes, two per word, in this byte order.
    pub fn encode_all_u16(self, ws: &[u16]) -> (r: Vec<u8>)
        ensures
            r@ == bytes_of_words16(self, ws@),
    {
        let n = ws.len();
        let mut bytes: Vec<u8> = Vec::new();
        let mut i: usize = 0;
        while i < n
            invariant
                0 <= i <= n,
                n == ws@.len(),
                bytes@.len() == 2 * i,
                forall|j: int| 0 <= j < 2 * i ==> bytes@[j] == bytes_of_words16(self, ws@)[j],
            decreases n - i,
        {
            let w = ws[i];
            let lo = (w % 256) as u8;
            let hi = (w / 256) as u8;
            match self {
                Endian::Little => {
                    bytes.push(lo);
                    bytes.push(hi);
                }
                Endian::Big => {
                    bytes.push(hi);
                    bytes.push(lo);
                }
            }
            assert(bytes@[2 * i as int] == byte_of16(self, ws@[i as int], 0));
            assert(bytes@[2 * i as int + 1] == byte_of16(self, ws@[i as int], 1));
            i = i + 1;
        }
        assert(bytes@ =~= bytes_of_words16(self, ws@));
        bytes
    }

    /// Encodes 32-bit words as bytes, four per word, in this byte order.
    pub fn encode_all_u32(self, ws: &[u32]) -> (r: Vec<u8>)
        ensures
            r@ == bytes_of_words32(self, ws@),
    {
        let n = ws.len();
        let mut bytes: Vec<u8> = Vec::new();
        let mut i: usize = 0;
        while i < n
            invariant
                0 <= i <= n,
                n == ws@.len(),
                bytes@.len() == 4 * i,
                forall|j: int| 0 <= j < 4 * i ==> bytes@[j] == bytes_of_words32(self, ws@)[j],
            decreases n - i,
        {
            let w = ws[i];
            let lo16 = (w % 65536) as u16;
            let hi16 = (w / 65536) as u16;
            let b0 = (lo16 % 256) as u8;
            let b1 = (lo16 / 256) as u8;
            let b2 = (hi16 % 256) as u8;
            let b3 = (hi16 / 256) as u8;
            match self {
                Endian::Little => {
                    bytes.push(b0);
                    bytes.push(b1);
                    bytes.push(b2);
                    bytes.push(b3);
                }
                Endian::Big => {
                    bytes.push(b3);
                    bytes.push(b2);
                    bytes.push(b1);
                    bytes.push(b0);
                }
            }
            assert(bytes@[4 * i as int] == byte_of32(self, ws@[i as int], 0));
            assert(bytes@[4 * i as int + 1] == byte_of32(self, ws@[i as int], 1));
            assert(bytes@[4 * i as int + 2] == byte_of32(self, ws@[i as int], 2));
            assert(bytes@[4 * i as int + 3] == byte_of32(self, ws@[i as int], 3));
            i = i + 1;
        }
        assert(bytes@ =~= bytes_of_words32(self, ws@));
        bytes
    }
}

} // verus!
