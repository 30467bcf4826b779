//! Parsing the uncompressed SWF header: the bit-packed stage rectangle, the
//! 8.8 fixed-point frame rate, and the frame count.
//!
//! The stage rectangle starts the stream: its first 5 bits give the width
//! `n` of each of the four signed twip fields that follow, most significant
//! bit first.  The rectangle is padded to a byte boundary; the next two
//! bytes are the frame rate (a little-endian 8.8 fixed-point value) and the
//! two after that the frame count, little endian.
use vstd::prelude::*;

verus! {

/// Two to the given power.
pub open spec fn two_pow(n: nat) -> nat
    decreases n,
{
    if n == 0 {
        1
    } else {
        2 * two_pow((n - 1) as nat)
    }
}

pub proof fn lemma_two_pow_increases(a: nat, b: nat)
    requires
        a <= b,
    ensures
        two_pow(a) <= two_pow(b),
    decreases b,
{
    if a < b {
        lemma_two_pow_increases(a, (b - 1) as nat)
    }
}

pub proof fn lemma_two_pow_is_pow2(n: nat)
    ensures
        two_pow(n) == vstd::arithmetic::power2::pow2(n),
    decreases n,
{
    reveal(vstd::arithmetic::power::pow);
    if n > 0 {
        lemma_two_pow_is_pow2((n - 1) as nat);
        vstd::arithmetic::power::lemma_pow_positive(2, (n - 1) as nat);
    }
}

pub proof fn lemma_two_pow_31()
    ensures
        two_pow(31) == 0x80000000,
{
    lemma_two_pow_is_pow2(31);
    vstd::arithmetic::power2::lemma2_to64();
}

pub proof fn lemma_two_pow_5()
    ensures
        two_pow(5) == 32,
{
    lemma_two_pow_is_pow2(5);
    vstd::arithmetic::power2::lemma2_to64();
}

/// Bit `i` of the stream, counting from the first byte's most significant
/// bit.
pub open spec fn bit_of(d: Seq<u8>, i: nat) -> u8 {
    (d[i as int / 8] >> ((7 - (i % 8)) as u8)) & 1
}

/// The unsigned value of `count` bits starting at bit `start`, most
/// significant bit first.
pub open spec fn bits_val(d: Seq<u8>, start: nat, count: nat) -> nat
    decreases count,
{
    if count == 0 {
        0
    } else {
        bits_val(d, start, (count - 1) as nat) * 2 + (bit_of(d, (start + count - 1) as nat) as nat)
    }
}

/// The signed value of `count` bits starting at bit `start`: the unsigned
/// value, sign-extended from its leading bit.
pub open spec fn sbits_val(d: Seq<u8>, start: nat, count: nat) -> int {
    if count > 0 && bit_of(d, start) == 1 {
        bits_val(d, start, count) - two_pow(count)
    } else {
        bits_val(d, start, count) as int
    }
}

pub proof fn lemma_bits_val_bound(d: Seq<u8>, start: nat, count: nat)
    ensures
        bits_val(d, start, count) < two_pow(count),
    decreases count,
{
    if count > 0 {
        lemma_bits_val_bound(d, start, (count - 1) as nat);
        let i = (start + count - 1) as nat;
        let x = d[i as int / 8];
        let sh = (7 - (i % 8)) as u8;
        assert((x >> sh) & 1 <= 1) by (bit_vector);
        assert(bit_of(d, i) == (x >> sh) & 1);
    }
}

/// The bit width of each rectangle field, from the stream's first 5 bits.
pub open spec fn rect_nbits(d: Seq<u8>) -> nat {
    bits_val(d, 0, 5)
}

/// The number of whole bytes the bit-packed rectangle occupies.
pub open spec fn rect_byte_len(d: Seq<u8>) -> nat {
    (5 + 4 * rect_nbits(d) + 7) / 8
}

/// How many bytes the header needs: the rectangle plus two bytes of frame
/// rate and two of frame count.
pub open spec fn header_needed_len(d: Seq<u8>) -> nat {
    rect_byte_len(d) + 4
}

/// Whether the stream is long enough to hold the header.
pub open spec fn header_ok(d: Seq<u8>) -> bool {
    d.len() >= header_needed_len(d)
}

pub open spec fn spec_x_min(d: Seq<u8>) -> int {
    sbits_val(d, 5, rect_nbits(d))
}

pub open spec fn spec_x_max(d: Seq<u8>) -> int {
    sbits_val(d, 5 + rect_nbits(d), rect_nbits(d))
}

pub open spec fn spec_y_min(d: Seq<u8>) -> int {
    sbits_val(d, 5 + 2 * rect_nbits(d), rect_nbits(d))
}

pub open spec fn spec_y_max(d: Seq<u8>) -> int {
    sbits_val(d, 5 + 3 * rect_nbits(d), rect_nbits(d))
}

/// The raw little-endian 8.8 fixed-point frame rate.
pub open spec fn spec_frame_rate_raw(d: Seq<u8>) -> nat {
    (d[rect_byte_len(d) as int] as nat) + 256 * (d[rect_byte_len(d) as int + 1] as nat)
}

/// The frame count: two bytes, little endian.
pub open spec fn spec_num_frames(d: Seq<u8>) -> nat {
    (d[rect_byte_len(d) as int + 2] as nat) + 256 * (d[rect_byte_len(d) as int + 3] as nat)
}

/// The parsed header fields: the stage rectangle in twips, the raw frame
/// rate, and the frame count.
pub struct HeaderFields {
    pub x_min: i32,
    pub x_max: i32,
    pub y_min: i32,
    pub y_max: i32,
    pub frame_rate_raw: u16,
    pub num_frames: u16,
}

/// Read `count` bits starting at bit `start`, most significant bit first.
fn read_bits(d: &Vec<u8>, start: usize, count: usize) -> (r: u32)
    requires
        count <= 31,
        start + count <= d@.len() * 8,
        start + count <= usize::MAX,
    ensures
        r == bits_val(d@, start as nat, count as nat),
        r < two_pow(count as nat),
{
    let mut acc: u32 = 0;
    let mut k: usize = 0;
    while k < count
        invariant
            k <= count <= 31,
            start + count <= d@.len() * 8,
            start + count <= usize::MAX,
            acc == bits_val(d@, start as nat, k as nat),
            acc < two_pow(k as nat),
        decreases count - k,
    {
        proof {
            lemma_two_pow_increases(k as nat, 30);
            lemma_two_pow_31();
            assert(two_pow(30) * 2 == two_pow(31));
        }
        let i = start + k;
        let byte = d[i / 8];
        let sh: u8 = (7 - (i % 8)) as u8;
        let bit: u8 = (byte >> sh) & 1;
        proof {
            assert((byte >> sh) & 1 <= 1) by (bit_vector);
            assert(bit == bit_of(d@, i as nat));
        }
        acc = acc * 2 + (bit as u32);
        k = k + 1;
    }
    proof {
        lemma_bits_val_bound(d@, start as nat, count as nat);
    }
    acc
}

/// Read one signed, sign-extended rectangle field.
fn read_sbits(d: &Vec<u8>, start: usize, count: usize) -> (r: i32)
    requires
        count <= 31,
        start + count <= d@.len() * 8,
        start + count <= usize::MAX,
    ensures
        r == sbits_val(d@, start as nat, count as nat),
{
    let v = read_bits(d, start, count);
    if count > 0 {
        let i = start;
        let byte = d[i / 8];
        let sh: u8 = (7 - (i % 8)) as u8;
        let top: u8 = (byte >> sh) & 1;
        proof {
            assert(top == bit_of(d@, start as nat));
            lemma_two_pow_increases(count as nat, 31);
            lemma_two_pow_31();
        }
        if top == 1 {
            proof {
                lemma_two_pow_is_pow2(count as nat);
                vstd::arithmetic::power2::lemma2_to64();
                vstd::bits::lemma_u64_shl_is_mul(1u64, count as u64);
            }
            let pow: u64 = 1u64 << (count as u64);
            let signed: i64 = (v as i64) - (pow as i64);
            return signed as i32;
        }
    }
    v as i32
}

/// Parse the header fields from an uncompressed stream.
///
/// The stream is rejected as `TruncatedHeader` exactly when it is too short
/// to hold the bit-packed rectangle and the four bytes that follow it.
pub fn parse_header(d: &Vec<u8>) -> (r: Result<HeaderFields, crate::decompress::FormatError>)
    ensures
        r is Ok <==> header_ok(d@),
        match r {
            Ok(h) => {
                &&& h.x_min == spec_x_min(d@)
                &&& h.x_max == spec_x_max(d@)
                &&& h.y_min == spec_y_min(d@)
                &&& h.y_max == spec_y_max(d@)
                &&& h.frame_rate_raw == spec_frame_rate_raw(d@)
                &&& h.num_frames == spec_num_frames(d@)
            },
            Err(e) => e is TruncatedHeader,
        },
{
    let len = d.len();
    if len < 1 {
        proof {
            assert(header_needed_len(d@) >= 1);
        }
        return Err(crate::decompress::FormatError::TruncatedHeader);
    }
    let nbits = read_bits(d, 0, 5) as usize;
    proof {
        lemma_two_pow_5();
        assert(nbits == rect_nbits(d@));
        assert(nbits < 32);
    }
    let rect_bytes = (5 + 4 * nbits + 7) / 8;
    if len < rect_bytes + 4 {
        return Err(crate::decompress::FormatError::TruncatedHeader);
    }
    let x_min = read_sbits(d, 5, nbits);
    let x_max = read_sbits(d, 5 + nbits, nbits);
    let y_min = read_sbits(d, 5 + 2 * nbits, nbits);
    let y_max = read_sbits(d, 5 + 3 * nbits, nbits);
    let frame_rate_raw: u16 = (d[rect_bytes] as u16) + 256 * (d[rect_bytes + 1] as u16);
    let num_frames: u16 = (d[rect_bytes + 2] as u16) + 256 * (d[rect_bytes + 3] as u16);
    Ok(HeaderFields { x_min, x_max, y_min, y_max, frame_rate_raw, num_frames })
}

/// A stage extent in pixels: the difference of the twip bounds divided by
/// twenty, truncated, and clamped at zero when the difference is negative.
pub open spec fn pixel_extent(min: int, max: int) -> nat {
    if max - min <= 0 {
        0
    } else {
        ((max - min) / 20) as nat
    }
}

/// Convert a pair of twip bounds to a pixel extent.
pub fn pixels_between(min: i32, max: i32) -> (r: u32)
    ensures
        r == pixel_extent(min as int, max as int),
{
    let diff: i64 = (max as i64) - (min as i64);
    if diff <= 0 {
        0
    } else {
        (diff / 20) as u32
    }
}

/// The whole-frames-per-second value of the raw 8.8 fixed-point frame rate,
/// truncated toward zero; a negative fixed-point value truncates to zero.
pub open spec fn truncated_frame_rate(raw: nat) -> nat {
    if raw >= 0x8000 {
        0
    } else {
        raw / 256
    }
}

/// Truncate a raw 8.8 fixed-point frame rate to whole frames per second.
pub fn frame_rate_whole(raw: u16) -> (r: u32)
    ensures
        r == truncated_frame_rate(raw as nat),
{
    if raw >= 0x8000 {
        0
    } else {
        (raw / 256) as u32
    }
}

} // verus!
