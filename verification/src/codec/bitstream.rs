//! Exponential-Golomb codes in a stream of bits.
use vstd::prelude::*;

use crate::error::{Error, Result};

pub use av_bitstream::bitread::{BitRead, BitReadBE, BitReadLE};

verus! {

/// Most zeros that a code can begin with.
pub const MAX_EXP_GOLOMB_LEADING_ZEROS: u32 = 31;

#[verifier::external_type_specification]
#[verifier::external_body]
pub struct ExBitReadBE<'a>(BitReadBE<'a>);

/// What a reader holds: the bytes that it reads, the number of bits consumed, and the number of
/// bytes that it has loaded.
pub uninterp spec fn held(r: BitReadBE<'_>) -> (Seq<u8>, int, int);

/// What a reader holds.
pub struct Reader {
    /// The bytes that it reads.
    pub bytes: Seq<u8>,
    /// Bits consumed.
    pub pos: int,
    /// Bytes loaded. Bits behind them read as zero until more are loaded, which takes eight bytes
    /// that are not loaded yet.
    pub loaded: int,
}

/// What a reader holds.
pub open spec fn reader(r: BitReadBE<'_>) -> Reader {
    Reader { bytes: held(r).0, pos: held(r).1, loaded: held(r).2 }
}

/// Bit `q` of a sequence of bytes, the highest bit of each byte first.
pub open spec fn bit_at(d: Seq<u8>, q: int) -> int {
    (d[q / 8] as int / pow2(7 - q % 8)) % 2
}

/// Two to the power `n`.
pub open spec fn pow2(n: int) -> int
    decreases n,
{
    if n <= 0 {
        1
    } else {
        2 * pow2(n - 1)
    }
}

/// The number that `n` bits from bit `p` on make up, bits from `end` on being zero.
pub open spec fn bits_until(d: Seq<u8>, p: int, end: int, n: int) -> int
    decreases n,
{
    if n <= 0 {
        0
    } else {
        2 * bits_until(d, p, end, n - 1) + (if p + n - 1 < end {
            bit_at(d, p + n - 1)
        } else {
            0
        })
    }
}

impl Reader {
    /// Whether eight more bytes can be loaded.
    pub open spec fn can_load(self) -> bool {
        self.loaded + 8 <= self.bytes.len()
    }

    /// The reader before it reads up to 32 bits: where no more than those are left, four bytes are
    /// loaded if that can be.
    pub open spec fn topped_up(self, n: int) -> Reader {
        if 8 * self.loaded - self.pos <= n && self.can_load() {
            Reader { loaded: self.loaded + 4, ..self }
        } else {
            self
        }
    }

    /// The reader before it reads one bit: where none is left, eight bytes are loaded if that can be.
    pub open spec fn reloaded(self) -> Reader {
        if self.loaded * 8 == self.pos && self.can_load() {
            Reader { loaded: self.loaded + 8, ..self }
        } else {
            self
        }
    }

    /// The next `n` bits.
    pub open spec fn ahead(self, n: int) -> int {
        bits_until(self.bytes, self.pos, 8 * self.loaded, n)
    }

    /// The reader behind the next `n` bits, or behind the last bit loaded.
    pub open spec fn behind(self, n: int) -> Reader {
        Reader {
            pos: if self.pos + n <= 8 * self.loaded {
                self.pos + n
            } else {
                8 * self.loaded
            },
            ..self
        }
    }

    /// Whether `n` bits can be skipped: they are loaded, or more can be.
    pub open spec fn can_skip(self, n: int) -> bool {
        self.pos + n <= 8 * self.loaded || self.can_load()
    }

    /// The reader with `n` bits skipped.
    pub open spec fn skipped(self, n: int) -> Reader {
        if self.pos + n <= 8 * self.loaded {
            Reader { pos: self.pos + n, ..self }
        } else {
            Reader { pos: self.pos + n, loaded: self.loaded + 8, ..self }
        }
    }
}

/// `av_bitstream::bitread::BitRead::peek_bits_32`: the next bits, which stay to be read. The crate
/// works on a copy of the reader.
#[verifier::external_body]
fn peek_bits_32(br: &mut BitReadBE<'_>, n: usize) -> (r: u32)
    requires
        1 <= n <= 32,
    ensures
        r == reader(*old(br)).topped_up(n as int).ahead(n as int),
        held(*final(br)) == held(*old(br)),
{
    br.peek_bits_32(n)
}

/// `av_bitstream::bitread::BitRead::get_bits_32`: the next bits. Bits that cannot be loaded read as
/// zero.
#[verifier::external_body]
fn get_bits_32(br: &mut BitReadBE<'_>, n: usize) -> (r: u32)
    requires
        1 <= n <= 32,
    ensures
        r == reader(*old(br)).topped_up(n as int).ahead(n as int),
        reader(*final(br)) == reader(*old(br)).topped_up(n as int).behind(n as int),
{
    br.get_bits_32(n)
}

/// `av_bitstream::bitread::BitRead::skip_bits`: skips bits that are loaded or can be.
#[verifier::external_body]
fn skip_bits(br: &mut BitReadBE<'_>, n: usize)
    requires
        n <= 32,
        reader(*old(br)).can_skip(n as int),
    ensures
        reader(*final(br)) == reader(*old(br)).skipped(n as int),
{
    br.skip_bits(n)
}

/// `av_bitstream::bitread::BitRead::get_bit`: the next bit. One that cannot be loaded reads as zero.
#[verifier::external_body]
fn get_bit(br: &mut BitReadBE<'_>) -> (r: bool)
    ensures
        r == (reader(*old(br)).reloaded().ahead(1) == 1),
        reader(*final(br)) == reader(*old(br)).reloaded().behind(1),
{
    br.get_bit()
}

/// `av_bitstream::bitread::BitRead::new`: a reader at the first bit, with eight bytes loaded where
/// there are as many.
#[verifier::external_body]
pub(crate) fn new_reader(data: &[u8]) -> (r: BitReadBE<'_>)
    ensures
        reader(r) == (Reader {
            bytes: data@,
            pos: 0,
            loaded: if data@.len() >= 8 {
                8
            } else {
                0
            },
        }),
{
    BitReadBE::new(data)
}

/// A reader of the bits of some bytes.
pub fn bit_reader(data: &[u8]) -> (r: BitReadBE<'_>)
    ensures
        reader(r) == (Reader {
            bytes: data@,
            pos: 0,
            loaded: if data@.len() >= 8 {
                8
            } else {
                0
            },
        }),
{
    new_reader(data)
}

/// The number of zeros before the first one in the 32 bits of a number that is not zero.
pub open spec fn leading_zeros(v: int) -> int
    decreases 0x1_0000_0000 - v,
{
    if v <= 0 || v >= 0x8000_0000 {
        0
    } else {
        1 + leading_zeros(2 * v)
    }
}

/// An unsigned code: as many zeros as bits follow the first one. What it stands for, and the reader
/// behind it; nothing where none of the next 32 bits is one.
pub open spec fn ue_spec(s: Reader) -> Option<(int, Reader)> {
    let v = s.topped_up(32).ahead(32);
    if v == 0 {
        None
    } else {
        let z = leading_zeros(v);
        let t = s.skipped(z).topped_up(z + 1);
        Some((t.ahead(z + 1) - 1, t.behind(z + 1)))
    }
}

proof fn lemma_bits_range(d: Seq<u8>, p: int, end: int, n: int)
    requires
        n >= 0,
    ensures
        0 <= bits_until(d, p, end, n) < pow2(n),
    decreases n,
{
    if n > 0 {
        lemma_bits_range(d, p, end, n - 1);
    }
}

/// The first bits are zero where the number is small, and the next is one where it is not too small.
proof fn lemma_first_one(d: Seq<u8>, p: int, end: int, n: int, z: int)
    requires
        0 <= z < n,
        pow2(n - 1 - z) <= bits_until(d, p, end, n) < pow2(n - z),
    ensures
        bits_until(d, p, end, z) == 0,
        p + z < end,
        bit_at(d, p + z) == 1,
    decreases n,
{
    let v = bits_until(d, p, end, n);
    let w = bits_until(d, p, end, n - 1);
    lemma_bits_range(d, p, end, n - 1);
    if z == n - 1 {
        assert(pow2(0) == 1 && pow2(1) == 2) by {
            reveal_with_fuel(pow2, 2);
        }
        assert(v == 1);
        assert(w == 0);
    } else {
        assert(pow2(n - 1 - z) == 2 * pow2(n - 2 - z));
        assert(pow2(n - z) == 2 * pow2(n - 1 - z));
        lemma_first_one(d, p, end, n - 1, z);
    }
}

proof fn lemma_leading_zeros(v: int)
    requires
        0 < v < 0x1_0000_0000,
    ensures
        0 <= leading_zeros(v) <= 31,
        pow2(31 - leading_zeros(v)) <= v < pow2(32 - leading_zeros(v)),
    decreases 0x1_0000_0000 - v,
{
    if v >= 0x8000_0000 {
        assert(pow2(31) == 0x8000_0000 && pow2(32) == 0x1_0000_0000) by {
            reveal_with_fuel(pow2, 33);
        }
    } else {
        lemma_leading_zeros(2 * v);
        let y = leading_zeros(2 * v);
        lemma_pow2_bound(2 * v, y);
        assert(pow2(32 - y) == 2 * pow2(31 - y));
        if y < 31 {
            assert(pow2(31 - y) == 2 * pow2(30 - y));
        } else {
            assert(pow2(0) == 1);
        }
    }
}

proof fn lemma_pow2_bound(v: int, y: int)
    requires
        v >= 2,
        0 <= y <= 31,
        v < pow2(32 - y),
    ensures
        y <= 30,
{
    if y == 31 {
        assert(pow2(1) == 2) by {
            reveal_with_fuel(pow2, 2);
        }
    }
}

/// The number of a code as it was read has its highest bit set.
proof fn lemma_top_bit(d: Seq<u8>, p: int, end: int, n: int)
    requires
        n >= 1,
        p < end,
        bit_at(d, p) == 1,
    ensures
        bits_until(d, p, end, n) >= 1,
    decreases n,
{
    if n > 1 {
        lemma_top_bit(d, p, end, n - 1);
    } else {
        assert(bits_until(d, p, end, 0) == 0);
    }
}

/// Reads an unsigned code.
pub fn get_ue_golomb(br: &mut BitReadBE<'_>) -> (r: Result<u32>)
    ensures
        match r {
            Ok(v) => ue_spec(reader(*old(br))) == Some((v as int, reader(*final(br)))),
            Err(e) => e == Error::InvalidData && ue_spec(reader(*old(br))) is None && held(
                *final(br),
            ) == held(*old(br)),
        },
{
    let ghost s = reader(*br);
    let peeked: u32 = peek_bits_32(br, 32);
    if peeked == 0 {
        return Err(Error::InvalidData);
    }
    let mut v: u32 = peeked;
    let mut zeros: u32 = 0;
    while v < 0x8000_0000
        invariant
            v > 0,
            leading_zeros(peeked as int) == zeros + leading_zeros(v as int),
            0 < peeked,
            zeros <= 31,
        decreases 0x1_0000_0000 - v,
    {
        proof {
            lemma_leading_zeros(peeked as int);
            lemma_leading_zeros(2 * v);
        }
        v = v * 2;
        zeros += 1;
    }
    proof {
        let t = s.topped_up(32);
        lemma_leading_zeros(peeked as int);
        lemma_first_one(t.bytes, t.pos, 8 * t.loaded, 32, zeros as int);
    }
    skip_bits(br, zeros as usize);
    let ghost k = reader(*br);
    let val: u32 = get_bits_32(br, zeros as usize + 1);
    proof {
        let t = k.topped_up(zeros + 1);
        lemma_top_bit(t.bytes, t.pos, 8 * t.loaded, zeros + 1);
    }
    Ok(val - 1)
}

/// The signed number of an unsigned one: odd numbers are positive, even ones not.
pub open spec fn signed_of(u: int) -> int {
    if u % 2 == 1 {
        u / 2 + 1
    } else {
        -(u / 2)
    }
}

/// Reads a signed code.
pub fn get_se_golomb(br: &mut BitReadBE<'_>) -> (r: Result<i32>)
    ensures
        match r {
            Ok(v) => match ue_spec(reader(*old(br))) {
                Some((u, next)) => v == signed_of(u) && reader(*final(br)) == next,
                None => false,
            },
            Err(e) => e == Error::InvalidData && ue_spec(reader(*old(br))) is None && held(
                *final(br),
            ) == held(*old(br)),
        },
{
    match get_ue_golomb(br) {
        Err(e) => Err(e),
        Ok(u) => {
            proof {
                assert(u <= 0xffff_fffe) by {
                    lemma_ue_small(reader(*old(br)));
                }
            }
            let half: i32 = (u / 2) as i32;
            if u % 2 == 1 {
                Ok(half + 1)
            } else {
                Ok(-half)
            }
        },
    }
}

proof fn lemma_ue_small(s: Reader)
    ensures
        match ue_spec(s) {
            Some((u, _)) => u <= 0xffff_fffe,
            None => true,
        },
{
    let v = s.topped_up(32).ahead(32);
    if v != 0 {
        let a = s.topped_up(32);
        lemma_bits_range(a.bytes, a.pos, 8 * a.loaded, 32);
        assert(pow2(32) == 0x1_0000_0000) by {
            reveal_with_fuel(pow2, 33);
        }
        lemma_leading_zeros(v);
        let z = leading_zeros(v);
        let t = s.skipped(z).topped_up(z + 1);
        lemma_bits_range(t.bytes, t.pos, 8 * t.loaded, z + 1);
        lemma_pow2_grows(z + 1, 32);
    }
}

proof fn lemma_pow2_grows(a: int, b: int)
    requires
        0 <= a <= b,
    ensures
        1 <= pow2(a) <= pow2(b),
    decreases b,
{
    if a < b {
        lemma_pow2_grows(a, b - 1);
    } else if a > 0 {
        lemma_pow2_grows(a - 1, b - 1);
    }
}

/// What a code of a number below `range` stands for: one bit, inverted, where only two numbers are
/// possible, and an unsigned code elsewhere.
pub open spec fn te_spec(s: Reader, range: u32) -> Option<(int, Reader)> {
    if range == 2 {
        Some((1 - s.reloaded().ahead(1), s.reloaded().behind(1)))
    } else {
        ue_spec(s)
    }
}

/// Reads a code of a number below `range`.
pub fn get_te_golomb(br: &mut BitReadBE<'_>, range: u32) -> (r: Result<u32>)
    requires
        range >= 1,
    ensures
        match r {
            Ok(v) => te_spec(reader(*old(br)), range) == Some((v as int, reader(*final(br)))),
            Err(e) => e == Error::InvalidData && te_spec(reader(*old(br)), range) is None && held(
                *final(br),
            ) == held(*old(br)),
        },
{
    if range == 2 {
        let ghost t = reader(*br).reloaded();
        let one = get_bit(br);
        proof {
            lemma_bits_range(t.bytes, t.pos, 8 * t.loaded, 1);
            assert(pow2(1) == 2) by {
                reveal_with_fuel(pow2, 2);
            }
        }
        Ok(
            if one {
                0
            } else {
                1
            },
        )
    } else {
        get_ue_golomb(br)
    }
}

/// Reads a code of a number below `range`; the only number below one is not coded.
pub fn get_te0_golomb(br: &mut BitReadBE<'_>, range: u32) -> (r: Result<u32>)
    requires
        range >= 1,
    ensures
        range == 1 ==> r == Ok::<u32, Error>(0) && held(*final(br)) == held(*old(br)),
        range > 1 ==> match r {
            Ok(v) => te_spec(reader(*old(br)), range) == Some((v as int, reader(*final(br)))),
            Err(e) => e == Error::InvalidData && te_spec(reader(*old(br)), range) is None && held(
                *final(br),
            ) == held(*old(br)),
        },
{
    if range == 1 {
        Ok(0)
    } else {
        get_te_golomb(br, range)
    }
}

/// The number that `n` bits from bit `p` on make up.
pub open spec fn bits_value(d: Seq<u8>, p: int, n: int) -> int {
    bits_until(d, p, p + n, n)
}

proof fn lemma_end_behind(d: Seq<u8>, p: int, end: int, n: int)
    requires
        n >= 0,
        p + n <= end,
    ensures
        bits_until(d, p, end, n) == bits_value(d, p, n),
    decreases n,
{
    if n > 0 {
        lemma_end_behind(d, p, end, n - 1);
        lemma_end_behind(d, p, p + n, n - 1);
    }
}

/// A number whose first one is at bit `z` lies between two powers of two.
proof fn lemma_one_at(d: Seq<u8>, p: int, n: int, z: int)
    requires
        0 <= z < n,
        bits_value(d, p, z) == 0,
        bit_at(d, p + z) == 1,
    ensures
        pow2(n - 1 - z) <= bits_value(d, p, n) < pow2(n - z),
    decreases n,
{
    lemma_end_behind(d, p, p + n, n - 1);
    if n - 1 == z {
        assert(pow2(0) == 1 && pow2(1) == 2) by {
            reveal_with_fuel(pow2, 2);
        }
    } else {
        lemma_one_at(d, p, n - 1, z);
        assert(pow2(n - 1 - z) == 2 * pow2(n - 2 - z));
        assert(pow2(n - z) == 2 * pow2(n - 1 - z));
        let b = bit_at(d, p + n - 1);
        assert(0 <= b < 2);
    }
}

proof fn lemma_leading_zeros_of(v: int, z: int)
    requires
        0 <= z <= 31,
        pow2(31 - z) <= v < pow2(32 - z),
    ensures
        leading_zeros(v) == z,
    decreases z,
{
    assert(pow2(31) == 0x8000_0000) by {
        reveal_with_fuel(pow2, 32);
    }
    lemma_pow2_grows(0, 31 - z);
    if z > 0 {
        lemma_pow2_grows(32 - z, 31);
        assert(pow2(32 - z) == 2 * pow2(31 - z));
        assert(pow2(33 - z) == 2 * pow2(32 - z));
        lemma_leading_zeros_of(2 * v, z - 1);
    }
}

/// Where enough bytes lie ahead, a code of `z` zeros and a number of `z` + 1 bits that begins with a
/// one is read as that number less one, and the reader stands behind it.
pub proof fn law_ue_reads_code(s: Reader, z: int)
    requires
        0 <= s.pos <= 8 * s.loaded <= s.pos + 64,
        s.pos + 160 <= 8 * s.bytes.len(),
        0 <= z <= 31,
        bits_value(s.bytes, s.pos, z) == 0,
        bit_at(s.bytes, s.pos + z) == 1,
    ensures
        match ue_spec(s) {
            Some((v, next)) => v == bits_value(s.bytes, s.pos + z, z + 1) - 1 && next.pos == s.pos
                + 2 * z + 1 && next.bytes == s.bytes,
            None => false,
        },
{
    let a = s.topped_up(32);
    lemma_end_behind(a.bytes, a.pos, 8 * a.loaded, 32);
    lemma_one_at(s.bytes, s.pos, 32, z);
    lemma_pow2_grows(0, 31 - z);
    let v = a.ahead(32);
    lemma_leading_zeros_of(v, z);
    let t = s.skipped(z).topped_up(z + 1);
    lemma_end_behind(t.bytes, t.pos, 8 * t.loaded, z + 1);
}

} // verus!
