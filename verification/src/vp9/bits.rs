//! Plain bit reader of the uncompressed part of a frame header.
use vstd::prelude::*;

verus! {

/// The bit at position `p` of `d`, counted from the highest bit of the first byte;
/// zero behind the end.
pub open spec fn bit_at(d: Seq<u8>, p: int) -> u32 {
    if 0 <= p < 8 * d.len() {
        ((d[p / 8] >> ((7 - p % 8) as usize)) & 1) as u32
    } else {
        0
    }
}

/// The number made of the `n` bits from position `p` on, the highest first.
pub open spec fn num(d: Seq<u8>, p: int, n: int) -> u32
    decreases n,
{
    if n <= 0 {
        0
    } else {
        (num(d, p, n - 1) << 1) | bit_at(d, p + n - 1)
    }
}

/// The bit at position `p`, as a flag.
pub open spec fn flag(d: Seq<u8>, p: int) -> bool {
    num(d, p, 1) != 0
}

/// A number of `n` bits is below 2^n.
pub proof fn law_num_bound(d: Seq<u8>, p: int, n: int)
    requires
        0 <= n <= 31,
    ensures
        num(d, p, n) < 1u32 << (n as u32),
    decreases n,
{
    if n == 0 {
        assert(1u32 << 0u32 == 1u32) by (bit_vector);
    } else {
        law_num_bound(d, p, n - 1);
        let v = num(d, p, n - 1);
        let b = bit_at(d, p + n - 1);
        let k = (n - 1) as u32;
        let x = d[(p + n - 1) / 8];
        let s = (7 - (p + n - 1) % 8) as usize;
        assert((x >> s) & 1 <= 1) by (bit_vector);
        let m = n as u32;
        assert(((v << 1) | b) < 1u32 << m) by (bit_vector)
            requires
                v < 1u32 << k,
                b <= 1,
                k < 31,
                m == k + 1,
        ;
    }
}

/// What reading a value from a bit string gives: the value, whether it is valid,
/// and the position behind it.
pub struct Parsed<T> {
    pub value: T,
    pub ok: bool,
    pub end: int,
}

/// Whether `r` is what a reader owes for `want`, where `bits` bits are there to
/// read and `pos` is the position that it left: the value where it is valid and
/// all of it is there, else nothing.
pub open spec fn got<T>(r: Option<T>, want: Parsed<T>, bits: int, pos: int) -> bool {
    match r {
        Some(v) => want.ok && want.end <= bits && v == want.value && pos == want.end,
        None => !(want.ok && want.end <= bits),
    }
}

/// Reader of bits, the highest bit of a byte first.
pub struct GetBits<'a> {
    data: &'a [u8],
    pos: usize,
}

impl<'a> GetBits<'a> {
    /// The bytes that are read.
    pub closed spec fn data(&self) -> Seq<u8> {
        self.data@
    }

    /// The position of the next bit.
    pub closed spec fn at(&self) -> int {
        self.pos as int
    }

    /// Number of bits in all.
    pub open spec fn bits(&self) -> int {
        8 * (self.data().len() as int)
    }

    /// What holds of every reader.
    pub open spec fn wf(&self) -> bool {
        &&& 0 <= self.at() <= self.bits()
        &&& self.bits() <= usize::MAX
    }

    /// A reader at the start of `data`.
    pub fn new(data: &'a [u8]) -> (r: Self)
        requires
            8 * data@.len() <= usize::MAX,
        ensures
            r.wf(),
            r.data() == data@,
            r.at() == 0,
    {
        GetBits { data, pos: 0 }
    }

    /// Reads `n` bits, or nothing where fewer are left.
    pub fn get_bits(&mut self, n: usize) -> (r: Option<u32>)
        requires
            old(self).wf(),
        ensures
            final(self).wf(),
            final(self).data() == old(self).data(),
            got(
                r,
                Parsed {
                    value: num(old(self).data(), old(self).at(), n as int),
                    ok: true,
                    end: old(self).at() + n,
                },
                old(self).bits(),
                final(self).at(),
            ),
            r is None ==> final(self).at() == old(self).bits(),
            n <= 31 ==> (r matches Some(v) ==> v < 1u32 << (n as u32)),
    {
        let ghost start = self.at();
        let ghost d = self.data();
        let mut v: u32 = 0;
        let mut k: usize = 0;
        while k < n
            invariant
                k <= n,
                self.wf(),
                self.data() == d,
                d == old(self).data(),
                start == old(self).at(),
                self.at() == start + k,
                v == num(d, start, k as int),
            decreases n - k,
        {
            let byte_idx: usize = self.pos / 8;
            if byte_idx >= self.data.len() {
                return None;
            }
            let bit: u8 = (self.data[byte_idx] >> (7 - (self.pos % 8))) & 1;
            v = (v << 1) | bit as u32;
            self.pos += 1;
            k += 1;
        }
        proof {
            if n <= 31 {
                law_num_bound(d, start, n as int);
            }
        }
        Some(v)
    }

    /// Reads one bit, or nothing where none is left.
    pub fn get_bit(&mut self) -> (r: Option<bool>)
        requires
            old(self).wf(),
        ensures
            final(self).wf(),
            final(self).data() == old(self).data(),
            got(
                r,
                Parsed {
                    value: flag(old(self).data(), old(self).at()),
                    ok: true,
                    end: old(self).at() + 1,
                },
                old(self).bits(),
                final(self).at(),
            ),
    {
        let v: u32 = self.get_bits(1)?;
        Some(v != 0)
    }

    /// The position of the next whole byte.
    pub fn byte_pos(&self) -> (r: usize)
        requires
            self.wf(),
        ensures
            r == (self.at() + 7) / 8,
    {
        self.pos / 8 + (if self.pos % 8 != 0 { 1usize } else { 0usize })
    }
}

} // verus!
