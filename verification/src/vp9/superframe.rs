//! Packets that hold several frames.
use vstd::prelude::*;
use vstd::slice::slice_subrange;

verus! {

/// The number in `n` bytes from `p` on, the lowest byte first.
pub open spec fn little_endian(d: Seq<u8>, p: int, n: int) -> int
    decreases n,
{
    if n <= 0 {
        0
    } else {
        d[p] + 256 * little_endian(d, p + 1, n - 1)
    }
}

/// Where the index of a packet says that its frames lie.
pub struct Index {
    /// Frames in the packet.
    pub frames: int,
    /// Bytes of the size of a frame.
    pub size_bytes: int,
}

impl Index {
    /// Bytes of the index: the sizes between two markers.
    pub open spec fn bytes(self) -> int {
        2 + self.frames * self.size_bytes
    }
}

/// The index that the last byte of a packet announces.
pub open spec fn index_spec(marker: u8) -> Index {
    Index { frames: marker as int / 8 % 4 + 1, size_bytes: marker as int % 4 + 1 }
}

/// Whether a packet ends in an index: the last byte has the bits of a marker, and the index that it
/// announces fits and begins with the same byte.
pub open spec fn has_index(d: Seq<u8>) -> bool {
    &&& d.len() >= 1
    &&& d.last() as int / 32 == 6
    &&& index_spec(d.last()).bytes() <= d.len()
    &&& d[d.len() - index_spec(d.last()).bytes()] == d.last()
}

/// The places of frames `k` and on, the first of them at `start`; nothing where one would reach into
/// the index.
pub open spec fn frames_from(d: Seq<u8>, x: Index, k: int, start: int) -> Option<Seq<(int, int)>>
    decreases x.frames - k,
{
    if k >= x.frames {
        Some(Seq::empty())
    } else {
        let size = little_endian(d, d.len() - x.bytes() + 1 + k * x.size_bytes, x.size_bytes);
        if start + size > d.len() - x.bytes() {
            None
        } else {
            match frames_from(d, x, k + 1, start + size) {
                None => None,
                Some(rest) => Some(seq![(start, start + size)] + rest),
            }
        }
    }
}

/// The places of the frames of a packet: those that its index gives, or the whole packet where it
/// has none or one that is not valid.
pub open spec fn superframe_spec(d: Seq<u8>) -> Seq<(int, int)> {
    let whole = seq![(0int, d.len() as int)];
    if has_index(d) {
        match frames_from(d, index_spec(d.last()), 0, 0) {
            Some(frames) => frames,
            None => whole,
        }
    } else {
        whole
    }
}

proof fn lemma_marker(m: u8)
    ensures
        (m & 0xE0 == 0xC0) == (m as int / 32 == 6),
        (m >> 3) & 3 == m as int / 8 % 4,
        m & 3 == m as int % 4,
{
    assert((m & 0xE0 == 0xC0) == (m / 32 == 6) && ((m >> 3u8) & 3 == m / 8 % 4) && (m & 3 == m % 4))
        by (bit_vector);
}

fn whole_packet(data: &[u8]) -> (r: Vec<&[u8]>)
    ensures
        r@.len() == 1,
        r@[0]@ == data@,
{
    let mut r: Vec<&[u8]> = Vec::new();
    r.push(data);
    r
}

/// The frames of a packet.
pub fn parse_superframe(data: &[u8]) -> (r: Vec<&[u8]>)
    ensures
        r@.len() == superframe_spec(data@).len(),
        forall|i: int|
            0 <= i < r@.len() ==> (#[trigger] r@[i])@ == data@.subrange(
                superframe_spec(data@)[i].0,
                superframe_spec(data@)[i].1,
            ),
        forall|i: int| 0 <= i < r@.len() ==> (#[trigger] r@[i])@.len() <= data@.len(),
{
    let len: usize = data.len();
    assert(data@.subrange(0, data@.len() as int) =~= data@);
    if len < 1 {
        return whole_packet(data);
    }
    let marker: u8 = data[len - 1];
    proof {
        lemma_marker(marker);
    }
    if marker & 0xE0 != 0xC0 {
        return whole_packet(data);
    }
    let frames: usize = ((marker >> 3) & 3) as usize + 1;
    let mag: usize = (marker & 3) as usize + 1;
    assert(1 <= frames * mag <= 16) by (nonlinear_arith)
        requires
            1 <= frames <= 4,
            1 <= mag <= 4,
    ;
    let index_size: usize = 2 + frames * mag;
    if index_size > len {
        return whole_packet(data);
    }
    if data[len - index_size] != marker {
        return whole_packet(data);
    }
    let ghost x = index_spec(marker);
    let limit: usize = len - index_size;
    let mut out: Vec<&[u8]> = Vec::new();
    let ghost mut ranges: Seq<(int, int)> = Seq::empty();
    let mut start: usize = 0;
    let mut pos: usize = limit + 1;
    let mut k: usize = 0;
    assert(0 * mag == 0);
    while k < frames
        invariant
            k <= frames,
            frames == x.frames,
            mag == x.size_bytes,
            1 <= frames <= 4,
            1 <= mag <= 4,
            index_size == x.bytes(),
            index_size <= len,
            len == data@.len(),
            limit == len - index_size,
            pos == limit + 1 + k * mag,
            start <= limit,
            has_index(data@),
            x == index_spec(data@.last()),
            out@.len() == k,
            ranges.len() == k,
            data@.subrange(0, data@.len() as int) == data@,
            forall|i: int|
                0 <= i < k ==> (#[trigger] out@[i])@ == data@.subrange(ranges[i].0, ranges[i].1)
                    && 0 <= ranges[i].0 <= ranges[i].1 <= limit,
            match frames_from(data@, x, k as int, start as int) {
                Some(rest) => frames_from(data@, x, 0, 0) == Some(ranges + rest),
                None => frames_from(data@, x, 0, 0) is None,
            },
        decreases frames - k,
    {
        assert(k * mag + mag <= frames * mag && (k + 1) * mag == k * mag + mag) by (nonlinear_arith)
            requires
                k + 1 <= frames,
                mag >= 1,
        ;
        let mut size: u64 = 0;
        let mut j: usize = mag;
        while j > 0
            invariant
                0 <= j <= mag <= 4,
                pos + mag < len,
                len == data@.len(),
                size == little_endian(data@, pos + j, mag - j),
                j == 4 ==> size < 1,
                j == 3 ==> size < 0x100,
                j == 2 ==> size < 0x1_0000,
                j == 1 ==> size < 0x100_0000,
                j == 0 ==> size < 0x1_0000_0000,
            decreases j,
        {
            j -= 1;
            size = size * 256 + data[pos + j] as u64;
        }
        if size > (limit - start) as u64 {
            return whole_packet(data);
        }
        let end: usize = start + size as usize;
        out.push(slice_subrange(data, start, end));
        proof {
            let rest = frames_from(data@, x, k + 1, end as int);
            if rest is Some {
                assert(ranges + (seq![(start as int, end as int)] + rest->0) =~= ranges.push(
                    (start as int, end as int),
                ) + rest->0);
            }
            ranges = ranges.push((start as int, end as int));
        }
        start = end;
        pos += mag;
        k += 1;
    }
    assert(ranges + Seq::<(int, int)>::empty() =~= ranges);
    out
}

proof fn lemma_frames_follow(d: Seq<u8>, x: Index, k: int, start: int)
    requires
        0 <= start <= d.len() - x.bytes(),
        x.bytes() >= 0,
        x.size_bytes >= 0,
        frames_from(d, x, k, start) is Some,
    ensures
        forall|i: int|
            #![trigger frames_from(d, x, k, start)->0[i]]
            0 <= i < frames_from(d, x, k, start)->0.len() ==> {
                let f = frames_from(d, x, k, start)->0;
                &&& f[i].0 == (if i == 0 {
                    start
                } else {
                    f[i - 1].1
                })
                &&& start <= f[i].0 <= f[i].1 <= d.len() - x.bytes()
            },
        frames_from(d, x, k, start)->0.len() == (if k >= x.frames {
            0
        } else {
            x.frames - k
        }),
    decreases x.frames - k,
{
    if k < x.frames {
        let p = d.len() - x.bytes() + 1 + k * x.size_bytes;
        let size = little_endian(d, p, x.size_bytes);
        lemma_little_endian(d, p, x.size_bytes);
        lemma_frames_follow(d, x, k + 1, start + size);
        let f = frames_from(d, x, k, start)->0;
        let rest = frames_from(d, x, k + 1, start + size)->0;
        assert(f == seq![(start, start + size)] + rest);
        assert forall|i: int| 0 <= i < f.len() implies {
            &&& (#[trigger] f[i]).0 == (if i == 0 {
                start
            } else {
                f[i - 1].1
            })
            &&& start <= f[i].0 <= f[i].1 <= d.len() - x.bytes()
        } by {
            if i > 0 {
                assert(f[i] == rest[i - 1]);
                if i > 1 {
                    assert(f[i - 1] == rest[i - 2]);
                }
            }
        }
    }
}

proof fn lemma_little_endian(d: Seq<u8>, p: int, n: int)
    ensures
        little_endian(d, p, n) >= 0,
    decreases n,
{
    if n > 0 {
        lemma_little_endian(d, p + 1, n - 1);
    }
}

/// The frames of a packet lie one behind the other from its start, none reaching beyond its end, and
/// there is at least one.
pub proof fn law_frames_follow(d: Seq<u8>)
    ensures
        1 <= superframe_spec(d).len() <= 4,
        forall|i: int|
            0 <= i < superframe_spec(d).len() ==> {
                &&& (#[trigger] superframe_spec(d)[i]).0 == (if i == 0 {
                    0
                } else {
                    superframe_spec(d)[i - 1].1
                })
                &&& 0 <= superframe_spec(d)[i].0 <= superframe_spec(d)[i].1 <= d.len()
            },
{
    if has_index(d) {
        let x = index_spec(d.last());
        assert(x.frames * x.size_bytes >= 0) by (nonlinear_arith)
            requires
                x.frames >= 0,
                x.size_bytes >= 0,
        ;
        if frames_from(d, x, 0, 0) is Some {
            lemma_frames_follow(d, x, 0, 0);
            let f = frames_from(d, x, 0, 0)->0;
            assert forall|i: int| 0 <= i < superframe_spec(d).len() implies {
                &&& (#[trigger] superframe_spec(d)[i]).0 == (if i == 0 {
                    0
                } else {
                    superframe_spec(d)[i - 1].1
                })
                &&& 0 <= superframe_spec(d)[i].0 <= superframe_spec(d)[i].1 <= d.len()
            } by {
                assert(superframe_spec(d) == f);
                let y = frames_from(d, x, 0, 0)->0[i];
            }
        }
    }
}

} // verus!
