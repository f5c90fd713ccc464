//! What a block leaves behind for its neighbours below and on the right.
use vstd::prelude::*;

verus! {

/// Context above the blocks, over the whole width of a frame: an entry for each
/// column of 4 pixels, two for the modes and motion vectors.
pub struct AboveContext {
    pub partition: Vec<u8>,
    pub skip: Vec<u8>,
    pub tx_size: Vec<u8>,
    pub y_mode: Vec<u8>,
    pub uv_mode: Vec<u8>,
    pub seg_id: Vec<u8>,
    /// Whether there were coefficients, by plane.
    pub coef: [Vec<u8>; 3],
    pub intra: Vec<u8>,
    pub comp: Vec<u8>,
    pub ref_frame: Vec<u8>,
    pub filter: Vec<u8>,
    pub mv: Vec<[[i16; 2]; 2]>,
}

/// What a context holds, above or on the left.
#[verifier::ext_equal]
pub struct CtxView {
    pub partition: Seq<u8>,
    pub skip: Seq<u8>,
    pub tx_size: Seq<u8>,
    pub y_mode: Seq<u8>,
    pub uv_mode: Seq<u8>,
    pub seg_id: Seq<u8>,
    pub coef: Seq<Seq<u8>>,
    pub intra: Seq<u8>,
    pub comp: Seq<u8>,
    pub ref_frame: Seq<u8>,
    pub filter: Seq<u8>,
    pub mv: Seq<[[i16; 2]; 2]>,
}

impl View for AboveContext {
    type V = CtxView;

    open spec fn view(&self) -> CtxView {
        CtxView {
            partition: self.partition@,
            skip: self.skip@,
            tx_size: self.tx_size@,
            y_mode: self.y_mode@,
            uv_mode: self.uv_mode@,
            seg_id: self.seg_id@,
            coef: Seq::new(3, |p: int| self.coef@[p]@),
            intra: self.intra@,
            comp: self.comp@,
            ref_frame: self.ref_frame@,
            filter: self.filter@,
            mv: self.mv@,
        }
    }
}

impl View for LeftContext {
    type V = CtxView;

    open spec fn view(&self) -> CtxView {
        CtxView {
            partition: self.partition@,
            skip: self.skip@,
            tx_size: self.tx_size@,
            y_mode: self.y_mode@,
            uv_mode: self.uv_mode@,
            seg_id: self.seg_id@,
            coef: Seq::new(3, |p: int| self.coef@[p]@),
            intra: self.intra@,
            comp: self.comp@,
            ref_frame: self.ref_frame@,
            filter: self.filter@,
            mv: self.mv@,
        }
    }
}

/// Ranges of what a context holds.
pub open spec fn ctx_wf(c: CtxView) -> bool {
    &&& forall|i: int| 0 <= i < c.tx_size.len() ==> #[trigger] c.tx_size[i] <= 3
    &&& forall|i: int| 0 <= i < c.y_mode.len() ==> #[trigger] c.y_mode[i] <= 13
    &&& forall|p: int, i: int|
        0 <= p < 3 && 0 <= i < c.coef[p].len() ==> #[trigger] c.coef[p][i] <= 1
}

/// `n` times the same entry.
pub open spec fn fill<T>(v: T, n: int) -> Seq<T> {
    Seq::new(n as nat, |i: int| v)
}

/// `s` with the entries from `from` up to `to` set to `v`.
pub open spec fn splat<T>(s: Seq<T>, from: int, to: int, v: T) -> Seq<T> {
    Seq::new(s.len(), |i: int| if from <= i < to { v } else { s[i] })
}

/// Sets the entries from `from` up to `to` to `v`.
pub fn fill_range<T: Copy>(s: &mut [T], from: usize, to: usize, v: T)
    requires
        to <= old(s)@.len(),
    ensures
        final(s)@ == splat(old(s)@, from as int, to as int, v),
{
    let ghost s0 = s@;
    let mut i: usize = from;
    while i < to
        invariant
            from <= i,
            i <= to || i == from,
            to <= s@.len(),
            s@.len() == s0.len(),
            s@ =~= splat(s0, from as int, i as int, v),
        decreases to - i,
    {
        s[i] = v;
        i += 1;
    }
    assert(s@ =~= splat(s0, from as int, to as int, v));
}

/// A zero motion vector pair.
pub open spec fn zero_mvs() -> [[i16; 2]; 2] {
    [[0i16, 0i16], [0i16, 0i16]]
}

/// A zero motion vector pair.
pub fn no_mvs() -> (r: [[i16; 2]; 2])
    ensures
        r == zero_mvs(),
{
    let z: [i16; 2] = [0i16, 0i16];
    let r: [[i16; 2]; 2] = [z, z];
    assert(z =~= zero_mvs()@[0]);
    assert(z =~= zero_mvs()@[1]);
    assert(r =~= zero_mvs());
    r
}

fn mv_row(n: usize) -> (r: Vec<[[i16; 2]; 2]>)
    ensures
        r@ == fill(zero_mvs(), n as int),
{
    let mut r: Vec<[[i16; 2]; 2]> = Vec::new();
    assert(r@ =~= fill(zero_mvs(), 0));
    let mut i: usize = 0;
    while i < n
        invariant
            i <= n,
            r@ == fill(zero_mvs(), i as int),
        decreases n - i,
    {
        r.push(no_mvs());
        i += 1;
        assert(r@ =~= fill(zero_mvs(), i as int));
    }
    r
}

impl AboveContext {
    /// A context for a frame with `cols_4x4` columns of 4 pixels and `sb_cols`
    /// columns of 64.
    pub fn new(cols_4x4: usize, sb_cols: usize) -> (r: Self)
        requires
            2 * cols_4x4 <= usize::MAX,
            16 * sb_cols <= usize::MAX,
        ensures
            r.partition@ == fill(0u8, cols_4x4 as int),
            r.skip@ == fill(0u8, cols_4x4 as int),
            r.tx_size@ == fill(0u8, cols_4x4 as int),
            r.y_mode@ == fill(0u8, 2 * cols_4x4),
            r.uv_mode@ == fill(0u8, 2 * cols_4x4),
            r.seg_id@ == fill(0u8, cols_4x4 as int),
            forall|p: int| 0 <= p < 3 ==> #[trigger] r.coef@[p]@ == fill(0u8, 16 * sb_cols),
            r.intra@ == fill(0u8, cols_4x4 as int),
            r.comp@ == fill(0u8, cols_4x4 as int),
            r.ref_frame@ == fill(0u8, cols_4x4 as int),
            r.filter@ == fill(0u8, cols_4x4 as int),
            r.mv@ == fill(zero_mvs(), 2 * cols_4x4),
    {
        let modes: usize = cols_4x4 * 2;
        let nnz: usize = sb_cols * 16;
        let r = AboveContext {
            partition: vec![0u8; cols_4x4],
            skip: vec![0u8; cols_4x4],
            tx_size: vec![0u8; cols_4x4],
            y_mode: vec![0u8; modes],
            uv_mode: vec![0u8; modes],
            seg_id: vec![0u8; cols_4x4],
            coef: [vec![0u8; nnz], vec![0u8; nnz], vec![0u8; nnz]],
            intra: vec![0u8; cols_4x4],
            comp: vec![0u8; cols_4x4],
            ref_frame: vec![0u8; cols_4x4],
            filter: vec![0u8; cols_4x4],
            mv: mv_row(modes),
        };
        assert(r.partition@ =~= fill(0u8, cols_4x4 as int));
        assert(r.skip@ =~= fill(0u8, cols_4x4 as int));
        assert(r.tx_size@ =~= fill(0u8, cols_4x4 as int));
        assert(r.y_mode@ =~= fill(0u8, 2 * cols_4x4));
        assert(r.uv_mode@ =~= fill(0u8, 2 * cols_4x4));
        assert(r.seg_id@ =~= fill(0u8, cols_4x4 as int));
        assert(r.coef@[0]@ =~= fill(0u8, 16 * sb_cols));
        assert(r.coef@[1]@ =~= fill(0u8, 16 * sb_cols));
        assert(r.coef@[2]@ =~= fill(0u8, 16 * sb_cols));
        assert(r.intra@ =~= fill(0u8, cols_4x4 as int));
        assert(r.comp@ =~= fill(0u8, cols_4x4 as int));
        assert(r.ref_frame@ =~= fill(0u8, cols_4x4 as int));
        assert(r.filter@ =~= fill(0u8, cols_4x4 as int));
        assert(r.mv@ =~= fill(zero_mvs(), 2 * cols_4x4));
        r
    }

    /// Prepares the context for a new frame. The modes start from the DC mode in a
    /// frame without references, else, as far as there are columns, from the nearest
    /// vector. Transform sizes, references, filters and motion vectors are kept.
    pub fn reset(&mut self, keyframe_or_intraonly: bool)
        requires
            old(self).partition@.len() <= old(self).y_mode@.len(),
        ensures
            final(self).partition@ == fill(0u8, old(self).partition@.len() as int),
            final(self).skip@ == fill(0u8, old(self).skip@.len() as int),
            final(self).seg_id@ == fill(0u8, old(self).seg_id@.len() as int),
            final(self).y_mode@ == (if keyframe_or_intraonly {
                fill(2u8, old(self).y_mode@.len() as int)
            } else {
                splat(old(self).y_mode@, 0, old(self).partition@.len() as int, 10u8)
            }),
            forall|p: int|
                0 <= p < 3 ==> #[trigger] final(self).coef@[p]@ == fill(
                    0u8,
                    old(self).coef@[p]@.len() as int,
                ),
            final(self).tx_size == old(self).tx_size,
            final(self).uv_mode == old(self).uv_mode,
            final(self).intra == old(self).intra,
            final(self).comp == old(self).comp,
            final(self).ref_frame == old(self).ref_frame,
            final(self).filter == old(self).filter,
            final(self).mv == old(self).mv,
    {
        let n: usize = self.partition.len();
        fill_range(self.partition.as_mut_slice(), 0, n, 0);
        let k: usize = self.skip.len();
        fill_range(self.skip.as_mut_slice(), 0, k, 0);
        let k: usize = self.seg_id.len();
        fill_range(self.seg_id.as_mut_slice(), 0, k, 0);
        if keyframe_or_intraonly {
            let k: usize = self.y_mode.len();
            fill_range(self.y_mode.as_mut_slice(), 0, k, 2);
        } else {
            fill_range(self.y_mode.as_mut_slice(), 0, n, 10);
        }
        let k: usize = self.coef[0].len();
        fill_range(self.coef[0].as_mut_slice(), 0, k, 0);
        let k: usize = self.coef[1].len();
        fill_range(self.coef[1].as_mut_slice(), 0, k, 0);
        let k: usize = self.coef[2].len();
        fill_range(self.coef[2].as_mut_slice(), 0, k, 0);
        assert(self.partition@ =~= fill(0u8, old(self).partition@.len() as int));
        assert(self.skip@ =~= fill(0u8, old(self).skip@.len() as int));
        assert(self.seg_id@ =~= fill(0u8, old(self).seg_id@.len() as int));
        assert(self.coef@[0]@ =~= fill(0u8, old(self).coef@[0]@.len() as int));
        assert(self.coef@[1]@ =~= fill(0u8, old(self).coef@[1]@.len() as int));
        assert(self.coef@[2]@ =~= fill(0u8, old(self).coef@[2]@.len() as int));
    }
}

/// Context on the left of the blocks, over the height of a superblock: an entry for
/// each row of 8 pixels, two for the modes and motion vectors.
#[derive(Clone, Copy)]
pub struct LeftContext {
    pub partition: [u8; 8],
    pub skip: [u8; 8],
    pub tx_size: [u8; 8],
    pub y_mode: [u8; 16],
    pub uv_mode: [u8; 16],
    pub seg_id: [u8; 8],
    /// Whether there were coefficients, by plane and row of 4 pixels.
    pub coef: [[u8; 16]; 3],
    pub intra: [u8; 8],
    pub comp: [u8; 8],
    pub ref_frame: [u8; 8],
    pub filter: [u8; 8],
    pub mv: [[[i16; 2]; 2]; 16],
}

impl LeftContext {
    /// A context that is all zero.
    pub fn new() -> (r: Self)
        ensures
            r.partition@ == fill(0u8, 8),
            r.skip@ == fill(0u8, 8),
            r.tx_size@ == fill(0u8, 8),
            r.y_mode@ == fill(0u8, 16),
            r.uv_mode@ == fill(0u8, 16),
            r.seg_id@ == fill(0u8, 8),
            forall|p: int| 0 <= p < 3 ==> #[trigger] r.coef@[p]@ == fill(0u8, 16),
            r.intra@ == fill(0u8, 8),
            r.comp@ == fill(0u8, 8),
            r.ref_frame@ == fill(0u8, 8),
            r.filter@ == fill(0u8, 8),
            r.mv@ == fill(zero_mvs(), 16),
    {
        let r = LeftContext {
            partition: [0u8; 8],
            skip: [0u8; 8],
            tx_size: [0u8; 8],
            y_mode: [0u8; 16],
            uv_mode: [0u8; 16],
            seg_id: [0u8; 8],
            coef: [[0u8; 16]; 3],
            intra: [0u8; 8],
            comp: [0u8; 8],
            ref_frame: [0u8; 8],
            filter: [0u8; 8],
            mv: [no_mvs(); 16],
        };
        assert(r.partition@ =~= fill(0u8, 8));
        assert(r.y_mode@ =~= fill(0u8, 16));
        assert(r.coef@[0]@ =~= fill(0u8, 16));
        assert(r.coef@[1]@ =~= fill(0u8, 16));
        assert(r.coef@[2]@ =~= fill(0u8, 16));
        assert(r.mv@ =~= fill(zero_mvs(), 16));
        r
    }

    /// Prepares the context for a new row of superblocks. The modes start from the
    /// DC mode in a frame without references, else the first eight start from the
    /// nearest vector. The rest is kept.
    pub fn reset(&mut self, keyframe_or_intraonly: bool)
        ensures
            final(self).partition@ == fill(0u8, 8),
            final(self).skip@ == fill(0u8, 8),
            final(self).seg_id@ == fill(0u8, 8),
            final(self).y_mode@ == (if keyframe_or_intraonly {
                fill(2u8, 16)
            } else {
                splat(old(self).y_mode@, 0, 8, 10u8)
            }),
            forall|p: int| 0 <= p < 3 ==> #[trigger] final(self).coef@[p]@ == fill(0u8, 16),
            final(self).tx_size == old(self).tx_size,
            final(self).uv_mode == old(self).uv_mode,
            final(self).intra == old(self).intra,
            final(self).comp == old(self).comp,
            final(self).ref_frame == old(self).ref_frame,
            final(self).filter == old(self).filter,
            final(self).mv == old(self).mv,
    {
        self.partition = [0u8; 8];
        self.skip = [0u8; 8];
        self.seg_id = [0u8; 8];
        if keyframe_or_intraonly {
            self.y_mode = [2u8; 16];
        } else {
            fill_range(&mut self.y_mode, 0, 8, 10u8);
        }
        self.coef = [[0u8; 16]; 3];
        assert(self.partition@ =~= fill(0u8, 8));
        assert(self.skip@ =~= fill(0u8, 8));
        assert(self.seg_id@ =~= fill(0u8, 8));
        if keyframe_or_intraonly {
            assert(self.y_mode@ =~= fill(2u8, 16));
        }
        assert(self.coef@[0]@ =~= fill(0u8, 16));
        assert(self.coef@[1]@ =~= fill(0u8, 16));
        assert(self.coef@[2]@ =~= fill(0u8, 16));
    }

    /// Sets the partition of `n` rows of 8 pixels from `row7` on, as far as there
    /// are rows.
    pub fn set_partition(&mut self, row7: usize, val: u8, n: usize)
        requires
            row7 <= 8,
            row7 + n <= usize::MAX,
        ensures
            final(self).partition@ == splat(old(self).partition@, row7 as int, row7 + n, val),
            *final(self) == (LeftContext { partition: final(self).partition, ..*old(self) }),
    {
        let end: usize = if row7 + n < 8 { row7 + n } else { 8 };
        fill_range(&mut self.partition, row7, end, val);
        assert(self.partition@ =~= splat(old(self).partition@, row7 as int, row7 + n, val));
    }

    /// Sets the skip flag of `n` rows of 8 pixels from `row7` on, as far as there are
    /// rows.
    pub fn set_skip(&mut self, row7: usize, val: u8, n: usize)
        requires
            row7 <= 8,
            row7 + n <= usize::MAX,
        ensures
            final(self).skip@ == splat(old(self).skip@, row7 as int, row7 + n, val),
            *final(self) == (LeftContext { skip: final(self).skip, ..*old(self) }),
    {
        let end: usize = if row7 + n < 8 { row7 + n } else { 8 };
        fill_range(&mut self.skip, row7, end, val);
        assert(self.skip@ =~= splat(old(self).skip@, row7 as int, row7 + n, val));
    }

    /// Sets the transform size of `n` rows of 8 pixels from `row7` on, as far as there
    /// are rows.
    pub fn set_tx_size(&mut self, row7: usize, val: u8, n: usize)
        requires
            row7 <= 8,
            row7 + n <= usize::MAX,
        ensures
            final(self).tx_size@ == splat(old(self).tx_size@, row7 as int, row7 + n, val),
            *final(self) == (LeftContext { tx_size: final(self).tx_size, ..*old(self) }),
    {
        let end: usize = if row7 + n < 8 { row7 + n } else { 8 };
        fill_range(&mut self.tx_size, row7, end, val);
        assert(self.tx_size@ =~= splat(old(self).tx_size@, row7 as int, row7 + n, val));
    }

    /// Sets the mode of `n` rows of 8 pixels from `row7` on, as far as there are rows.
    pub fn set_y_mode(&mut self, row7: usize, val: u8, n: usize)
        requires
            row7 <= 8,
            2 * row7 + 2 * n <= usize::MAX,
        ensures
            final(self).y_mode@ == splat(old(self).y_mode@, 2 * row7, 2 * row7 + 2 * n, val),
            *final(self) == (LeftContext { y_mode: final(self).y_mode, ..*old(self) }),
    {
        let base: usize = row7 * 2;
        let end: usize = if base + n * 2 < 16 { base + n * 2 } else { 16 };
        fill_range(&mut self.y_mode, base, end, val);
        assert(self.y_mode@ =~= splat(old(self).y_mode@, 2 * row7, 2 * row7 + 2 * n, val));
    }
}

impl Default for LeftContext {
    fn default() -> (r: Self)
        ensures
            r.partition@ == fill(0u8, 8),
            r.skip@ == fill(0u8, 8),
            r.tx_size@ == fill(0u8, 8),
            r.y_mode@ == fill(0u8, 16),
            r.uv_mode@ == fill(0u8, 16),
            r.seg_id@ == fill(0u8, 8),
            forall|p: int| 0 <= p < 3 ==> #[trigger] r.coef@[p]@ == fill(0u8, 16),
            r.intra@ == fill(0u8, 8),
            r.comp@ == fill(0u8, 8),
            r.ref_frame@ == fill(0u8, 8),
            r.filter@ == fill(0u8, 8),
            r.mv@ == fill(zero_mvs(), 16),
    {
        LeftContext::new()
    }
}

} // verus!
