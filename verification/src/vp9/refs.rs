//! Reference frames.
use std::sync::Arc;
use vstd::prelude::*;

use crate::vp9::recon::FrameBuffer;

verus! {

/// Motion vectors and references of a 4x4 block.
#[derive(Clone, Copy, Debug)]
pub struct MvRefPair {
    /// Motion vectors as columns and rows, in eighths of a pixel.
    pub mv: [[i16; 2]; 2],
    /// References: 0 to 2, or -1 where there is none.
    pub ref_frame: [i8; 2],
}

impl Default for MvRefPair {
    fn default() -> (r: Self)
        ensures
            r.mv@[0]@ == seq![0i16, 0i16],
            r.mv@[1]@ == seq![0i16, 0i16],
            r.ref_frame@ == seq![0i8, 0i8],
    {
        let z: [i16; 2] = [0i16, 0i16];
        let r = MvRefPair { mv: [z, z], ref_frame: [0i8, 0i8] };
        assert(r.mv@[0]@ =~= seq![0i16, 0i16]);
        assert(r.mv@[1]@ =~= seq![0i16, 0i16]);
        assert(r.ref_frame@ =~= seq![0i8, 0i8]);
        r
    }
}

/// A decoded frame that others can refer to.
pub struct RefFrame {
    /// Pixels.
    pub fb: FrameBuffer,
    /// Motion vectors, one entry for each 4x4 block, row by row.
    pub mv_grid: Vec<MvRefPair>,
    pub width: u32,
    pub height: u32,
    /// Columns of 4 pixels.
    pub cols_4x4: usize,
    /// Rows of 4 pixels.
    pub rows_4x4: usize,
}

/// The eight reference slots, and the motion vectors of the last frame.
pub struct RefStore {
    pub slots: [Option<Arc<RefFrame>>; 8],
    pub prev_frame_mvs: Option<Vec<MvRefPair>>,
    /// Columns of 4 pixels of the last frame.
    pub prev_cols_4x4: usize,
}

impl RefStore {
    /// Whether nothing is stored.
    pub open spec fn is_clear(self) -> bool {
        &&& forall|i: int| 0 <= i < 8 ==> #[trigger] self.slots@[i] is None
        &&& self.prev_frame_mvs is None
        &&& self.prev_cols_4x4 == 0
    }

    /// A store without any frame.
    pub fn new() -> (r: Self)
        ensures
            r.is_clear(),
    {
        RefStore {
            slots: [None, None, None, None, None, None, None, None],
            prev_frame_mvs: None,
            prev_cols_4x4: 0,
        }
    }

    /// Puts `frame` into each slot whose bit is set in `mask`.
    pub fn refresh(&mut self, mask: u8, frame: Arc<RefFrame>)
        ensures
            forall|i: int|
                0 <= i < 8 ==> #[trigger] final(self).slots@[i] == (if mask & (1u8 << (i as u8))
                    != 0 {
                    Some(frame)
                } else {
                    old(self).slots@[i]
                }),
            final(self).prev_frame_mvs == old(self).prev_frame_mvs,
            final(self).prev_cols_4x4 == old(self).prev_cols_4x4,
    {
        let mut i: usize = 0;
        while i < 8
            invariant
                i <= 8,
                self.prev_frame_mvs == old(self).prev_frame_mvs,
                self.prev_cols_4x4 == old(self).prev_cols_4x4,
                forall|j: int|
                    0 <= j < 8 ==> #[trigger] self.slots@[j] == (if j < i && mask & (1u8 << (
                    j as u8)) != 0 {
                        Some(frame)
                    } else {
                        old(self).slots@[j]
                    }),
            decreases 8 - i,
        {
            if mask & (1u8 << (i as u8)) != 0 {
                self.slots[i] = Some(Arc::clone(&frame));
            }
            i += 1;
        }
    }

    /// Keeps the motion vectors of a frame for the next one.
    pub fn rotate_mvpair(&mut self, cur_mvs: Vec<MvRefPair>, cols_4x4: usize)
        ensures
            final(self).slots == old(self).slots,
            final(self).prev_frame_mvs == Some(cur_mvs),
            final(self).prev_cols_4x4 == cols_4x4,
    {
        self.prev_frame_mvs = Some(cur_mvs);
        self.prev_cols_4x4 = cols_4x4;
    }

    /// Drops every frame.
    pub fn clear(&mut self)
        ensures
            final(self).is_clear(),
    {
        self.slots = [None, None, None, None, None, None, None, None];
        self.prev_frame_mvs = None;
        self.prev_cols_4x4 = 0;
    }
}

impl Default for RefStore {
    fn default() -> (r: Self)
        ensures
            r.is_clear(),
    {
        RefStore::new()
    }
}

} // verus!
