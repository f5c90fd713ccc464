//! The standard probabilities.
use vstd::prelude::*;

use crate::vp9::compressed::{MvCompView, ProbView};
use crate::vp9::types::{MvCompProbs, ProbContext};

verus! {

/// Standard probabilities: luma modes of inter frames, by block size group.
pub const DEFAULT_Y_MODE: [[u8; 9]; 4] = [
    [65, 32, 18, 144, 162, 194, 41, 51, 98],
    [132, 68, 18, 165, 217, 196, 45, 40, 78],
    [173, 80, 19, 176, 240, 193, 64, 35, 46],
    [221, 135, 38, 194, 248, 121, 96, 85, 29],
];

/// Standard probabilities: chroma modes, by luma mode.
pub const DEFAULT_UV_MODE: [[u8; 9]; 10] = [
    [48, 12, 154, 155, 139, 90, 34, 117, 119],
    [67, 6, 25, 204, 243, 158, 13, 21, 96],
    [120, 7, 76, 176, 208, 126, 28, 54, 103],
    [97, 5, 44, 131, 176, 139, 48, 68, 97],
    [83, 5, 42, 156, 111, 152, 26, 49, 152],
    [80, 5, 58, 178, 74, 83, 33, 62, 145],
    [86, 5, 32, 154, 192, 168, 14, 22, 163],
    [77, 7, 64, 116, 132, 122, 37, 126, 120],
    [85, 5, 32, 156, 216, 148, 19, 29, 73],
    [101, 21, 107, 181, 192, 103, 19, 67, 125],
];

/// Standard probabilities: interpolation filters.
pub const DEFAULT_FILTER: [[u8; 2]; 4] = [
    [235, 162],
    [36, 255],
    [34, 3],
    [149, 144],
];

/// Standard probabilities: inter modes.
pub const DEFAULT_MV_MODE: [[u8; 3]; 7] = [
    [2, 173, 34],
    [7, 145, 85],
    [7, 166, 63],
    [7, 94, 66],
    [8, 64, 46],
    [17, 81, 31],
    [25, 29, 30],
];

/// Standard probabilities: intra blocks.
pub const DEFAULT_INTRA: [u8; 4] = [9, 102, 187, 225];

/// Standard probabilities: compound prediction.
pub const DEFAULT_COMP: [u8; 5] = [239, 183, 119, 96, 41];

/// Standard probabilities: single references.
pub const DEFAULT_SINGLE_REF: [[u8; 2]; 5] = [
    [33, 16],
    [77, 74],
    [142, 142],
    [172, 170],
    [238, 247],
];

/// Standard probabilities: compound references.
pub const DEFAULT_COMP_REF: [u8; 5] = [50, 126, 123, 221, 226];

/// Standard probabilities: transform sizes up to 32x32.
pub const DEFAULT_TX32P: [[u8; 3]; 2] = [
    [3, 136, 37],
    [5, 52, 13],
];

/// Standard probabilities: transform sizes up to 16x16.
pub const DEFAULT_TX16P: [[u8; 2]; 2] = [
    [20, 152],
    [15, 101],
];

/// Standard probabilities: transform sizes up to 8x8.
pub const DEFAULT_TX8P: [u8; 2] = [100, 66];

/// Standard probabilities: skipped blocks.
pub const DEFAULT_SKIP: [u8; 3] = [192, 128, 64];

/// Standard probabilities: motion vector joints.
pub const DEFAULT_MV_JOINT: [u8; 3] = [32, 64, 96];

/// Standard probabilities: partitions, by level, above bit and left bit; only the first two entries of either bit are used.
pub const DEFAULT_PARTITION: [[[[u8; 3]; 4]; 4]; 4] = [
    [
        [
            [222, 34, 30],
            [58, 32, 12],
            [0, 0, 0],
            [0, 0, 0],
        ],
        [
            [72, 16, 44],
            [10, 7, 6],
            [0, 0, 0],
            [0, 0, 0],
        ],
        [
            [0, 0, 0],
            [0, 0, 0],
            [0, 0, 0],
            [0, 0, 0],
        ],
        [
            [0, 0, 0],
            [0, 0, 0],
            [0, 0, 0],
            [0, 0, 0],
        ],
    ],
    [
        [
            [177, 58, 59],
            [52, 79, 25],
            [0, 0, 0],
            [0, 0, 0],
        ],
        [
            [68, 26, 63],
            [17, 14, 12],
            [0, 0, 0],
            [0, 0, 0],
        ],
        [
            [0, 0, 0],
            [0, 0, 0],
            [0, 0, 0],
            [0, 0, 0],
        ],
        [
            [0, 0, 0],
            [0, 0, 0],
            [0, 0, 0],
            [0, 0, 0],
        ],
    ],
    [
        [
            [174, 73, 87],
            [82, 99, 50],
            [0, 0, 0],
            [0, 0, 0],
        ],
        [
            [92, 41, 83],
            [53, 39, 39],
            [0, 0, 0],
            [0, 0, 0],
        ],
        [
            [0, 0, 0],
            [0, 0, 0],
            [0, 0, 0],
            [0, 0, 0],
        ],
        [
            [0, 0, 0],
            [0, 0, 0],
            [0, 0, 0],
            [0, 0, 0],
        ],
    ],
    [
        [
            [199, 122, 141],
            [148, 133, 118],
            [0, 0, 0],
            [0, 0, 0],
        ],
        [
            [147, 63, 159],
            [121, 104, 114],
            [0, 0, 0],
            [0, 0, 0],
        ],
        [
            [0, 0, 0],
            [0, 0, 0],
            [0, 0, 0],
            [0, 0, 0],
        ],
        [
            [0, 0, 0],
            [0, 0, 0],
            [0, 0, 0],
            [0, 0, 0],
        ],
    ],
];

/// Standard probabilities: motion vector classes, by component.
pub const DEFAULT_MV_CLASSES: [[u8; 10]; 2] = [
    [224, 144, 192, 168, 192, 176, 192, 198, 198, 245],
    [216, 128, 176, 160, 176, 176, 192, 198, 198, 208],
];

/// Standard probabilities: lowest motion vector class, by component.
pub const DEFAULT_MV_CLASS0: [u8; 2] = [216, 208];

/// Standard probabilities: integer bits of a motion vector.
pub const DEFAULT_MV_BITS: [u8; 10] = [136, 140, 148, 160, 176, 192, 224, 234, 234, 240];

/// Standard probabilities: fraction in the lowest class.
pub const DEFAULT_MV_CLASS0_FP: [[u8; 3]; 2] = [
    [128, 128, 64],
    [96, 112, 64],
];

/// Standard probabilities: fraction in the other classes.
pub const DEFAULT_MV_FP: [u8; 3] = [64, 96, 64];

/// The standard probabilities of a motion vector component.
pub open spec fn default_mv_comp_spec(i: int) -> MvCompView {
    MvCompView {
        sign: 128,
        classes: DEFAULT_MV_CLASSES@[i]@,
        class0: DEFAULT_MV_CLASS0@[i],
        bits: DEFAULT_MV_BITS@,
        class0_fp: DEFAULT_MV_CLASS0_FP.deep_view(),
        fp: DEFAULT_MV_FP@,
        class0_hp: 160,
        hp: 128,
    }
}

fn default_mv_comp(i: usize) -> (r: MvCompProbs)
    requires
        i < 2,
    ensures
        r@ == default_mv_comp_spec(i as int),
{
    MvCompProbs {
        sign: 128,
        classes: DEFAULT_MV_CLASSES[i],
        class0: DEFAULT_MV_CLASS0[i],
        bits: DEFAULT_MV_BITS,
        class0_fp: DEFAULT_MV_CLASS0_FP,
        fp: DEFAULT_MV_FP,
        class0_hp: 160,
        hp: 128,
    }
}

/// The standard probabilities.
pub open spec fn default_prob_spec() -> ProbView {
    ProbView {
        y_mode: DEFAULT_Y_MODE.deep_view(),
        uv_mode: DEFAULT_UV_MODE.deep_view(),
        filter: DEFAULT_FILTER.deep_view(),
        mv_mode: DEFAULT_MV_MODE.deep_view(),
        intra: DEFAULT_INTRA@,
        comp: DEFAULT_COMP@,
        single_ref: DEFAULT_SINGLE_REF.deep_view(),
        comp_ref: DEFAULT_COMP_REF@,
        tx32p: DEFAULT_TX32P.deep_view(),
        tx16p: DEFAULT_TX16P.deep_view(),
        tx8p: DEFAULT_TX8P@,
        skip: DEFAULT_SKIP@,
        mv_joint: DEFAULT_MV_JOINT@,
        mv_comp: seq![default_mv_comp_spec(0), default_mv_comp_spec(1)],
        partition: DEFAULT_PARTITION.deep_view(),
    }
}

/// The standard probabilities, which a stream starts from.
pub fn default_prob_context() -> (r: ProbContext)
    ensures
        r@ == default_prob_spec(),
{
    let a: MvCompProbs = default_mv_comp(0);
    let b: MvCompProbs = default_mv_comp(1);
    let r = ProbContext {
        y_mode: DEFAULT_Y_MODE,
        uv_mode: DEFAULT_UV_MODE,
        filter: DEFAULT_FILTER,
        mv_mode: DEFAULT_MV_MODE,
        intra: DEFAULT_INTRA,
        comp: DEFAULT_COMP,
        single_ref: DEFAULT_SINGLE_REF,
        comp_ref: DEFAULT_COMP_REF,
        tx32p: DEFAULT_TX32P,
        tx16p: DEFAULT_TX16P,
        tx8p: DEFAULT_TX8P,
        skip: DEFAULT_SKIP,
        mv_joint: DEFAULT_MV_JOINT,
        mv_comp: [a, b],
        partition: DEFAULT_PARTITION,
    };
    assert(r@.mv_comp =~= default_prob_spec().mv_comp);
    r
}

/// `n` copies of a value.
pub open spec fn copies<T>(v: T, n: nat) -> Seq<T> {
    Seq::new(n, |i: int| v)
}

/// Probabilities of a motion vector component that are all zero.
pub open spec fn zero_mv_comp_spec() -> MvCompView {
    MvCompView {
        sign: 0,
        classes: copies(0u8, 10),
        class0: 0,
        bits: copies(0u8, 10),
        class0_fp: copies(copies(0u8, 3), 2),
        fp: copies(0u8, 3),
        class0_hp: 0,
        hp: 0,
    }
}

/// Probabilities that are all zero.
pub open spec fn zero_prob_spec() -> ProbView {
    ProbView {
        y_mode: copies(copies(0u8, 9), 4),
        uv_mode: copies(copies(0u8, 9), 10),
        filter: copies(copies(0u8, 2), 4),
        mv_mode: copies(copies(0u8, 3), 7),
        intra: copies(0u8, 4),
        comp: copies(0u8, 5),
        single_ref: copies(copies(0u8, 2), 5),
        comp_ref: copies(0u8, 5),
        tx32p: copies(copies(0u8, 3), 2),
        tx16p: copies(copies(0u8, 2), 2),
        tx8p: copies(0u8, 2),
        skip: copies(0u8, 3),
        mv_joint: copies(0u8, 3),
        mv_comp: copies(zero_mv_comp_spec(), 2),
        partition: copies(copies(copies(copies(0u8, 3), 4), 4), 4),
    }
}

impl Default for MvCompProbs {
    fn default() -> (r: MvCompProbs)
        ensures
            r@ == zero_mv_comp_spec(),
    {
        let r = MvCompProbs {
            sign: 0,
            classes: [0u8; 10],
            class0: 0,
            bits: [0u8; 10],
            class0_fp: [[0u8; 3]; 2],
            fp: [0u8; 3],
            class0_hp: 0,
            hp: 0,
        };
        let ghost z = zero_mv_comp_spec();
        assert(r@.classes =~= z.classes);
        assert(r@.bits =~= z.bits);
        assert(r@.class0_fp =~~= z.class0_fp);
        assert(r@.fp =~= z.fp);
        r
    }
}

impl Default for ProbContext {
    fn default() -> (r: ProbContext)
        ensures
            r@ == zero_prob_spec(),
    {
        let c: MvCompProbs = MvCompProbs::default();
        let r = ProbContext {
            y_mode: [[0u8; 9]; 4],
            uv_mode: [[0u8; 9]; 10],
            filter: [[0u8; 2]; 4],
            mv_mode: [[0u8; 3]; 7],
            intra: [0u8; 4],
            comp: [0u8; 5],
            single_ref: [[0u8; 2]; 5],
            comp_ref: [0u8; 5],
            tx32p: [[0u8; 3]; 2],
            tx16p: [[0u8; 2]; 2],
            tx8p: [0u8; 2],
            skip: [0u8; 3],
            mv_joint: [0u8; 3],
            mv_comp: [c, c],
            partition: [[[[0u8; 3]; 4]; 4]; 4],
        };
        let ghost z = zero_prob_spec();
        assert(r@.y_mode =~~= z.y_mode);
        assert(r@.uv_mode =~~= z.uv_mode);
        assert(r@.filter =~~= z.filter);
        assert(r@.mv_mode =~~= z.mv_mode);
        assert(r@.intra =~= z.intra);
        assert(r@.comp =~= z.comp);
        assert(r@.single_ref =~~= z.single_ref);
        assert(r@.comp_ref =~= z.comp_ref);
        assert(r@.tx32p =~~= z.tx32p);
        assert(r@.tx16p =~~= z.tx16p);
        assert(r@.tx8p =~= z.tx8p);
        assert(r@.skip =~= z.skip);
        assert(r@.mv_joint =~= z.mv_joint);
        assert(r@.mv_comp =~= z.mv_comp);
        assert(r@.partition =~~= z.partition);
        r
    }
}

} // verus!
