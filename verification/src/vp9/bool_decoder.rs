//! Boolean arithmetic (range) decoder.
//!
//! The decoder keeps the width of the current interval in `high` and the part of
//! the input that it compares with in `code_word`. `bits` is the number of fresh
//! bits left in `code_word`, negated: once it is not negative, two more bytes are
//! taken from the input.
use vstd::prelude::*;

verus! {

/// State of a range decoder over the input bytes `data`.
#[verifier::ext_equal]
pub struct Rac {
    pub data: Seq<u8>,
    pub high: u32,
    pub bits: i32,
    pub pos: int,
    pub code_word: u32,
    pub end_reached: u32,
}

/// Number of leading zero bits of the byte `high`.
pub open spec fn norm_shift_spec(high: u32) -> u32 {
    if high >= 128 {
        0
    } else if high >= 64 {
        1
    } else if high >= 32 {
        2
    } else if high >= 16 {
        3
    } else if high >= 8 {
        4
    } else if high >= 4 {
        5
    } else if high >= 2 {
        6
    } else if high >= 1 {
        7
    } else {
        8
    }
}

/// Number of leading zero bits of the byte `high`: how far it is shifted to bring
/// its highest bit to the top.
pub fn norm_shift(high: u32) -> (r: u32)
    ensures
        r == norm_shift_spec(high),
{
    if high >= 128 {
        0
    } else if high >= 64 {
        1
    } else if high >= 32 {
        2
    } else if high >= 16 {
        3
    } else if high >= 8 {
        4
    } else if high >= 4 {
        5
    } else if high >= 2 {
        6
    } else if high >= 1 {
        7
    } else {
        8
    }
}

/// A byte that is not zero has its highest bit at the top after the shift.
proof fn lemma_norm_shift(high: u32)
    requires
        1 <= high <= 255,
    ensures
        norm_shift_spec(high) <= 7,
        128 <= high << norm_shift_spec(high) <= 255,
{
    let s = norm_shift_spec(high);
    assert(128 <= high << s <= 255) by (bit_vector)
        requires
            1 <= high <= 255,
            s == 0 ==> high >= 128,
            s == 1 ==> 64 <= high < 128,
            s == 2 ==> 32 <= high < 64,
            s == 3 ==> 16 <= high < 32,
            s == 4 ==> 8 <= high < 16,
            s == 5 ==> 4 <= high < 8,
            s == 6 ==> 2 <= high < 4,
            s == 7 ==> high == 1,
            s <= 7,
    ;
}

/// The point that divides an interval of width `high` at probability `prob`.
pub open spec fn split_point(high: u32, prob: u8) -> u32 {
    (1 + (((high - 1) * prob) as u32 >> 8)) as u32
}

/// The dividing point lies inside the interval.
proof fn lemma_split_point(high: u32, prob: u8)
    requires
        2 <= high <= 255,
    ensures
        1 <= split_point(high, prob) < high,
        0 <= (high - 1) * prob <= 254 * 255,
        (((high - 1) * prob) as u32 >> 8) < high - 1,
{
    assert(0 <= (high - 1) * prob <= 254 * 255) by (nonlinear_arith)
        requires
            2 <= high <= 255,
            0 <= prob <= 255,
    ;
    let x = ((high - 1) * prob) as u32;
    let h1 = (high - 1) as u32;
    assert(x <= h1 * 255) by (nonlinear_arith)
        requires
            x == h1 * prob,
            0 <= prob <= 255,
            h1 >= 0,
    ;
    assert((x >> 8) < h1) by (bit_vector)
        requires
            x <= h1 * 255,
            1 <= h1 <= 254,
    ;
}

impl Rac {
    /// What holds of every state.
    pub open spec fn wf(self) -> bool {
        &&& 1 <= self.high <= 255
        &&& 0 <= self.pos <= self.data.len()
        &&& self.pos < self.data.len() ==> -16 <= self.bits < 0
    }

    /// The state before anything was read from `data`.
    pub open spec fn init(data: Seq<u8>) -> Rac {
        Rac {
            data,
            high: 255,
            bits: -16i32,
            pos: if data.len() >= 3 { 3 } else { data.len() as int },
            code_word: if data.len() >= 3 {
                ((data[0] as u32) << 16) | ((data[1] as u32) << 8) | (data[2] as u32)
            } else if data.len() == 2 {
                ((data[0] as u32) << 16) | ((data[1] as u32) << 8)
            } else {
                (data[0] as u32) << 16
            },
            end_reached: 0,
        }
    }

    /// The state with `high` brought back to at least 128, and fresh bytes taken
    /// from the input where they are due.
    pub open spec fn renorm(self) -> Rac {
        let shift = norm_shift_spec(self.high);
        let bits = self.bits.wrapping_add(shift as i32);
        let code_word = self.code_word << shift;
        let high = self.high << shift;
        if bits >= 0 && self.pos < self.data.len() {
            let b0 = self.data[self.pos] as u32;
            let two = self.pos + 1 < self.data.len();
            let b1 = if two { self.data[self.pos + 1] as u32 } else { 0u32 };
            Rac {
                high,
                bits: (bits - 16) as i32,
                pos: if two { self.pos + 2 } else { self.pos + 1 },
                code_word: code_word | (((b0 << 8) | b1) << bits as u32),
                ..self
            }
        } else {
            Rac { high, bits, code_word, ..self }
        }
    }

    /// The bit that is read next at probability `prob` of a zero, out of 256.
    pub open spec fn bit(self, prob: u8) -> bool {
        let r = self.renorm();
        r.code_word >= split_point(r.high, prob) << 16
    }

    /// The state behind a bit read at probability `prob`.
    pub open spec fn after(self, prob: u8) -> Rac {
        let r = self.renorm();
        let low = split_point(r.high, prob);
        if r.code_word >= low << 16 {
            Rac {
                high: (r.high - low) as u32,
                code_word: (r.code_word - (low << 16)) as u32,
                ..r
            }
        } else {
            Rac { high: low, ..r }
        }
    }

    /// The number made of the next `n` even bits, the highest first.
    pub open spec fn uint(self, n: int) -> u32
        decreases n,
    {
        if n <= 0 {
            0
        } else {
            (self.uint(n - 1) << 1) | (if self.after_uint(n - 1).bit(128) { 1u32 } else { 0u32 })
        }
    }

    /// The state behind `n` even bits.
    pub open spec fn after_uint(self, n: int) -> Rac
        decreases n,
    {
        if n <= 0 {
            self
        } else {
            self.after_uint(n - 1).after(128)
        }
    }

    /// The leaf that is reached from node `i` of a tree, and the state behind it.
    pub open spec fn walk(self, tree: Seq<[i8; 2]>, probs: Seq<u8>, i: int) -> (int, Rac)
        decreases tree.len() - i,
    {
        if 0 <= i < tree.len() {
            let next = tree[i]@[if self.bit(probs[i]) { 1int } else { 0int }];
            if next <= i || next >= tree.len() {
                (-next, self.after(probs[i]))
            } else {
                self.after(probs[i]).walk(tree, probs, next as int)
            }
        } else {
            (0, self)
        }
    }

    /// The symbol that is read next by a tree.
    pub open spec fn symbol(self, tree: Seq<[i8; 2]>, probs: Seq<u8>) -> int {
        self.walk(tree, probs, 0).0
    }

    /// The state behind a symbol read by a tree.
    pub open spec fn after_symbol(self, tree: Seq<[i8; 2]>, probs: Seq<u8>) -> Rac {
        self.walk(tree, probs, 0).1
    }

    /// Whether the input is used up.
    pub open spec fn at_end(self) -> bool {
        self.pos >= self.data.len() && self.bits >= 0
    }

    /// The state behind a query for the end of the input.
    pub open spec fn after_is_end(self) -> Rac {
        if self.at_end() {
            Rac { end_reached: self.end_reached.saturating_add(1), ..self }
        } else {
            self
        }
    }
}

/// Whether every branch of a tree leads forward or to a leaf, and each node has a
/// probability.
pub open spec fn tree_wf(tree: Seq<[i8; 2]>, n_probs: int) -> bool {
    &&& 0 < tree.len() <= n_probs
    &&& forall|i: int, b: int|
        0 <= i < tree.len() && 0 <= b < 2 ==> {
            let next = #[trigger] tree[i]@[b];
            &&& -127 <= next < tree.len()
            &&& next > 0 ==> next > i
        }
}

/// Whether the symbols of a tree lie in `lo..=hi`.
pub open spec fn leaves_in(tree: Seq<[i8; 2]>, lo: int, hi: int) -> bool {
    forall|i: int, b: int|
        0 <= i < tree.len() && 0 <= b < 2 && (#[trigger] tree[i]@[b]) <= 0 ==> lo <= -tree[i]@[b]
            <= hi
}

/// A symbol that is read by a tree is one of its leaves.
pub proof fn law_symbol_is_leaf(s: Rac, tree: Seq<[i8; 2]>, probs: Seq<u8>, lo: int, hi: int)
    requires
        tree_wf(tree, probs.len() as int),
        leaves_in(tree, lo, hi),
    ensures
        lo <= s.symbol(tree, probs) <= hi,
{
    lemma_walk_leaf(s, tree, probs, 0, lo, hi);
}

proof fn lemma_walk_leaf(
    s: Rac,
    tree: Seq<[i8; 2]>,
    probs: Seq<u8>,
    i: int,
    lo: int,
    hi: int,
)
    requires
        tree_wf(tree, probs.len() as int),
        leaves_in(tree, lo, hi),
        0 <= i < tree.len(),
    ensures
        lo <= s.walk(tree, probs, i).0 <= hi,
    decreases tree.len() - i,
{
    let b = if s.bit(probs[i]) {
        1int
    } else {
        0int
    };
    let next = tree[i]@[b];
    if i < next < tree.len() {
        lemma_walk_leaf(s.after(probs[i]), tree, probs, next as int, lo, hi);
    }
}

/// Renormalising keeps the invariant and brings `high` to at least 128.
proof fn lemma_renorm(s: Rac)
    requires
        s.wf(),
    ensures
        s.renorm().wf(),
        128 <= s.renorm().high <= 255,
        s.renorm().data == s.data,
        s.renorm().end_reached == s.end_reached,
{
    lemma_norm_shift(s.high);
}

/// A read keeps the invariant, and the input that it reads from.
pub proof fn law_read_keeps_wf(s: Rac, prob: u8)
    requires
        s.wf(),
    ensures
        s.after(prob).wf(),
        s.after(prob).data == s.data,
        s.after(prob).pos >= s.pos,
        s.after(prob).end_reached == s.end_reached,
{
    lemma_renorm(s);
    lemma_split_point(s.renorm().high, prob);
}

/// Reading a number keeps the invariant.
pub proof fn law_uint_keeps_wf(s: Rac, n: int)
    requires
        s.wf(),
    ensures
        s.after_uint(n).wf(),
        s.after_uint(n).data == s.data,
    decreases n,
{
    if n > 0 {
        law_uint_keeps_wf(s, n - 1);
        law_read_keeps_wf(s.after_uint(n - 1), 128);
    }
}

/// A number of `n` bits is below 2^n.
pub proof fn law_uint_bound(s: Rac, n: int)
    requires
        0 <= n <= 31,
    ensures
        s.uint(n) < 1u32 << (n as u32),
    decreases n,
{
    if n == 0 {
        assert(1u32 << 0u32 == 1u32) by (bit_vector);
    } else {
        law_uint_bound(s, n - 1);
        let v = s.uint(n - 1);
        let b = if s.after_uint(n - 1).bit(128) { 1u32 } else { 0u32 };
        let k = (n - 1) as u32;
        let m = n as u32;
        assert(((v << 1) | b) < 1u32 << m) by (bit_vector)
            requires
                v < 1u32 << k,
                b <= 1,
                k < 31,
                m == k + 1,
        ;
    }
}

/// Boolean arithmetic decoder over a byte slice.
pub struct BoolDecoder<'a> {
    high: u32,
    bits: i32,
    buffer: &'a [u8],
    pos: usize,
    code_word: u32,
    end_reached: u32,
}

impl<'a> View for BoolDecoder<'a> {
    type V = Rac;

    closed spec fn view(&self) -> Rac {
        Rac {
            data: self.buffer@,
            high: self.high,
            bits: self.bits,
            pos: self.pos as int,
            code_word: self.code_word,
            end_reached: self.end_reached,
        }
    }
}

impl<'a> BoolDecoder<'a> {
    /// The width, the code word, the negated number of fresh bits and the position.
    pub fn diag_state(&self) -> (r: (u32, u32, i32, usize))
        ensures
            r.0 == self@.high,
            r.1 == self@.code_word,
            r.2 == self@.bits,
            r.3 == self@.pos,
    {
        (self.high, self.code_word, self.bits, self.pos)
    }

    /// A decoder at the start of `data`, or `None` where `data` is empty.
    pub fn new(data: &'a [u8]) -> (r: Option<Self>)
        ensures
            match r {
                None => data@.len() == 0,
                Some(d) => data@.len() > 0 && d@ == Rac::init(data@) && d@.wf(),
            },
    {
        if data.is_empty() {
            return None;
        }
        let (code_word, pos): (u32, usize) = if data.len() >= 3 {
            (((data[0] as u32) << 16) | ((data[1] as u32) << 8) | (data[2] as u32), 3)
        } else if data.len() == 2 {
            (((data[0] as u32) << 16) | ((data[1] as u32) << 8), 2)
        } else {
            ((data[0] as u32) << 16, 1)
        };
        let d = BoolDecoder { high: 255, bits: -16, buffer: data, pos, code_word, end_reached: 0 };
        Some(d)
    }

    /// Whether the end of the input has been reached, now or at an earlier query.
    pub fn is_end(&mut self) -> (r: bool)
        requires
            old(self)@.wf(),
        ensures
            final(self)@ == old(self)@.after_is_end(),
            final(self)@.wf(),
            r == (old(self)@.at_end() || old(self)@.end_reached > 0),
    {
        if self.pos >= self.buffer.len() && self.bits >= 0 {
            self.end_reached = self.end_reached.saturating_add(1);
        }
        self.end_reached > 0
    }

    /// Renormalises the interval, taking bytes from the input as they are due.
    fn renorm(&mut self)
        requires
            old(self)@.wf(),
        ensures
            final(self)@ == old(self)@.renorm(),
            final(self)@.wf(),
            final(self)@.high >= 128,
    {
        proof {
            lemma_norm_shift(self.high);
            lemma_renorm(self@);
        }
        let shift: u32 = norm_shift(self.high);
        self.high = self.high << shift;
        let mut code_word: u32 = self.code_word << shift;
        self.bits = self.bits.wrapping_add(shift as i32);
        if self.bits >= 0 && self.pos < self.buffer.len() {
            let b0: u32 = self.buffer[self.pos] as u32;
            self.pos = self.pos + 1;
            let mut b1: u32 = 0;
            if self.pos < self.buffer.len() {
                b1 = self.buffer[self.pos] as u32;
                self.pos = self.pos + 1;
            }
            code_word = code_word | (((b0 << 8) | b1) << self.bits as u32);
            self.bits = self.bits - 16;
        }
        self.code_word = code_word;
    }

    /// Reads one bit at the probability `prob` of a zero, out of 256.
    pub fn get_prob(&mut self, prob: u8) -> (r: bool)
        requires
            old(self)@.wf(),
        ensures
            r == old(self)@.bit(prob),
            final(self)@ == old(self)@.after(prob),
            final(self)@.wf(),
            final(self)@.data == old(self)@.data,
    {
        proof {
            law_read_keeps_wf(self@, prob);
            lemma_renorm(self@);
            lemma_split_point(self@.renorm().high, prob);
        }
        self.renorm();
        let low: u32 = 1 + (((self.high - 1) * prob as u32) >> 8);
        let low_shift: u32 = low << 16;
        let bit = self.code_word >= low_shift;
        if bit {
            self.high = self.high - low;
            self.code_word = self.code_word - low_shift;
        } else {
            self.high = low;
        }
        bit
    }

    /// Reads one bit at even odds.
    pub fn get(&mut self) -> (r: bool)
        requires
            old(self)@.wf(),
        ensures
            r == old(self)@.bit(128),
            final(self)@ == old(self)@.after(128),
            final(self)@.wf(),
            final(self)@.data == old(self)@.data,
    {
        self.get_prob(128)
    }

    /// Reads a number of `bits` bits at even odds, the highest first.
    pub fn get_uint(&mut self, bits: u32) -> (r: u32)
        requires
            old(self)@.wf(),
        ensures
            r == old(self)@.uint(bits as int),
            final(self)@ == old(self)@.after_uint(bits as int),
            final(self)@.wf(),
            final(self)@.data == old(self)@.data,
            bits <= 31 ==> r < 1u32 << bits,
    {
        let ghost start = self@;
        let mut value: u32 = 0;
        let mut k: u32 = 0;
        while k < bits
            invariant
                k <= bits,
                self@.wf(),
                self@.data == start.data,
                self@ == start.after_uint(k as int),
                value == start.uint(k as int),
            decreases bits - k,
        {
            let b = self.get();
            value = (value << 1) | (if b { 1u32 } else { 0u32 });
            k += 1;
        }
        proof {
            if bits <= 31 {
                law_uint_bound(start, bits as int);
            }
        }
        value
    }

    /// Reads a symbol by a tree of branches. A branch that is not positive is the
    /// negated symbol; another one is the next node.
    pub fn get_tree(&mut self, tree: &[[i8; 2]], probs: &[u8]) -> (r: i32)
        requires
            old(self)@.wf(),
            tree_wf(tree@, probs@.len() as int),
        ensures
            r == old(self)@.symbol(tree@, probs@),
            final(self)@ == old(self)@.after_symbol(tree@, probs@),
            final(self)@.wf(),
            final(self)@.data == old(self)@.data,
            0 <= r <= 127,
    {
        let ghost start = self@;
        let mut i: usize = 0;
        loop
            invariant
                i < tree@.len(),
                tree_wf(tree@, probs@.len() as int),
                start == old(self)@,
                self@.wf(),
                self@.data == start.data,
                self@.walk(tree@, probs@, i as int) == start.walk(tree@, probs@, 0),
            decreases tree@.len() - i,
        {
            let b = self.get_prob(probs[i]);
            let next: i8 = if b { tree[i][1] } else { tree[i][0] };
            if next <= 0 {
                return -(next as i32);
            }
            i = next as usize;
        }
    }
}

} // verus!
