//! The pieces in which audio is resampled.
use vstd::prelude::*;

use crate::error::{Error, Result};

verus! {

/// How carefully audio is resampled.
#[derive(Debug, Clone, Copy, PartialEq, Eq, Structural)]
pub enum Quality {
    /// Fast, without a filter against aliasing.
    Fast,
    /// A balance.
    Normal,
    /// The best, at the highest cost.
    High,
}

/// Frames that are resampled at a time.
pub const DEFAULT_CHUNK_SIZE: usize = 1024;

/// What a resampler keeps between calls: the rates, the number of interleaved channels, and the
/// samples that do not fill a chunk yet.
pub struct Resampler<T> {
    channels: usize,
    from_rate: u32,
    to_rate: u32,
    /// Frames of a chunk.
    chunk_size: usize,
    pending: Vec<T>,
}

/// The state of a resampler.
pub struct ResamplerView<T> {
    pub channels: nat,
    pub from_rate: u32,
    pub to_rate: u32,
    pub pending: Seq<T>,
}

/// The samples of a chunk.
pub open spec fn chunk_samples(channels: nat) -> nat {
    1024 * channels
}

/// The frames that come of `n` frames, rounded up.
pub open spec fn frames_after(n: int, from_rate: u32, to_rate: u32) -> int {
    (n * to_rate + from_rate - 1) / (from_rate as int)
}

/// Whether rates and channels can be resampled: none is zero, and a chunk can be counted.
pub open spec fn rates_ok(from_rate: u32, to_rate: u32, channels: nat) -> bool {
    from_rate > 0 && to_rate > 0 && channels > 0 && chunk_samples(channels) <= usize::MAX
}

/// The full chunks that a sequence begins with.
pub open spec fn chunks<T>(s: Seq<T>, n: nat) -> Seq<Seq<T>>
    decreases s.len(),
{
    if n == 0 || s.len() < n {
        Seq::empty()
    } else {
        seq![s.take(n as int)] + chunks(s.skip(n as int), n)
    }
}

/// What is left of a sequence behind its full chunks.
pub open spec fn rest<T>(s: Seq<T>, n: nat) -> Seq<T>
    decreases s.len(),
{
    if n == 0 || s.len() < n {
        s
    } else {
        rest(s.skip(n as int), n)
    }
}

/// The samples of chunks, one chunk behind the other.
pub open spec fn joined<T>(c: Seq<Seq<T>>) -> Seq<T>
    decreases c.len(),
{
    if c.len() == 0 {
        Seq::empty()
    } else {
        c[0] + joined(c.skip(1))
    }
}

/// No sample is lost or moved: the chunks of a sequence and what is left make it up, and less than a
/// chunk is left.
pub proof fn law_chunks_cover<T>(s: Seq<T>, n: nat)
    requires
        n > 0,
    ensures
        joined(chunks(s, n)) + rest(s, n) == s,
        rest(s, n).len() < n,
        forall|i: int| 0 <= i < chunks(s, n).len() ==> (#[trigger] chunks(s, n)[i]).len() == n,
    decreases s.len(),
{
    if s.len() < n {
        assert(joined(chunks(s, n)) + rest(s, n) =~= s);
    } else {
        let t = s.skip(n as int);
        law_chunks_cover(t, n);
        let c = chunks(s, n);
        assert(c.skip(1) =~= chunks(t, n));
        assert(joined(c) + rest(s, n) =~= s.take(n as int) + (joined(chunks(t, n)) + rest(t, n)));
        assert(s.take(n as int) + t =~= s);
        assert forall|i: int| 0 <= i < c.len() implies (#[trigger] c[i]).len() == n by {
            if i > 0 {
                assert(c[i] == chunks(t, n)[i - 1]);
            }
        }
    }
}

impl<T: Copy> Resampler<T> {
    /// The state.
    pub closed spec fn state(&self) -> ResamplerView<T> {
        ResamplerView {
            channels: self.channels as nat,
            from_rate: self.from_rate,
            to_rate: self.to_rate,
            pending: self.pending@,
        }
    }

    /// Whether the rates and the channels can be resampled.
    pub closed spec fn wf(&self) -> bool {
        &&& rates_ok(self.from_rate, self.to_rate, self.channels as nat)
        &&& self.chunk_size == 1024
    }

    /// A resampler without samples.
    pub fn new(from_rate: u32, to_rate: u32, channels: usize) -> (r: Result<Resampler<T>>)
        ensures
            match r {
                Ok(s) => {
                    &&& rates_ok(from_rate, to_rate, channels as nat)
                    &&& s.wf()
                    &&& s.state().channels == channels
                    &&& s.state().from_rate == from_rate
                    &&& s.state().to_rate == to_rate
                    &&& s.state().pending.len() == 0
                },
                Err(e) => e == Error::InvalidArgument && !rates_ok(
                    from_rate,
                    to_rate,
                    channels as nat,
                ),
            },
    {
        if from_rate == 0 || to_rate == 0 || channels == 0 || channels > usize::MAX
            / DEFAULT_CHUNK_SIZE {
            return Err(Error::InvalidArgument);
        }
        Ok(
            Resampler {
                channels,
                from_rate,
                to_rate,
                chunk_size: DEFAULT_CHUNK_SIZE,
                pending: Vec::new(),
            },
        )
    }

    /// Takes samples of whole frames.
    pub fn accept(&mut self, input: &[T]) -> (r: Result<()>)
        requires
            old(self).wf(),
        ensures
            final(self).wf(),
            if input@.len() % old(self).state().channels == 0 {
                &&& r == Ok::<(), Error>(())
                &&& final(self).state() == (ResamplerView {
                    pending: old(self).state().pending + input@,
                    ..old(self).state()
                })
            } else {
                &&& r == Err::<(), Error>(Error::InvalidArgument)
                &&& final(self).state() == old(self).state()
            },
    {
        if input.len() % self.channels != 0 {
            return Err(Error::InvalidArgument);
        }
        let ghost before = self.pending@;
        let mut i: usize = 0;
        assert(before + input@.take(0) =~= before);
        while i < input.len()
            invariant
                i <= input@.len(),
                self.wf(),
                self.pending@ == before + input@.take(i as int),
                self.state() == (ResamplerView { pending: self.pending@, ..old(self).state() }),
            decreases input@.len() - i,
        {
            self.pending.push(input[i]);
            i += 1;
            assert(self.pending@ =~= before + input@.take(i as int));
        }
        assert(input@.take(i as int) =~= input@);
        Ok(())
    }

    /// Gives the next full chunk.
    pub fn next_chunk(&mut self) -> (r: Option<Vec<T>>)
        requires
            old(self).wf(),
        ensures
            final(self).wf(),
            ({
                let s = old(self).state();
                let n = chunk_samples(s.channels) as int;
                match r {
                    Some(c) => {
                        &&& s.pending.len() >= n
                        &&& c@ == s.pending.take(n)
                        &&& final(self).state() == (ResamplerView {
                            pending: s.pending.skip(n),
                            ..s
                        })
                    },
                    None => s.pending.len() < n && final(self).state() == s,
                }
            }),
    {
        let n: usize = self.chunk_size * self.channels;
        if self.pending.len() < n {
            return None;
        }
        let ghost before = self.pending@;
        let mut other = self.pending.split_off(n);
        core::mem::swap(&mut self.pending, &mut other);
        assert(self.pending@ =~= before.skip(n as int));
        assert(other@ =~= before.take(n as int));
        Some(other)
    }

    /// Fills what is left up to a chunk with silence, and returns the frames that were left and the
    /// chunk. Nothing where nothing is left.
    pub fn start_flush(&mut self, silence: T) -> (r: Option<(usize, Vec<T>)>)
        requires
            old(self).wf(),
        ensures
            final(self).wf(),
            ({
                let s = old(self).state();
                let n = chunk_samples(s.channels);
                match r {
                    Some((frames, c)) => {
                        &&& s.pending.len() > 0
                        &&& frames == s.pending.len() / s.channels
                        &&& c@ == padded(s.pending, n, silence)
                        &&& final(self).state() == (ResamplerView { pending: c@, ..s })
                    },
                    None => s.pending.len() == 0 && final(self).state() == s,
                }
            }),
    {
        if self.pending.len() == 0 {
            return None;
        }
        let n: usize = self.chunk_size * self.channels;
        let frames: usize = self.pending.len() / self.channels;
        let ghost before = self.pending@;
        if self.pending.len() > n {
            self.pending.truncate(n);
        }
        assert(self.pending@ =~= padded(before, self.pending@.len(), silence));
        while self.pending.len() < n
            invariant
                self.wf(),
                self.pending@.len() <= n,
                self.pending@.len() >= before.len() || self.pending@.len() == n,
                self.pending@ == padded(before, self.pending@.len(), silence),
                self.state() == (ResamplerView { pending: self.pending@, ..old(self).state() }),
            decreases n - self.pending@.len(),
        {
            let ghost k = self.pending@.len();
            self.pending.push(silence);
            assert(self.pending@ =~= padded(before, k + 1, silence));
        }
        let mut chunk: Vec<T> = Vec::new();
        let mut i: usize = 0;
        while i < n
            invariant
                i <= n,
                n == self.pending@.len(),
                chunk@ == self.pending@.take(i as int),
            decreases n - i,
        {
            chunk.push(self.pending[i]);
            i += 1;
            assert(chunk@ =~= self.pending@.take(i as int));
        }
        assert(chunk@ =~= self.pending@);
        Some((frames, chunk))
    }

    /// How many of the samples that came of the last chunk are kept: whole frames, no more than were
    /// announced, and no more than come of the frames that were left.
    pub fn tail_samples(&self, announced: usize, given: usize, frames: usize) -> (r: usize)
        requires
            self.wf(),
        ensures
            r == tail_spec(self.state(), announced as int, given as int, frames as int),
    {
        let whole: usize = given / self.channels;
        let kept: usize = if announced <= whole {
            announced
        } else {
            whole
        };
        proof {
            assert(kept * self.channels <= whole * self.channels <= given) by (nonlinear_arith)
                requires
                    0 <= kept <= whole,
                    self.channels > 0,
                    whole == given / self.channels,
            ;
            assert(0 <= frames * self.to_rate <= 0xffff_ffff_ffff_ffff * 0xffff_ffff)
                by (nonlinear_arith)
                requires
                    0 <= frames <= 0xffff_ffff_ffff_ffff,
                    0 <= self.to_rate <= 0xffff_ffff,
            ;
        }
        let samples: usize = kept * self.channels;
        let expected: u128 = (frames as u128 * self.to_rate as u128 + self.from_rate as u128 - 1)
            / (self.from_rate as u128);
        if kept as u128 > expected {
            proof {
                assert(expected * self.channels <= kept * self.channels) by (nonlinear_arith)
                    requires
                        0 <= expected <= kept,
                        self.channels > 0,
                ;
                assert(!(kept * self.channels <= expected * self.channels)) by (nonlinear_arith)
                    requires
                        expected < kept,
                        self.channels > 0,
                ;
            }
            expected as usize * self.channels
        } else {
            proof {
                assert(kept * self.channels <= expected * self.channels) by (nonlinear_arith)
                    requires
                        kept <= expected,
                        self.channels > 0,
                ;
            }
            samples
        }
    }

    /// Drops the samples that were kept.
    pub fn reset(&mut self)
        requires
            old(self).wf(),
        ensures
            final(self).wf(),
            final(self).state() == (ResamplerView { pending: Seq::empty(), ..old(self).state() }),
    {
        self.pending.clear();
    }

    /// The frames that come of `input_frames` frames, rounded up.
    pub fn output_frames_estimate(&self, input_frames: usize) -> (r: usize)
        requires
            self.wf(),
            input_frames * self.state().to_rate <= u64::MAX,
            frames_after(input_frames as int, self.state().from_rate, self.state().to_rate)
                <= usize::MAX,
        ensures
            r == frames_after(input_frames as int, self.state().from_rate, self.state().to_rate),
    {
        let product: u64 = input_frames as u64 * self.to_rate as u64;
        ((product as u128 + self.from_rate as u128 - 1) / (self.from_rate as u128)) as usize
    }

    /// The rate of the input.
    pub fn from_rate(&self) -> (r: u32)
        ensures
            r == self.state().from_rate,
    {
        self.from_rate
    }

    /// The rate of the output.
    pub fn to_rate(&self) -> (r: u32)
        ensures
            r == self.state().to_rate,
    {
        self.to_rate
    }

    /// The number of channels.
    pub fn channels(&self) -> (r: usize)
        ensures
            r == self.state().channels,
    {
        self.channels
    }
}

/// A sequence cut off at a length, or filled up to it.
pub open spec fn padded<T>(s: Seq<T>, n: nat, silence: T) -> Seq<T> {
    Seq::new(
        n,
        |i: int|
            if i < s.len() {
                s[i]
            } else {
                silence
            },
    )
}

/// How many of the samples that came of the last chunk are kept.
pub open spec fn tail_spec<T>(
    s: ResamplerView<T>,
    announced: int,
    given: int,
    frames: int,
) -> int {
    let c = s.channels as int;
    let whole = given / c;
    let kept = (if announced <= whole {
        announced
    } else {
        whole
    }) * c;
    let expected = frames_after(frames, s.from_rate, s.to_rate) * c;
    if kept > expected {
        expected
    } else {
        kept
    }
}

/// What is kept of the last chunk is whole frames, and no more than was given, announced or expected.
pub proof fn law_tail_is_whole_frames<T>(
    s: ResamplerView<T>,
    announced: int,
    given: int,
    frames: int,
)
    requires
        rates_ok(s.from_rate, s.to_rate, s.channels),
        announced >= 0,
        given >= 0,
        frames >= 0,
    ensures
        tail_spec(s, announced, given, frames) % (s.channels as int) == 0,
        0 <= tail_spec(s, announced, given, frames) <= given,
        tail_spec(s, announced, given, frames) <= announced * s.channels,
        tail_spec(s, announced, given, frames) <= frames_after(frames, s.from_rate, s.to_rate)
            * s.channels,
{
    let c = s.channels as int;
    let whole = given / c;
    let kept = if announced <= whole {
        announced
    } else {
        whole
    };
    let expected = frames_after(frames, s.from_rate, s.to_rate);
    vstd::arithmetic::div_mod::lemma_fundamental_div_mod(given, c);
    vstd::arithmetic::div_mod::lemma_mod_multiples_basic(kept, c);
    vstd::arithmetic::div_mod::lemma_mod_multiples_basic(expected, c);
    assert(0 <= whole && whole * c <= given) by (nonlinear_arith)
        requires
            given >= 0,
            c > 0,
            whole == given / c,
    ;
    assert(0 <= kept * c <= whole * c && kept * c <= announced * c) by (nonlinear_arith)
        requires
            0 <= kept <= whole,
            kept <= announced,
            c > 0,
    ;
    assert(frames * s.to_rate >= 0) by (nonlinear_arith)
        requires
            frames >= 0,
            s.to_rate >= 0,
    ;
    assert(0 <= expected) by (nonlinear_arith)
        requires
            expected == (frames * s.to_rate + s.from_rate - 1) / (s.from_rate as int),
            frames * s.to_rate >= 0,
            s.from_rate > 0,
    ;
    assert(0 <= expected * c) by (nonlinear_arith)
        requires
            0 <= expected,
            c > 0,
    ;
}

} // verus!
