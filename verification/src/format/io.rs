//! Buffered reading and writing.
use vstd::prelude::*;
use vstd::slice::slice_subrange;

use crate::error::{Error, IoKind, Result};
use crate::format::bytes::{be_number, le_number, to_be, to_le};

verus! {

/// A place in a source.
#[derive(Debug, Clone, Copy, PartialEq, Eq, Structural)]
pub enum SeekFrom {
    /// Bytes from the start.
    Start(u64),
    /// Bytes from the end.
    End(i64),
    /// Bytes from the current place.
    Current(i64),
}

/// A call of a source: what it was handed, and what it answered.
pub enum Call {
    /// A read: the buffer as the source left it.
    Read { buf: Seq<u8>, answer: Result<usize> },
    /// A write: the bytes that the source was offered.
    Write { buf: Seq<u8>, answer: Result<usize> },
    /// A request to go to a place.
    Seek { pos: SeekFrom, place: Result<u64> },
    /// A question for the place.
    Tell { place: Result<u64> },
    /// A question for the size.
    Size { size: Result<u64> },
}

/// A source or a sink of bytes. What it does is known by the calls made of it so far: every call is
/// added to them, with what was handed over and what was answered. An implementation that is itself
/// verified says what its calls are, as [`DeadIo`] does.
pub trait IoContext: Send + Sync {
    /// The calls so far, in their order.
    open spec fn calls(&self) -> Seq<Call> {
        Seq::empty()
    }

    /// Whether it can go to another place.
    open spec fn can_seek(&self) -> bool {
        false
    }

    /// Reads bytes into the start of `buf` and says how many.
    fn read(&mut self, buf: &mut [u8]) -> (r: Result<usize>)
        ensures
            final(buf)@.len() == old(buf)@.len(),
            final(self).calls() == old(self).calls().push(Call::Read { buf: final(buf)@, answer: r }),
    ;

    /// Writes bytes from the start of `buf` and says how many.
    fn write(&mut self, buf: &[u8]) -> (r: Result<usize>)
        ensures
            final(self).calls() == old(self).calls().push(Call::Write { buf: buf@, answer: r }),
    ;

    /// Goes to a place, and says where it is then.
    fn seek(&mut self, pos: SeekFrom) -> (r: Result<u64>)
        ensures
            final(self).calls() == old(self).calls().push(Call::Seek { pos, place: r }),
    ;

    /// Says where it is.
    fn tell(&mut self) -> (r: Result<u64>)
        ensures
            final(self).calls() == old(self).calls().push(Call::Tell { place: r }),
    ;

    /// Says how many bytes there are.
    fn size(&mut self) -> (r: Result<u64>)
        ensures
            final(self).calls() == old(self).calls().push(Call::Size { size: r }),
    ;

    /// Says whether it can go to another place.
    fn is_seekable(&self) -> (r: bool)
        ensures
            r == self.can_seek(),
    ;
}

/// The error of a source that was taken away.
fn taken() -> (r: Error)
    ensures
        is_taken(r),
{
    Error::Other("I/O context has been taken".to_owned())
}

/// Whether an error says that a source was taken away.
pub open spec fn is_taken(e: Error) -> bool {
    e matches Error::Other(s) && s@ == "I/O context has been taken"@
}

/// A distance as a source takes it: the low 64 bits as a signed number.
pub open spec fn seek_distance(n: u64) -> i64 {
    if n < 0x8000_0000_0000_0000 {
        n as i64
    } else {
        (n - 0x1_0000_0000_0000_0000) as i64
    }
}

fn signed_64(n: u64) -> (r: i64)
    ensures
        r == seek_distance(n),
{
    if n < 0x8000_0000_0000_0000 {
        n as i64
    } else {
        (n as i128 - 0x1_0000_0000_0000_0000) as i64
    }
}

/// The low 32 bits of a number as a signed number.
pub open spec fn signed_32(n: int) -> int {
    if n < 0x8000_0000 {
        n
    } else {
        n - 0x1_0000_0000
    }
}

/// Bytes of each of the two buffers.
pub const DEFAULT_BUF_SIZE: usize = 32768;

/// What is left where a source was taken away: every operation on it fails.
pub struct DeadIo {
    log: Ghost<Seq<Call>>,
}

impl DeadIo {
    /// One that has not been called.
    fn new() -> (r: DeadIo)
        ensures
            r.calls() == Seq::<Call>::empty(),
    {
        DeadIo { log: Ghost(Seq::empty()) }
    }
}

impl IoContext for DeadIo {
    closed spec fn calls(&self) -> Seq<Call> {
        self.log@
    }

    open spec fn can_seek(&self) -> bool {
        false
    }

    fn read(&mut self, buf: &mut [u8]) -> (r: Result<usize>)
        ensures
            final(buf)@ == old(buf)@,
            r is Err && is_taken(r->Err_0),
    {
        let r: Result<usize> = Err(taken());
        self.log = Ghost(self.log@.push(Call::Read { buf: buf@, answer: r }));
        r
    }

    fn write(&mut self, buf: &[u8]) -> (r: Result<usize>)
        ensures
            r is Err && is_taken(r->Err_0),
    {
        let r: Result<usize> = Err(taken());
        self.log = Ghost(self.log@.push(Call::Write { buf: buf@, answer: r }));
        r
    }

    fn seek(&mut self, pos: SeekFrom) -> (r: Result<u64>)
        ensures
            r is Err && is_taken(r->Err_0),
    {
        let r: Result<u64> = Err(taken());
        self.log = Ghost(self.log@.push(Call::Seek { pos, place: r }));
        r
    }

    fn tell(&mut self) -> (r: Result<u64>)
        ensures
            r is Err && is_taken(r->Err_0),
    {
        let r: Result<u64> = Err(taken());
        self.log = Ghost(self.log@.push(Call::Tell { place: r }));
        r
    }

    fn size(&mut self) -> (r: Result<u64>)
        ensures
            r is Err && is_taken(r->Err_0),
    {
        let r: Result<u64> = Err(taken());
        self.log = Ghost(self.log@.push(Call::Size { size: r }));
        r
    }

    fn is_seekable(&self) -> (r: bool) {
        false
    }
}

/// A source, or what is left of one that was taken away.
pub enum Source<T> {
    Live(T),
    Dead(DeadIo),
}

impl<T: IoContext> IoContext for Source<T> {
    open spec fn calls(&self) -> Seq<Call> {
        match self {
            Source::Live(t) => t.calls(),
            Source::Dead(d) => d.calls(),
        }
    }

    open spec fn can_seek(&self) -> bool {
        match self {
            Source::Live(t) => t.can_seek(),
            Source::Dead(d) => d.can_seek(),
        }
    }

    fn read(&mut self, buf: &mut [u8]) -> (r: Result<usize>)
        ensures
            (*final(self)) is Live == (*old(self)) is Live,
            (*old(self)) is Dead ==> r is Err && is_taken(r->Err_0),
    {
        match self {
            Source::Live(t) => t.read(buf),
            Source::Dead(d) => d.read(buf),
        }
    }

    fn write(&mut self, buf: &[u8]) -> (r: Result<usize>)
        ensures
            (*final(self)) is Live == (*old(self)) is Live,
            (*old(self)) is Dead ==> r is Err && is_taken(r->Err_0),
    {
        match self {
            Source::Live(t) => t.write(buf),
            Source::Dead(d) => d.write(buf),
        }
    }

    fn seek(&mut self, pos: SeekFrom) -> (r: Result<u64>)
        ensures
            (*final(self)) is Live == (*old(self)) is Live,
            (*old(self)) is Dead ==> r is Err && is_taken(r->Err_0),
    {
        match self {
            Source::Live(t) => t.seek(pos),
            Source::Dead(d) => d.seek(pos),
        }
    }

    fn tell(&mut self) -> (r: Result<u64>)
        ensures
            (*final(self)) is Live == (*old(self)) is Live,
            (*old(self)) is Dead ==> r is Err && is_taken(r->Err_0),
    {
        match self {
            Source::Live(t) => t.tell(),
            Source::Dead(d) => d.tell(),
        }
    }

    fn size(&mut self) -> (r: Result<u64>)
        ensures
            (*final(self)) is Live == (*old(self)) is Live,
            (*old(self)) is Dead ==> r is Err && is_taken(r->Err_0),
    {
        match self {
            Source::Live(t) => t.size(),
            Source::Dead(d) => d.size(),
        }
    }

    fn is_seekable(&self) -> (r: bool) {
        match self {
            Source::Live(t) => t.is_seekable(),
            Source::Dead(d) => d.is_seekable(),
        }
    }
}

/// What a read says: a source that claims more bytes than the buffer holds is at fault.
pub open spec fn read_answer(c: Call) -> Result<usize> {
    match c {
        Call::Read { buf, answer: Ok(n) } => if n <= buf.len() {
            Ok(n)
        } else {
            Err(Error::Bug)
        },
        Call::Read { buf, answer: Err(e) } => Err(e),
        _ => Err(Error::Bug),
    }
}

/// What a write says: no more than everything that was offered is taken.
pub open spec fn write_answer(c: Call) -> Result<usize> {
    match c {
        Call::Write { buf, answer: Ok(n) } => if n <= buf.len() {
            Ok(n)
        } else {
            Ok(buf.len() as usize)
        },
        Call::Write { buf, answer: Err(e) } => Err(e),
        _ => Err(Error::Bug),
    }
}

/// The bytes that a source gives in a call.
pub open spec fn given(c: Call) -> Seq<u8> {
    match c {
        Call::Read { buf, answer: Ok(n) } => if n <= buf.len() {
            buf.take(n as int)
        } else {
            Seq::empty()
        },
        _ => Seq::empty(),
    }
}

/// The bytes that a source takes in a call.
pub open spec fn taken_in(c: Call) -> Seq<u8> {
    match c {
        Call::Write { buf, answer: Ok(n) } => if n <= buf.len() {
            buf.take(n as int)
        } else {
            buf
        },
        _ => Seq::empty(),
    }
}

/// All the bytes that a source has given.
pub open spec fn gave(calls: Seq<Call>) -> Seq<u8>
    decreases calls.len(),
{
    if calls.len() == 0 {
        Seq::empty()
    } else {
        gave(calls.drop_last()) + given(calls.last())
    }
}

/// All the bytes that a source has taken.
pub open spec fn took(calls: Seq<Call>) -> Seq<u8>
    decreases calls.len(),
{
    if calls.len() == 0 {
        Seq::empty()
    } else {
        took(calls.drop_last()) + taken_in(calls.last())
    }
}

/// Whether calls go on where others end.
pub open spec fn follows(a: Seq<Call>, b: Seq<Call>) -> bool {
    a.len() <= b.len() && b.take(a.len() as int) == a
}

/// Whether the calls from `from` on are reads, each of which gave bytes.
pub open spec fn all_gave(calls: Seq<Call>, from: int) -> bool {
    forall|i: int|
        from <= i < calls.len() ==> #[trigger] calls[i] is Read && read_answer(calls[i]) is Ok
            && given(calls[i]).len() > 0
}

/// Whether the calls from `from` on are writes, in each of which bytes were taken.
pub open spec fn all_took(calls: Seq<Call>, from: int) -> bool {
    forall|i: int|
        from <= i < calls.len() ==> #[trigger] calls[i] is Write && write_answer(calls[i]) is Ok
            && taken_in(calls[i]).len() > 0
}

/// Whether the call number `i` is a write that offers, of the bytes `w` that were to be written from the
/// first on, the next ones that were not taken yet.
pub open spec fn offers(calls: Seq<Call>, i: int, w: Seq<u8>) -> bool {
    let k = took(calls.take(i)).len() as int;
    calls[i] matches Call::Write { buf, answer } && 0 < buf.len() <= w.len() - k && buf == w.subrange(
        k,
        k + buf.len(),
    )
}

/// Whether the calls from `from` on are writes that offer the bytes `w` one behind the other.
pub open spec fn all_offer(calls: Seq<Call>, from: int, w: Seq<u8>) -> bool {
    forall|i: int| from <= i < calls.len() ==> #[trigger] offers(calls, i, w)
}

/// What one more call adds.
proof fn lemma_one_more(calls: Seq<Call>, c: Call)
    ensures
        gave(calls.push(c)) == gave(calls) + given(c),
        took(calls.push(c)) == took(calls) + taken_in(c),
        calls.push(c).drop_last() == calls,
        calls.push(c).last() == c,
        follows(calls, calls.push(c)),
{
    assert(calls.push(c).drop_last() =~= calls);
    assert(calls.push(c).take(calls.len() as int) =~= calls);
}

/// Calls that go on only add to what was given and taken.
pub proof fn lemma_follows(a: Seq<Call>, b: Seq<Call>)
    requires
        follows(a, b),
    ensures
        gave(a).len() <= gave(b).len(),
        gave(b).take(gave(a).len() as int) == gave(a),
        took(a).len() <= took(b).len(),
        took(b).take(took(a).len() as int) == took(a),
        forall|i: int| 0 <= i < a.len() ==> #[trigger] b[i] == a[i],
    decreases b.len() - a.len(),
{
    assert forall|i: int| 0 <= i < a.len() implies #[trigger] b[i] == a[i] by {
        assert(b.take(a.len() as int)[i] == a[i]);
    }
    if a.len() == b.len() {
        assert(b.take(a.len() as int) =~= b);
        assert(gave(b).take(gave(a).len() as int) =~= gave(a));
        assert(took(b).take(took(a).len() as int) =~= took(a));
    } else {
        let c = b.drop_last();
        assert(c.take(a.len() as int) =~= b.take(a.len() as int));
        lemma_follows(a, c);
        assert(gave(b).take(gave(a).len() as int) =~= gave(c).take(gave(a).len() as int));
        assert(took(b).take(took(a).len() as int) =~= took(c).take(took(a).len() as int));
    }
}

/// Calls that go on where calls go on that go on where others end.
proof fn lemma_follows_on(a: Seq<Call>, b: Seq<Call>, c: Seq<Call>)
    requires
        follows(a, b),
        follows(b, c),
    ensures
        follows(a, c),
{
    assert(c.take(a.len() as int) =~= c.take(b.len() as int).take(a.len() as int));
}

/// A source with a buffer for reading and one for writing.
pub struct BufferedIo<T> {
    /// The source. Once it is taken away, every operation fails, and nothing is buffered.
    inner: Source<T>,
    read_buf: Vec<u8>,
    read_pos: usize,
    read_len: usize,
    write_buf: Vec<u8>,
    write_pos: usize,
}

/// What has gone through a buffered source.
pub struct Traffic {
    /// Bytes that the source has given out.
    pub delivered: Seq<u8>,
    /// Of these, the bytes that were handed on.
    pub consumed: Seq<u8>,
    /// Bytes that the source has taken.
    pub accepted: Seq<u8>,
    /// Bytes that wait to be written.
    pub waiting: Seq<u8>,
    /// Bytes that are buffered for reading.
    pub buffered: Seq<u8>,
}

/// Whether bytes were handed on between two states, with nothing else changed but what was read
/// from the source.
pub open spec fn only_read(a: Traffic, b: Traffic) -> bool {
    &&& b.accepted == a.accepted
    &&& b.waiting == a.waiting
    &&& b.consumed.len() >= a.consumed.len()
    &&& b.consumed.take(a.consumed.len() as int) == a.consumed
}

/// The bytes that were handed on between two states.
pub open spec fn handed_on(a: Traffic, b: Traffic) -> Seq<u8> {
    b.consumed.skip(a.consumed.len() as int)
}

/// Whether the source was asked for bytes only as long as fewer than `n` were there to be handed on.
pub open spec fn asked_as_needed<T: IoContext>(a: BufferedIo<T>, b: BufferedIo<T>, n: int) -> bool {
    &&& follows(a.calls(), b.calls())
    &&& a.traffic().buffered.len() >= n ==> b.calls() == a.calls()
    &&& b.calls().len() > a.calls().len() ==> gave(b.calls().drop_last()).len()
        < a.traffic().consumed.len() + n
}

/// Whether exactly the next `n` bytes were handed on, after reads of the source that each gave some.
pub open spec fn read_whole<T: IoContext>(a: BufferedIo<T>, b: BufferedIo<T>, n: int) -> bool {
    &&& only_read(a.traffic(), b.traffic())
    &&& handed_on(a.traffic(), b.traffic()).len() == n
    &&& asked_as_needed(a, b, n)
    &&& all_gave(b.calls(), a.calls().len() as int)
}

/// Whether fewer than `n` bytes were handed on, all that there were: the last read of the source gave
/// nothing, or failed, with the answer `last`, and the ones before it gave some.
pub open spec fn read_cut<T: IoContext>(
    a: BufferedIo<T>,
    b: BufferedIo<T>,
    n: int,
    last: Result<usize>,
) -> bool {
    &&& only_read(a.traffic(), b.traffic())
    &&& handed_on(a.traffic(), b.traffic()).len() < n
    &&& b.traffic().buffered.len() == 0
    &&& asked_as_needed(a, b, n)
    &&& b.calls().len() > a.calls().len()
    &&& all_gave(b.calls().drop_last(), a.calls().len() as int)
    &&& b.calls().last() is Read
    &&& read_answer(b.calls().last()) == last
}

/// Whether `n` bytes could not be handed on, for which the error `e` is given: the source failed with
/// it, or had no more.
pub open spec fn read_failed<T: IoContext>(
    a: BufferedIo<T>,
    b: BufferedIo<T>,
    n: int,
    e: Error,
) -> bool {
    ||| read_cut(a, b, n, Err(e))
    ||| read_cut(a, b, n, Ok(0)) && e == Error::Eof
}

/// Whether the next bytes, up to `n`, were read: all of them, unless the source had no more.
pub open spec fn read_some<T: IoContext>(
    a: BufferedIo<T>,
    b: BufferedIo<T>,
    n: int,
    r: Result<Vec<u8>>,
) -> bool {
    match r {
        Ok(v) => {
            &&& v@ == handed_on(a.traffic(), b.traffic())
            &&& read_whole(a, b, n) || read_cut(a, b, n, Ok(0))
        },
        Err(e) => read_cut(a, b, n, Err(e)),
    }
}

/// Whether an error is due to a write: the source failed with it, or took nothing.
pub open spec fn due_to_write(c: Call, e: Error) -> bool {
    c is Write && match write_answer(c) {
        Ok(n) => n == 0 && e == Error::Io(IoKind::WriteZero),
        Err(x) => e == x,
    }
}

/// Whether what waited to be written was handed to the source: the states before and after that, and
/// its result. The source is offered what it has not taken yet, until it has taken everything, fails,
/// or takes nothing; then everything goes on waiting.
pub open spec fn flushed<T: IoContext>(a: BufferedIo<T>, b: BufferedIo<T>, r: Result<()>) -> bool {
    let t0 = a.traffic();
    let t1 = b.traffic();
    let from = a.calls().len() as int;
    &&& only_wrote(t0, t1)
    &&& follows(a.calls(), b.calls())
    &&& all_offer(b.calls(), from, written(t0))
    &&& t0.waiting.len() == 0 ==> r is Ok && b.calls() == a.calls()
    &&& match r {
        Ok(_) => t1.waiting.len() == 0 && t1.accepted == written(t0) && all_took(b.calls(), from),
        Err(e) => {
            &&& t1.waiting == t0.waiting
            &&& some_taken(t0, t1)
            &&& b.calls().len() > from
            &&& all_took(b.calls().drop_last(), from)
            &&& due_to_write(b.calls().last(), e)
        },
    }
}

/// Whether bytes were handed over for writing, with a full buffer handed to the source on the way: up
/// to the end, or, where the source failed or took nothing, up to the point where the buffer was full.
pub open spec fn wrote<T: IoContext>(
    a: BufferedIo<T>,
    b: BufferedIo<T>,
    data: Seq<u8>,
    r: Result<()>,
) -> bool {
    let t0 = a.traffic();
    let t1 = b.traffic();
    let from = a.calls().len() as int;
    &&& only_wrote(t0, t1)
    &&& follows(a.calls(), b.calls())
    &&& all_offer(b.calls(), from, written(t0) + data)
    &&& t0.waiting.len() + data.len() < 32768 ==> r is Ok && b.calls() == a.calls()
    &&& match r {
        Ok(_) => written(t1) == written(t0) + data && all_took(b.calls(), from),
        Err(e) => {
            &&& b.calls().len() > from
            &&& all_took(b.calls().drop_last(), from)
            &&& due_to_write(b.calls().last(), e)
            &&& exists|full: Traffic, k: int| stuck_at(t0, full, t1, data, k)
        },
    }
}

/// Whether, with the first `k` of the bytes handed over, the buffer was full, and the source took some
/// of it but not all: then it all goes on waiting.
pub open spec fn stuck_at(t0: Traffic, full: Traffic, t1: Traffic, data: Seq<u8>, k: int) -> bool {
    &&& 0 <= k <= data.len()
    &&& only_wrote(t0, full)
    &&& written(full) == written(t0) + data.take(k)
    &&& full.waiting.len() == 32768
    &&& t1.waiting == full.waiting
    &&& some_taken(full, t1)
}

/// Whether only bytes to be written were handed over.
pub open spec fn only_wrote(a: Traffic, b: Traffic) -> bool {
    &&& b.delivered == a.delivered
    &&& b.consumed == a.consumed
    &&& b.buffered == a.buffered
}

/// All the bytes handed over for writing so far.
pub open spec fn written(a: Traffic) -> Seq<u8> {
    a.accepted + a.waiting
}

impl<T: IoContext> BufferedIo<T> {
    /// The source, or what is left of it.
    pub closed spec fn source(&self) -> Source<T> {
        self.inner
    }

    /// The bytes that are buffered for reading.
    pub closed spec fn buffered(&self) -> Seq<u8> {
        self.read_buf@.subrange(self.read_pos as int, self.read_len as int)
    }

    /// The bytes that wait to be written.
    pub closed spec fn waiting(&self) -> Seq<u8> {
        self.write_buf@.take(self.write_pos as int)
    }

    /// Whether the buffers are consistent with the source.
    pub closed spec fn wf(&self) -> bool {
        let d = gave(self.calls());
        &&& self.read_buf@.len() == 32768
        &&& self.write_buf@.len() == 32768
        &&& self.read_pos <= self.read_len <= 32768
        &&& self.write_pos <= 32768
        &&& self.read_len <= d.len()
        &&& d.skip(d.len() - self.read_len) == self.read_buf@.take(self.read_len as int)
        &&& self.inner is Dead ==> self.read_len == 0 && self.write_pos == 0
    }

    /// The calls of the source so far.
    pub open spec fn calls(&self) -> Seq<Call> {
        self.source().calls()
    }

    /// What has gone through.
    pub open spec fn traffic(&self) -> Traffic {
        let d = gave(self.calls());
        Traffic {
            delivered: d,
            consumed: d.take(d.len() - self.buffered().len()),
            accepted: took(self.calls()),
            waiting: self.waiting(),
            buffered: self.buffered(),
        }
    }

    /// Whether the source has not been taken away.
    pub open spec fn is_live(&self) -> bool {
        self.source() is Live
    }

    /// Asks the source to read into the buffer. A source that claims more bytes than fit is at fault.
    fn pull(&mut self) -> (r: Result<usize>)
        requires
            old(self).read_buf@.len() == 32768,
        ensures
            final(self).read_buf@.len() == 32768,
            final(self).inner is Live == old(self).inner is Live,
            final(self).read_pos == old(self).read_pos,
            final(self).read_len == old(self).read_len,
            final(self).write_buf == old(self).write_buf,
            final(self).write_pos == old(self).write_pos,
            one_more(old(self).calls(), final(self).calls()),
            final(self).calls().last() is Read,
            read_answer(final(self).calls().last()) == r,
            r matches Ok(n) ==> n <= 32768,
            given(final(self).calls().last()) == (match r {
                Ok(n) => final(self).read_buf@.take(n as int),
                Err(_) => Seq::empty(),
            }),
    {
        let ghost c0 = self.calls();
        let r = self.inner.read(self.read_buf.as_mut_slice());
        proof {
            lemma_one_more(c0, Call::Read { buf: self.read_buf@, answer: r });
        }
        match r {
            Ok(n) => if n > DEFAULT_BUF_SIZE {
                Err(Error::Bug)
            } else {
                Ok(n)
            },
            Err(e) => Err(e),
        }
    }

    /// Offers the source the waiting bytes from `from` on.
    fn push(&mut self, from: usize) -> (r: Result<usize>)
        requires
            old(self).wf(),
            from < old(self).write_pos,
        ensures
            final(self).wf(),
            only_wrote(old(self).traffic(), final(self).traffic()),
            final(self).waiting() == old(self).waiting(),
            final(self).write_pos == old(self).write_pos,
            final(self).is_live() == old(self).is_live(),
            one_more(old(self).calls(), final(self).calls()),
            final(self).calls().last() matches Call::Write { buf, answer } && buf
                == old(self).waiting().skip(from as int),
            write_answer(final(self).calls().last()) == r,
            match r {
                Ok(n) => n <= old(self).write_pos - from && taken_in(final(self).calls().last())
                    == old(self).waiting().subrange(from as int, from + n),
                Err(e) => taken_in(final(self).calls().last()).len() == 0,
            },
    {
        let ghost c0 = self.calls();
        let end: usize = self.write_pos;
        let part = slice_subrange(self.write_buf.as_slice(), from, end);
        let ghost offered = part@;
        let r = self.inner.write(part);
        proof {
            let c = Call::Write { buf: offered, answer: r };
            lemma_one_more(c0, c);
            assert(offered =~= self.waiting().skip(from as int));
            assert(gave(self.calls()) =~= gave(c0));
            assert(taken_in(c) =~= (match write_answer(c) {
                Ok(n) => self.waiting().subrange(from as int, from + n),
                Err(_) => Seq::empty(),
            }));
        }
        match r {
            Ok(m) => if m <= end - from {
                Ok(m)
            } else {
                Ok(end - from)
            },
            Err(e) => Err(e),
        }
    }

    /// Asks the source to go to a place.
    fn go(&mut self, pos: SeekFrom) -> (r: Result<u64>)
        requires
            old(self).wf(),
        ensures
            final(self).wf(),
            final(self).traffic() == old(self).traffic(),
            final(self).is_live() == old(self).is_live(),
            final(self).calls() == old(self).calls().push(Call::Seek { pos, place: r }),
    {
        let ghost c0 = self.calls();
        let r = self.inner.seek(pos);
        proof {
            lemma_one_more(c0, Call::Seek { pos, place: r });
            assert(gave(self.calls()) =~= gave(c0));
            assert(took(self.calls()) =~= took(c0));
        }
        r
    }

    /// What is buffered was given and not handed on yet.
    pub proof fn lemma_traffic(&self)
        requires
            self.wf(),
        ensures
            self.traffic().consumed.len() + self.traffic().buffered.len()
                == self.traffic().delivered.len(),
            self.traffic().delivered == self.traffic().consumed + self.traffic().buffered,
    {
        let d = gave(self.calls());
        let n = self.read_len as int;
        assert forall|i: int| d.len() - n <= i < d.len() implies d[i] == self.read_buf@[i - (d.len()
            - n)] by {
            assert(d.skip(d.len() - n)[i - (d.len() - n)] == self.read_buf@.take(n)[i - (d.len()
                - n)]);
        }
        assert(d =~= self.traffic().consumed + self.buffered());
    }

    /// A source with empty buffers.
    pub fn new(inner: T) -> (r: BufferedIo<T>)
        ensures
            r.wf(),
            r.source() == Source::Live(inner),
            r.buffered().len() == 0,
            r.waiting().len() == 0,
    {
        let r = BufferedIo {
            inner: Source::Live(inner),
            read_buf: vec![0u8; DEFAULT_BUF_SIZE],
            read_pos: 0,
            read_len: 0,
            write_buf: vec![0u8; DEFAULT_BUF_SIZE],
            write_pos: 0,
        };
        proof {
            let d = gave(r.calls());
            assert(d.skip(d.len() as int) =~= r.read_buf@.take(0));
        }
        r
    }

    /// Takes the source away, or, where it has been taken already, what is left of it. What is buffered
    /// is dropped.
    pub fn take_inner(&mut self) -> (r: Source<T>)
        requires
            old(self).wf(),
        ensures
            final(self).wf(),
            r == old(self).source(),
            !final(self).is_live(),
            final(self).calls().len() == 0,
            final(self).buffered().len() == 0,
            final(self).waiting().len() == 0,
    {
        self.read_pos = 0;
        self.read_len = 0;
        self.write_pos = 0;
        let mut other: Source<T> = Source::Dead(DeadIo::new());
        core::mem::swap(&mut self.inner, &mut other);
        proof {
            let d = gave(self.calls());
            assert(d.skip(d.len() as int) =~= self.read_buf@.take(0));
        }
        other
    }

    fn is_taken_away(&self) -> (r: bool)
        ensures
            r == !self.is_live(),
    {
        match &self.inner {
            Source::Live(_) => false,
            Source::Dead(_) => true,
        }
    }

    fn fill_buffer(&mut self) -> (r: Result<()>)
        requires
            old(self).wf(),
            old(self).is_live(),
            old(self).read_pos == old(self).read_len,
        ensures
            final(self).wf(),
            final(self).is_live(),
            only_read(old(self).traffic(), final(self).traffic()),
            final(self).traffic().consumed == old(self).traffic().consumed,
            one_more(old(self).calls(), final(self).calls()),
            final(self).calls().last() is Read,
            match r {
                Ok(_) => final(self).read_pos == 0 && read_answer(final(self).calls().last()) == Ok::<
                    usize,
                    Error,
                >(final(self).read_len) && given(final(self).calls().last()).len()
                    == final(self).read_len,
                Err(e) => final(self).read_pos == final(self).read_len && read_answer(
                    final(self).calls().last(),
                ) == Err::<usize, Error>(e),
            },
    {
        let ghost c0 = self.calls();
        let ghost d0 = gave(c0);
        let ghost t0 = self.traffic();
        assert(t0.consumed =~= d0);
        self.read_pos = 0;
        self.read_len = 0;
        let r = self.pull();
        let ghost c = self.calls().last();
        proof {
            assert(self.calls() =~= c0.push(c));
            lemma_one_more(c0, c);
            assert(took(self.calls()) =~= took(c0));
            assert(t0.consumed.take(t0.consumed.len() as int) =~= t0.consumed);
        }
        match r {
            Err(e) => {
                proof {
                    let d = gave(self.calls());
                    assert(d =~= d0);
                    assert(d0.skip(d0.len() as int) =~= self.read_buf@.take(0));
                    assert(self.traffic().consumed =~= d0);
                }
                Err(e)
            },
            Ok(n) => {
                self.read_len = n;
                proof {
                    let d = gave(self.calls());
                    assert(d.skip(d.len() - n) =~= self.read_buf@.take(n as int));
                    assert(self.traffic().consumed =~= d0);
                }
                Ok(())
            },
        }
    }

    /// Hands the next buffered bytes on, up to `want`.
    fn take_buffered(&mut self, out: &mut Vec<u8>, want: usize)
        requires
            old(self).wf(),
            old(self).read_pos < old(self).read_len,
            want >= 1,
        ensures
            final(self).wf(),
            ({
                let n = if want <= old(self).read_len - old(self).read_pos {
                    want as int
                } else {
                    old(self).read_len - old(self).read_pos
                };
                &&& final(self).read_pos == old(self).read_pos + n
                &&& final(self).read_len == old(self).read_len
                &&& final(self).source() == old(self).source()
                &&& final(out)@ == old(out)@ + old(self).traffic().buffered.take(n)
                &&& final(self).traffic() == (Traffic {
                    consumed: old(self).traffic().consumed + old(self).traffic().buffered.take(n),
                    buffered: old(self).traffic().buffered.skip(n),
                    ..old(self).traffic()
                })
            }),
    {
        let available: usize = self.read_len - self.read_pos;
        let n: usize = if want <= available {
            want
        } else {
            available
        };
        let ghost t0 = self.traffic();
        let start: usize = self.read_pos;
        proof {
            self.lemma_traffic();
        }
        let part = slice_subrange(self.read_buf.as_slice(), start, start + n);
        out.extend_from_slice(part);
        assert(part@ =~= t0.buffered.take(n as int));
        self.read_pos = start + n;
        proof {
            assert(self.traffic().buffered =~= t0.buffered.skip(n as int));
            assert(self.traffic().consumed =~= t0.consumed + t0.buffered.take(n as int));
        }
    }

    /// Appends up to `len` bytes to an empty vector: all of them, unless the source fails or gives no
    /// more.
    fn read_into(&mut self, out: &mut Vec<u8>, len: usize) -> (r: Result<()>)
        requires
            old(self).wf(),
            old(self).is_live(),
            old(out)@.len() == 0,
        ensures
            final(self).wf(),
            final(self).is_live(),
            final(out)@ == handed_on(old(self).traffic(), final(self).traffic()),
            final(out)@.len() <= len,
            match r {
                Ok(_) => if final(out)@.len() == len {
                    read_whole(*old(self), *final(self), len as int)
                } else {
                    read_cut(*old(self), *final(self), len as int, Ok(0))
                },
                Err(e) => read_cut(*old(self), *final(self), len as int, Err(e)),
            },
    {
        let ghost t0 = self.traffic();
        let ghost c0 = self.calls();
        proof {
            assert(t0.consumed.take(t0.consumed.len() as int) =~= t0.consumed);
            assert(handed_on(t0, t0) =~= out@);
            assert(c0.take(c0.len() as int) =~= c0);
        }
        while out.len() < len
            invariant
                self.wf(),
                self.is_live(),
                t0 == old(self).traffic(),
                c0 == old(self).calls(),
                out@.len() <= len,
                only_read(t0, self.traffic()),
                out@ == handed_on(t0, self.traffic()),
                asked_as_needed(*old(self), *self, len as int),
                all_gave(self.calls(), c0.len() as int),
                t0.buffered.len() >= len ==> out@.len() + self.traffic().buffered.len()
                    == t0.buffered.len(),
            decreases len - out@.len(),
        {
            let ghost t1 = self.traffic();
            let ghost c1 = self.calls();
            proof {
                self.lemma_traffic();
            }
            if self.read_pos >= self.read_len {
                assert(t1.buffered.len() == 0);
                let r = self.fill_buffer();
                proof {
                    let c2 = self.calls();
                    assert(c2.take(c0.len() as int) =~= c1.take(c0.len() as int));
                    assert(gave(c2.drop_last()).len() == t1.consumed.len());
                    assert(all_gave(c2.drop_last(), c0.len() as int));
                }
                match r {
                    Err(e) => {
                        return Err(e);
                    },
                    Ok(()) => {},
                }
                if self.read_len == 0 {
                    return Ok(());
                }
                assert(all_gave(self.calls(), c0.len() as int)) by {
                    let c2 = self.calls();
                    assert forall|i: int| c0.len() <= i < c2.len() implies #[trigger] c2[i] is Read
                        && read_answer(c2[i]) is Ok && given(c2[i]).len() > 0 by {
                        if i < c1.len() {
                            assert(c2.drop_last()[i] == c1[i]);
                        }
                    }
                }
            }
            let ghost t2 = self.traffic();
            let want: usize = len - out.len();
            self.take_buffered(out, want);
            proof {
                let t3 = self.traffic();
                assert(t3.consumed.take(t0.consumed.len() as int) =~= t2.consumed.take(
                    t0.consumed.len() as int,
                ));
                assert(handed_on(t0, t3) =~= out@);
            }
        }
        Ok(())
    }

    /// Reads up to `len` bytes: all of them, unless the source gives no more.
    pub fn read_up_to(&mut self, len: usize) -> (r: Result<Vec<u8>>)
        requires
            old(self).wf(),
        ensures
            final(self).wf(),
            unless_taken(*old(self), *final(self), r),
            old(self).is_live() ==> read_some(*old(self), *final(self), len as int, r),
    {
        if self.is_taken_away() {
            return Err(taken());
        }
        let mut out: Vec<u8> = Vec::new();
        match self.read_into(&mut out, len) {
            Err(e) => Err(e),
            Ok(()) => Ok(out),
        }
    }

    /// Reads exactly `len` bytes. Where the source gives no more before that, its end is reported.
    pub fn read_bytes(&mut self, len: usize) -> (r: Result<Vec<u8>>)
        requires
            old(self).wf(),
        ensures
            final(self).wf(),
            unless_taken(*old(self), *final(self), r),
            old(self).is_live() ==> match r {
                Ok(v) => read_whole(*old(self), *final(self), len as int) && v@ == handed_on(
                    old(self).traffic(),
                    final(self).traffic(),
                ),
                Err(e) => read_failed(*old(self), *final(self), len as int, e),
            },
    {
        match self.read_up_to(len) {
            Err(e) => Err(e),
            Ok(v) => if v.len() < len {
                Err(Error::Eof)
            } else {
                Ok(v)
            },
        }
    }

    /// Fills `buf` with the next bytes. Where the source fails or gives no more before that, the bytes
    /// that it gave stand at the start of `buf`.
    pub fn read_exact(&mut self, buf: &mut [u8]) -> (r: Result<()>)
        requires
            old(self).wf(),
        ensures
            final(self).wf(),
            unless_taken(*old(self), *final(self), r),
            !old(self).is_live() ==> final(buf)@ == old(buf)@,
            old(self).is_live() ==> ({
                let got = handed_on(old(self).traffic(), final(self).traffic());
                let len = old(buf)@.len() as int;
                &&& final(buf)@ == got + old(buf)@.skip(got.len() as int)
                &&& match r {
                    Ok(_) => read_whole(*old(self), *final(self), len),
                    Err(e) => read_failed(*old(self), *final(self), len, e),
                }
            }),
    {
        if self.is_taken_away() {
            return Err(taken());
        }
        let len: usize = buf.len();
        let mut got: Vec<u8> = Vec::new();
        let r = self.read_into(&mut got, len);
        let mut i: usize = 0;
        while i < got.len()
            invariant
                i <= got@.len() <= len,
                buf@.len() == len,
                old(buf)@.len() == len,
                forall|j: int| 0 <= j < i ==> #[trigger] buf@[j] == got@[j],
                forall|j: int| i <= j < len ==> #[trigger] buf@[j] == old(buf)@[j],
            decreases got@.len() - i,
        {
            buf[i] = got[i];
            i += 1;
        }
        assert(buf@ =~= got@ + old(buf)@.skip(got@.len() as int));
        match r {
            Err(e) => Err(e),
            Ok(()) => if got.len() < len {
                Err(Error::Eof)
            } else {
                Ok(())
            },
        }
    }

    /// Reads a byte.
    pub fn read_u8(&mut self) -> (r: Result<u8>)
        requires
            old(self).wf(),
        ensures
            final(self).wf(),
            unless_taken(*old(self), *final(self), r),
            old(self).is_live() ==> match r {
                Ok(v) => read_whole(*old(self), *final(self), 1) && v
                    == crate::format::bytes::le_value(
                    handed_on(old(self).traffic(), final(self).traffic()),
                ),
                Err(e) => read_failed(*old(self), *final(self), 1, e),
            },
    {
        match self.read_bytes(1) {
            Err(e) => Err(e),
            Ok(v) => {
                let n: u64 = le_number(v.as_slice());
                proof {
                    crate::format::bytes::lemma_pow256();
                }
                Ok(n as u8)
            },
        }
    }

    /// Reads a number of two bytes, the lowest first.
    pub fn read_u16le(&mut self) -> (r: Result<u16>)
        requires
            old(self).wf(),
        ensures
            final(self).wf(),
            unless_taken(*old(self), *final(self), r),
            old(self).is_live() ==> match r {
                Ok(v) => read_whole(*old(self), *final(self), 2) && v
                    == crate::format::bytes::le_value(
                    handed_on(old(self).traffic(), final(self).traffic()),
                ),
                Err(e) => read_failed(*old(self), *final(self), 2, e),
            },
    {
        match self.read_bytes(2) {
            Err(e) => Err(e),
            Ok(v) => {
                let n: u64 = le_number(v.as_slice());
                proof {
                    crate::format::bytes::lemma_pow256();
                }
                Ok(n as u16)
            },
        }
    }

    /// Reads a number of two bytes, the highest first.
    pub fn read_u16be(&mut self) -> (r: Result<u16>)
        requires
            old(self).wf(),
        ensures
            final(self).wf(),
            unless_taken(*old(self), *final(self), r),
            old(self).is_live() ==> match r {
                Ok(v) => read_whole(*old(self), *final(self), 2) && v
                    == crate::format::bytes::be_value(
                    handed_on(old(self).traffic(), final(self).traffic()),
                ),
                Err(e) => read_failed(*old(self), *final(self), 2, e),
            },
    {
        match self.read_bytes(2) {
            Err(e) => Err(e),
            Ok(v) => {
                let n: u64 = be_number(v.as_slice());
                proof {
                    crate::format::bytes::lemma_pow256();
                }
                Ok(n as u16)
            },
        }
    }

    /// Reads a number of four bytes, the lowest first.
    pub fn read_u32le(&mut self) -> (r: Result<u32>)
        requires
            old(self).wf(),
        ensures
            final(self).wf(),
            unless_taken(*old(self), *final(self), r),
            old(self).is_live() ==> match r {
                Ok(v) => read_whole(*old(self), *final(self), 4) && v
                    == crate::format::bytes::le_value(
                    handed_on(old(self).traffic(), final(self).traffic()),
                ),
                Err(e) => read_failed(*old(self), *final(self), 4, e),
            },
    {
        match self.read_bytes(4) {
            Err(e) => Err(e),
            Ok(v) => {
                let n: u64 = le_number(v.as_slice());
                proof {
                    crate::format::bytes::lemma_pow256();
                }
                Ok(n as u32)
            },
        }
    }

    /// Reads a number of four bytes, the highest first.
    pub fn read_u32be(&mut self) -> (r: Result<u32>)
        requires
            old(self).wf(),
        ensures
            final(self).wf(),
            unless_taken(*old(self), *final(self), r),
            old(self).is_live() ==> match r {
                Ok(v) => read_whole(*old(self), *final(self), 4) && v
                    == crate::format::bytes::be_value(
                    handed_on(old(self).traffic(), final(self).traffic()),
                ),
                Err(e) => read_failed(*old(self), *final(self), 4, e),
            },
    {
        match self.read_bytes(4) {
            Err(e) => Err(e),
            Ok(v) => {
                let n: u64 = be_number(v.as_slice());
                proof {
                    crate::format::bytes::lemma_pow256();
                }
                Ok(n as u32)
            },
        }
    }

    /// Reads a number of eight bytes, the lowest first.
    pub fn read_u64le(&mut self) -> (r: Result<u64>)
        requires
            old(self).wf(),
        ensures
            final(self).wf(),
            unless_taken(*old(self), *final(self), r),
            old(self).is_live() ==> match r {
                Ok(v) => read_whole(*old(self), *final(self), 8) && v
                    == crate::format::bytes::le_value(
                    handed_on(old(self).traffic(), final(self).traffic()),
                ),
                Err(e) => read_failed(*old(self), *final(self), 8, e),
            },
    {
        match self.read_bytes(8) {
            Err(e) => Err(e),
            Ok(v) => {
                let n: u64 = le_number(v.as_slice());
                proof {
                    crate::format::bytes::lemma_pow256();
                }
                Ok(n as u64)
            },
        }
    }

    /// Reads a number of eight bytes, the highest first.
    pub fn read_u64be(&mut self) -> (r: Result<u64>)
        requires
            old(self).wf(),
        ensures
            final(self).wf(),
            unless_taken(*old(self), *final(self), r),
            old(self).is_live() ==> match r {
                Ok(v) => read_whole(*old(self), *final(self), 8) && v
                    == crate::format::bytes::be_value(
                    handed_on(old(self).traffic(), final(self).traffic()),
                ),
                Err(e) => read_failed(*old(self), *final(self), 8, e),
            },
    {
        match self.read_bytes(8) {
            Err(e) => Err(e),
            Ok(v) => {
                let n: u64 = be_number(v.as_slice());
                proof {
                    crate::format::bytes::lemma_pow256();
                }
                Ok(n as u64)
            },
        }
    }

    /// Reads a signed number of four bytes, the lowest first.
    pub fn read_i32le(&mut self) -> (r: Result<i32>)
        requires
            old(self).wf(),
        ensures
            final(self).wf(),
            unless_taken(*old(self), *final(self), r),
            old(self).is_live() ==> match r {
                Ok(v) => read_whole(*old(self), *final(self), 4) && v
                    == signed_32(
                    crate::format::bytes::le_value(
                        handed_on(old(self).traffic(), final(self).traffic()),
                    ),
                ),
                Err(e) => read_failed(*old(self), *final(self), 4, e),
            },
    {
        match self.read_u32le() {
            Err(e) => Err(e),
            Ok(v) => Ok(
                if v < 0x8000_0000 {
                    v as i32
                } else {
                    (v as i64 - 0x1_0000_0000) as i32
                },
            ),
        }
    }

    /// Skips bytes. Those that are buffered are passed over; a source that can go to another place
    /// is asked to go over the others, and from another one they are read and dropped.
    pub fn skip(&mut self, n: u64) -> (r: Result<()>)
        requires
            old(self).wf(),
        ensures
            final(self).wf(),
            unless_taken(*old(self), *final(self), r),
            old(self).is_live() ==> if old(self).source().can_seek() && n > old(self).buffered().len() {
                &&& skipped_to(
                    old(self).calls(),
                    final(self).calls(),
                    SeekFrom::Current(seek_distance((n - old(self).buffered().len()) as u64)),
                    r,
                )
                &&& final(self).buffered().len() == 0
                &&& final(self).waiting() == old(self).waiting()
            } else {
                match r {
                    Ok(_) => read_whole(*old(self), *final(self), n as int),
                    Err(e) => read_failed(*old(self), *final(self), n as int, e),
                }
            },
    {
        if self.is_taken_away() {
            return Err(taken());
        }
        let ghost t0 = self.traffic();
        let ghost c0 = self.calls();
        let left: usize = self.read_len - self.read_pos;
        proof {
            self.lemma_traffic();
            assert(c0.take(c0.len() as int) =~= c0);
            assert(t0.consumed.take(t0.consumed.len() as int) =~= t0.consumed);
        }
        if self.is_seekable() {
            if n <= left as u64 {
                if n > 0 {
                    let mut dropped: Vec<u8> = Vec::new();
                    self.take_buffered(&mut dropped, n as usize);
                }
                proof {
                    assert(self.traffic().consumed.take(t0.consumed.len() as int) =~= t0.consumed);
                }
                return Ok(());
            }
            let far: u64 = n - left as u64;
            let ghost d = gave(c0);
            self.read_pos = 0;
            self.read_len = 0;
            assert(d.skip(d.len() as int) =~= self.read_buf@.take(0));
            let place = self.go(SeekFrom::Current(signed_64(far)));
            proof {
                lemma_one_more(c0, self.calls().last());
            }
            match place {
                Ok(_) => Ok(()),
                Err(e) => Err(e),
            }
        } else {
            let mut remaining: u64 = n;
            while remaining > 0
                invariant
                    self.wf(),
                    self.is_live(),
                    old(self).wf(),
                    old(self).is_live(),
                    !old(self).source().can_seek(),
                    remaining <= n,
                    read_whole(*old(self), *self, n - remaining),
                decreases remaining,
            {
                let part: usize = if remaining <= DEFAULT_BUF_SIZE as u64 {
                    remaining as usize
                } else {
                    DEFAULT_BUF_SIZE
                };
                let ghost before = *self;
                let r = self.read_up_to(part);
                proof {
                    lemma_read_on(*old(self), before, *self, n - remaining, part as int, n as int);
                }
                match r {
                    Err(e) => {
                        return Err(e);
                    },
                    Ok(v) => {
                        if v.len() < part {
                            return Err(Error::Eof);
                        }
                    },
                }
                remaining = remaining - part as u64;
            }
            Ok(())
        }
    }

    /// Hands what waits to be written to the source. Where the source fails or takes nothing, it all
    /// goes on waiting.
    fn flush_write(&mut self) -> (r: Result<()>)
        requires
            old(self).wf(),
            old(self).is_live(),
        ensures
            final(self).wf(),
            final(self).is_live(),
            flushed(*old(self), *final(self), r),
    {
        let ghost t0 = self.traffic();
        let ghost c0 = self.calls();
        let ghost from = c0.len() as int;
        let ghost w = written(t0);
        let mut done: usize = 0;
        proof {
            assert(t0.accepted + t0.waiting.take(0) =~= t0.accepted);
            assert(c0.take(from) =~= c0);
        }
        while done < self.write_pos
            invariant
                self.wf(),
                self.is_live(),
                t0 == old(self).traffic(),
                c0 == old(self).calls(),
                from == c0.len(),
                w == written(t0),
                done <= self.write_pos,
                only_wrote(t0, self.traffic()),
                self.traffic().waiting == t0.waiting,
                self.traffic().accepted == t0.accepted + t0.waiting.take(done as int),
                follows(c0, self.calls()),
                all_offer(self.calls(), from, w),
                all_took(self.calls(), from),
                t0.waiting.len() == 0 ==> self.calls() == c0,
            decreases self.write_pos - done,
        {
            let ghost c1 = self.calls();
            let r = self.push(done);
            proof {
                let c2 = self.calls();
                let c = c2.last();
                assert(c2 =~= c1.push(c));
                lemma_one_more(c1, c);
                assert(c2.take(from) =~= c1.take(from));
                assert(t0.waiting.skip(done as int) =~= w.subrange(
                    t0.accepted.len() + done,
                    w.len() as int,
                ));
                assert(c2.take(c1.len() as int) =~= c1);
                assert(offers(c2, c1.len() as int, w));
                lemma_offers_on(c1, c2, from, w);
                assert(all_took(c2.drop_last(), from));
            }
            match r {
                Err(e) => {
                    proof {
                        assert(self.traffic().accepted =~= t0.accepted + t0.waiting.take(
                            done as int,
                        ));
                        assert(taken_part(t0, self.traffic(), done as int));
                    }
                    return Err(e);
                },
                Ok(n) => {
                    proof {
                        assert(t0.waiting.take(done as int) + t0.waiting.subrange(
                            done as int,
                            done + n,
                        ) =~= t0.waiting.take(done + n));
                        assert(self.traffic().accepted =~= t0.accepted + t0.waiting.take(done + n));
                    }
                    if n == 0 {
                        assert(taken_part(t0, self.traffic(), done as int));
                        return Err(Error::Io(IoKind::WriteZero));
                    }
                    proof {
                        let c2 = self.calls();
                        assert forall|i: int| from <= i < c2.len() implies #[trigger] c2[i] is Write
                            && write_answer(c2[i]) is Ok && taken_in(c2[i]).len() > 0 by {
                            if i < c1.len() {
                                assert(c2.drop_last()[i] == c1[i]);
                            }
                        }
                    }
                    done += n;
                },
            }
        }
        assert(t0.waiting.take(done as int) =~= t0.waiting);
        self.write_pos = 0;
        Ok(())
    }

    /// Hands what waits to be written to the source.
    pub fn flush(&mut self) -> (r: Result<()>)
        requires
            old(self).wf(),
        ensures
            final(self).wf(),
            unless_taken(*old(self), *final(self), r),
            old(self).is_live() ==> flushed(*old(self), *final(self), r),
    {
        if self.is_taken_away() {
            return Err(taken());
        }
        self.flush_write()
    }

    /// Moves bytes into the buffer for writing, as many as fit.
    fn put(&mut self, data: &[u8], from: usize) -> (r: usize)
        requires
            old(self).wf(),
            old(self).is_live(),
            from < data@.len(),
        ensures
            final(self).wf(),
            only_wrote(old(self).traffic(), final(self).traffic()),
            final(self).traffic().accepted == old(self).traffic().accepted,
            from <= r <= data@.len(),
            final(self).traffic().waiting == old(self).traffic().waiting + data@.subrange(
                from as int,
                r as int,
            ),
            final(self).write_pos == old(self).write_pos + (r - from),
            final(self).write_pos == 32768 || r == data@.len(),
            final(self).source() == old(self).source(),
    {
        let ghost t0 = self.traffic();
        let mut at: usize = from;
        assert(t0.waiting + data@.subrange(from as int, at as int) =~= t0.waiting);
        while at < data.len() && self.write_pos < DEFAULT_BUF_SIZE
            invariant
                self.wf(),
                from <= at <= data@.len(),
                self.inner == old(self).inner,
                self.inner is Live,
                self.read_buf == old(self).read_buf,
                self.read_pos == old(self).read_pos,
                self.read_len == old(self).read_len,
                self.write_pos == old(self).write_pos + (at - from),
                self.write_buf@.take(self.write_pos as int) == t0.waiting + data@.subrange(
                    from as int,
                    at as int,
                ),
            decreases data@.len() - at,
        {
            let ghost b = self.write_buf@;
            let ghost n = self.write_pos as int;
            self.write_buf.set(self.write_pos, data[at]);
            self.write_pos = self.write_pos + 1;
            at += 1;
            proof {
                assert(self.write_buf@.take(n + 1) =~= b.take(n).push(data@[at - 1]));
                assert(t0.waiting + data@.subrange(from as int, at as int) =~= (t0.waiting
                    + data@.subrange(from as int, at - 1)).push(data@[at - 1]));
            }
        }
        at
    }

    /// Hands bytes over for writing. The buffer is handed to the source whenever it is full.
    pub fn write_all(&mut self, data: &[u8]) -> (r: Result<()>)
        requires
            old(self).wf(),
        ensures
            final(self).wf(),
            unless_taken(*old(self), *final(self), r),
            old(self).is_live() ==> wrote(*old(self), *final(self), data@, r),
    {
        if self.is_taken_away() {
            return Err(taken());
        }
        let ghost t0 = self.traffic();
        let ghost c0 = self.calls();
        let ghost from = c0.len() as int;
        let ghost w = written(t0) + data@;
        let mut at: usize = 0;
        proof {
            assert(written(t0) + data@.take(0) =~= written(t0));
            assert(c0.take(from) =~= c0);
        }
        while at < data.len()
            invariant
                self.wf(),
                self.is_live(),
                old(self).is_live(),
                t0 == old(self).traffic(),
                c0 == old(self).calls(),
                from == c0.len(),
                w == written(t0) + data@,
                at <= data@.len(),
                only_wrote(t0, self.traffic()),
                follows(c0, self.calls()),
                all_offer(self.calls(), from, w),
                all_took(self.calls(), from),
                written(self.traffic()) == written(t0) + data@.take(at as int),
                t0.waiting.len() + data@.len() < 32768 ==> self.write_pos == t0.waiting.len() + at
                    && self.calls() == c0,
            decreases
                    data@.len() - at,
                    if self.write_pos == 32768 {
                        1int
                    } else {
                        0int
                    },
        {
            let ghost t1 = self.traffic();
            let next: usize = self.put(data, at);
            proof {
                let t2 = self.traffic();
                assert(data@.take(at as int) + data@.subrange(at as int, next as int)
                    =~= data@.take(next as int));
                let part = data@.subrange(at as int, next as int);
                assert(written(t2) =~= written(t1) + part);
                assert((written(t0) + data@.take(at as int)) + part =~= written(t0) + (data@.take(
                    at as int,
                ) + part));
            }
            at = next;
            if self.write_pos >= DEFAULT_BUF_SIZE {
                let ghost full = *self;
                let r = self.flush_write();
                proof {
                    assert(w.take(written(full.traffic()).len() as int) =~= written(full.traffic()));
                    lemma_flushed_on(c0, full, *self, w, r);
                    if r is Err {
                        assert(stuck_at(t0, full.traffic(), self.traffic(), data@, at as int));
                    } else {
                        assert(written(self.traffic()) =~= written(full.traffic()));
                    }
                }
                match r {
                    Err(e) => return Err(e),
                    Ok(()) => {},
                }
            }
        }
        assert(data@.take(at as int) =~= data@);
        Ok(())
    }

    /// Writes bytes.
    pub fn write_bytes(&mut self, data: &[u8]) -> (r: Result<()>)
        requires
            old(self).wf(),
        ensures
            final(self).wf(),
            unless_taken(*old(self), *final(self), r),
            old(self).is_live() ==> wrote(*old(self), *final(self), data@, r),
    {
        self.write_all(data)
    }

    /// Writes a byte.
    pub fn write_u8(&mut self, v: u8) -> (r: Result<()>)
        requires
            old(self).wf(),
        ensures
            final(self).wf(),
            unless_taken(*old(self), *final(self), r),
            old(self).is_live() ==> wrote(
                *old(self),
                *final(self),
                crate::format::bytes::le_bytes(v as int, 1),
                r,
            ),
    {
        let bytes = to_le(v as u64, 1);
        proof {
            crate::format::bytes::lemma_pow256();
            crate::format::bytes::law_bytes_give_back_number(v as int, 1);
        }
        self.write_all(bytes.as_slice())
    }

    /// Writes a number of two bytes, the lowest first.
    pub fn write_u16le(&mut self, v: u16) -> (r: Result<()>)
        requires
            old(self).wf(),
        ensures
            final(self).wf(),
            unless_taken(*old(self), *final(self), r),
            old(self).is_live() ==> wrote(
                *old(self),
                *final(self),
                crate::format::bytes::le_bytes(v as int, 2),
                r,
            ),
    {
        let bytes = to_le(v as u64, 2);
        proof {
            crate::format::bytes::lemma_pow256();
            crate::format::bytes::law_bytes_give_back_number(v as int, 2);
        }
        self.write_all(bytes.as_slice())
    }

    /// Writes a number of two bytes, the highest first.
    pub fn write_u16be(&mut self, v: u16) -> (r: Result<()>)
        requires
            old(self).wf(),
        ensures
            final(self).wf(),
            unless_taken(*old(self), *final(self), r),
            old(self).is_live() ==> wrote(
                *old(self),
                *final(self),
                crate::format::bytes::be_bytes(v as int, 2),
                r,
            ),
    {
        let bytes = to_be(v as u64, 2);
        proof {
            crate::format::bytes::lemma_pow256();
            crate::format::bytes::law_bytes_give_back_number(v as int, 2);
        }
        self.write_all(bytes.as_slice())
    }

    /// Writes a number of four bytes, the lowest first.
    pub fn write_u32le(&mut self, v: u32) -> (r: Result<()>)
        requires
            old(self).wf(),
        ensures
            final(self).wf(),
            unless_taken(*old(self), *final(self), r),
            old(self).is_live() ==> wrote(
                *old(self),
                *final(self),
                crate::format::bytes::le_bytes(v as int, 4),
                r,
            ),
    {
        let bytes = to_le(v as u64, 4);
        proof {
            crate::format::bytes::lemma_pow256();
            crate::format::bytes::law_bytes_give_back_number(v as int, 4);
        }
        self.write_all(bytes.as_slice())
    }

    /// Writes a number of four bytes, the highest first.
    pub fn write_u32be(&mut self, v: u32) -> (r: Result<()>)
        requires
            old(self).wf(),
        ensures
            final(self).wf(),
            unless_taken(*old(self), *final(self), r),
            old(self).is_live() ==> wrote(
                *old(self),
                *final(self),
                crate::format::bytes::be_bytes(v as int, 4),
                r,
            ),
    {
        let bytes = to_be(v as u64, 4);
        proof {
            crate::format::bytes::lemma_pow256();
            crate::format::bytes::law_bytes_give_back_number(v as int, 4);
        }
        self.write_all(bytes.as_slice())
    }

    /// Writes a number of eight bytes, the lowest first.
    pub fn write_u64le(&mut self, v: u64) -> (r: Result<()>)
        requires
            old(self).wf(),
        ensures
            final(self).wf(),
            unless_taken(*old(self), *final(self), r),
            old(self).is_live() ==> wrote(
                *old(self),
                *final(self),
                crate::format::bytes::le_bytes(v as int, 8),
                r,
            ),
    {
        let bytes = to_le(v as u64, 8);
        proof {
            crate::format::bytes::lemma_pow256();
            crate::format::bytes::law_bytes_give_back_number(v as int, 8);
        }
        self.write_all(bytes.as_slice())
    }

    /// Goes to a place counted from the start. What waits to be written is written first, and what is
    /// buffered for reading is dropped.
    pub fn seek(&mut self, pos: u64) -> (r: Result<u64>)
        requires
            old(self).wf(),
        ensures
            final(self).wf(),
            unless_taken(*old(self), *final(self), r),
            old(self).is_live() ==> went(*old(self), *final(self), pos, r),
    {
        if self.is_taken_away() {
            return Err(taken());
        }
        match self.flush_write() {
            Err(e) => {
                assert(flushed(*old(self), *self, Err::<(), Error>(e)));
                return Err(e);
            },
            Ok(()) => {},
        }
        let ghost between = *self;
        self.read_pos = 0;
        self.read_len = 0;
        let ghost d = gave(self.calls());
        assert(d.skip(d.len() as int) =~= self.read_buf@.take(0));
        let r = self.go(SeekFrom::Start(pos));
        assert(went_after(*old(self), between, *self, pos, r));
        r
    }

    /// The current place, given that of the source: what is buffered for reading lies before it, and
    /// what waits to be written behind.
    pub fn place(&self, source_place: u64) -> (r: u64)
        requires
            self.wf(),
        ensures
            r == place_spec(self.traffic(), source_place),
    {
        assert(self.traffic().waiting.len() == self.write_pos);
        let ahead: u64 = (self.read_len - self.read_pos) as u64;
        let base: u64 = if source_place >= ahead {
            source_place - ahead
        } else {
            0
        };
        base.wrapping_add(self.write_pos as u64)
    }

    /// The current place.
    pub fn tell(&mut self) -> (r: Result<u64>)
        requires
            old(self).wf(),
        ensures
            final(self).wf(),
            unless_taken(*old(self), *final(self), r),
            final(self).traffic() == old(self).traffic(),
            old(self).is_live() ==> match final(self).calls().last() {
                Call::Tell { place } => {
                    &&& final(self).calls() == old(self).calls().push(Call::Tell { place })
                    &&& match place {
                        Ok(p) => r == Ok::<u64, Error>(place_spec(old(self).traffic(), p)),
                        Err(e) => r == Err::<u64, Error>(e),
                    }
                },
                _ => false,
            },
    {
        if self.is_taken_away() {
            return Err(taken());
        }
        let ghost c0 = self.calls();
        let place = self.inner.tell();
        proof {
            lemma_one_more(c0, Call::Tell { place });
            assert(gave(self.calls()) =~= gave(c0));
            assert(took(self.calls()) =~= took(c0));
        }
        match place {
            Err(e) => Err(e),
            Ok(p) => Ok(self.place(p)),
        }
    }

    /// The size of the source.
    pub fn size(&mut self) -> (r: Result<u64>)
        requires
            old(self).wf(),
        ensures
            final(self).wf(),
            unless_taken(*old(self), *final(self), r),
            final(self).traffic() == old(self).traffic(),
            old(self).is_live() ==> final(self).calls() == old(self).calls().push(
                Call::Size { size: r },
            ),
    {
        if self.is_taken_away() {
            return Err(taken());
        }
        let ghost c0 = self.calls();
        let r = self.inner.size();
        proof {
            lemma_one_more(c0, Call::Size { size: r });
            assert(gave(self.calls()) =~= gave(c0));
            assert(took(self.calls()) =~= took(c0));
        }
        r
    }

    /// Whether the source can go to another place. One that was taken away cannot.
    pub fn is_seekable(&self) -> (r: bool)
        ensures
            r == self.source().can_seek(),
            !self.is_live() ==> !r,
    {
        self.inner.is_seekable()
    }
}

/// Whether one call was added.
pub open spec fn one_more(a: Seq<Call>, b: Seq<Call>) -> bool {
    b.len() == a.len() + 1 && b.drop_last() == a
}

/// Whether one call was added, a request to go to `pos`, and what came of it is the result.
pub open spec fn skipped_to(a: Seq<Call>, b: Seq<Call>, pos: SeekFrom, r: Result<()>) -> bool {
    &&& one_more(a, b)
    &&& b.last() matches Call::Seek { pos: p, place } && p == pos && match place {
        Ok(_) => r is Ok,
        Err(e) => r == Err::<(), Error>(e),
    }
}

/// Whether the source was asked to go to `pos` behind a flush that left `m`, and gave the result.
pub open spec fn went_after<T: IoContext>(
    a: BufferedIo<T>,
    m: BufferedIo<T>,
    b: BufferedIo<T>,
    pos: u64,
    r: Result<u64>,
) -> bool {
    &&& flushed(a, m, Ok(()))
    &&& b.calls() == m.calls().push(Call::Seek { pos: SeekFrom::Start(pos), place: r })
    &&& b.buffered().len() == 0
    &&& b.waiting().len() == 0
}

/// Whether what waited was written and the source then asked to go to `pos`: the states before and
/// after that, and the result. Where what waited cannot be written, the source is not asked.
pub open spec fn went<T: IoContext>(
    a: BufferedIo<T>,
    b: BufferedIo<T>,
    pos: u64,
    r: Result<u64>,
) -> bool {
    ||| r is Err && flushed(a, b, Err(r->Err_0))
    ||| exists|m: BufferedIo<T>| #[trigger] went_after(a, m, b, pos, r)
}

/// Whether an operation left the source where it was, and where it had been taken away before, failed
/// for that reason and did nothing else.
pub open spec fn unless_taken<T: IoContext, A>(
    a: BufferedIo<T>,
    b: BufferedIo<T>,
    r: Result<A>,
) -> bool {
    &&& b.is_live() == a.is_live()
    &&& !a.is_live() ==> r is Err && is_taken(r->Err_0) && b == a
}

/// Reading `k` bytes and then `n` more, or fewer, is reading `k + n`, or fewer.
proof fn lemma_read_on<T: IoContext>(
    a: BufferedIo<T>,
    m: BufferedIo<T>,
    b: BufferedIo<T>,
    k: int,
    n: int,
    all: int,
)
    requires
        a.wf(),
        m.wf(),
        b.wf(),
        0 <= k,
        0 < n,
        k + n <= all,
        read_whole(a, m, k),
    ensures
        read_whole(m, b, n) ==> read_whole(a, b, k + n),
        forall|last: Result<usize>| #[trigger]
            read_cut(m, b, n, last) ==> read_cut(a, b, all, last),
{
    let (ta, tm, tb) = (a.traffic(), m.traffic(), b.traffic());
    let (ca, cm, cb) = (a.calls(), m.calls(), b.calls());
    a.lemma_traffic();
    m.lemma_traffic();
    if asked_as_needed(m, b, n) && only_read(tm, tb) {
        lemma_follows_on(ca, cm, cb);
        lemma_follows(ca, cm);
        lemma_follows(cm, cb);
        assert(tb.consumed.take(ta.consumed.len() as int) =~= tb.consumed.take(
            tm.consumed.len() as int,
        ).take(ta.consumed.len() as int));
        assert(handed_on(ta, tb).len() == k + handed_on(tm, tb).len());
        if cb.len() == cm.len() {
            assert(cb.take(cb.len() as int) =~= cb);
        }
        if ta.buffered.len() >= k + n {
            assert(cm == ca);
            assert(tm.buffered.len() == ta.buffered.len() - k);
        }
        if all_gave(cb, cm.len() as int) {
            assert forall|i: int| ca.len() <= i < cb.len() implies #[trigger] cb[i] is Read
                && read_answer(cb[i]) is Ok && given(cb[i]).len() > 0 by {
                if i < cm.len() {
                    assert(cb[i] == cm[i]);
                }
            }
        }
        if cb.len() > cm.len() && all_gave(cb.drop_last(), cm.len() as int) {
            assert forall|i: int| ca.len() <= i < cb.len() - 1 implies #[trigger] cb.drop_last()[i] is Read
                && read_answer(cb.drop_last()[i]) is Ok && given(cb.drop_last()[i]).len() > 0 by {
                if i < cm.len() {
                    assert(cb[i] == cm[i]);
                }
            }
            if ta.buffered.len() >= all {
                assert(cm == ca);
                assert(tm.buffered.len() == ta.buffered.len() - k);
            }
        }
    }
}

/// Calls that offer bytes still do behind one more.
proof fn lemma_offers_on(c1: Seq<Call>, c2: Seq<Call>, from: int, w: Seq<u8>)
    requires
        0 <= from <= c1.len(),
        one_more(c1, c2),
        all_offer(c1, from, w),
        offers(c2, c1.len() as int, w),
    ensures
        all_offer(c2, from, w),
{
    assert forall|i: int| from <= i < c2.len() implies #[trigger] offers(c2, i, w) by {
        if i < c1.len() {
            assert(offers(c1, i, w));
            assert(c2.take(i) =~= c1.take(i));
            assert(c2.drop_last()[i] == c1[i]);
        }
    }
}

/// A flush behind other writes goes on with them.
proof fn lemma_flushed_on<T: IoContext>(
    c0: Seq<Call>,
    a: BufferedIo<T>,
    b: BufferedIo<T>,
    w: Seq<u8>,
    r: Result<()>,
)
    requires
        follows(c0, a.calls()),
        all_offer(a.calls(), c0.len() as int, w),
        all_took(a.calls(), c0.len() as int),
        written(a.traffic()).len() <= w.len(),
        w.take(written(a.traffic()).len() as int) == written(a.traffic()),
        flushed(a, b, r),
    ensures
        follows(c0, b.calls()),
        all_offer(b.calls(), c0.len() as int, w),
        r is Ok ==> all_took(b.calls(), c0.len() as int),
        r is Err ==> all_took(b.calls().drop_last(), c0.len() as int),
{
    let (ca, cb) = (a.calls(), b.calls());
    let v = written(a.traffic());
    lemma_follows_on(c0, ca, cb);
    lemma_follows(ca, cb);
    assert forall|i: int| c0.len() <= i < cb.len() implies #[trigger] offers(cb, i, w) by {
        if i < ca.len() {
            assert(offers(ca, i, w));
            assert(cb.take(i) =~= ca.take(i));
            assert(cb[i] == ca[i]);
        } else {
            assert(offers(cb, i, v));
            let k = took(cb.take(i)).len() as int;
            if let Call::Write { buf, answer } = cb[i] {
                assert(v.subrange(k, k + buf.len()) =~= w.subrange(k, k + buf.len())) by {
                    assert forall|j: int| 0 <= j < v.len() implies v[j] == w[j] by {
                        assert(w.take(v.len() as int)[j] == v[j]);
                    }
                }
            }
        }
    }
    if r is Ok {
        assert forall|i: int| c0.len() <= i < cb.len() implies #[trigger] cb[i] is Write
            && write_answer(cb[i]) is Ok && taken_in(cb[i]).len() > 0 by {
            if i < ca.len() {
                assert(cb[i] == ca[i]);
            }
        }
    } else {
        let d = cb.drop_last();
        assert forall|i: int| c0.len() <= i < d.len() implies #[trigger] d[i] is Write
            && write_answer(d[i]) is Ok && taken_in(d[i]).len() > 0 by {
            if i < ca.len() {
                assert(cb[i] == ca[i]);
            }
        }
    }
}

/// The place of a buffered source, given that of the source itself.
pub open spec fn place_spec(t: Traffic, source_place: u64) -> u64 {
    let base = if source_place >= t.buffered.len() {
        (source_place - t.buffered.len()) as u64
    } else {
        0
    };
    base.wrapping_add(t.waiting.len() as u64)
}

/// Bytes that are handed on from the buffer, and bytes that are handed over for writing, move the
/// place by as many, while the source stands still.
pub proof fn law_place_follows_traffic(a: Traffic, b: Traffic, source_place: u64)
    requires
        b.buffered.len() <= a.buffered.len() <= source_place,
        a.waiting.len() <= b.waiting.len(),
        source_place + b.waiting.len() <= u64::MAX,
    ensures
        place_spec(b, source_place) == place_spec(a, source_place) + (a.buffered.len()
            - b.buffered.len()) + (b.waiting.len() - a.waiting.len()),
{
}

/// Once everything has been handed to the source, handing over again asks it nothing.
pub proof fn law_second_flush_writes_nothing<T: IoContext>(
    a: BufferedIo<T>,
    b: BufferedIo<T>,
    c: BufferedIo<T>,
    r: Result<()>,
)
    requires
        flushed(a, b, Ok(())),
        flushed(b, c, r),
    ensures
        r is Ok,
        c.calls() == b.calls(),
{
}

/// Behind writes and a flush, a source that takes bytes whenever it is offered some has taken exactly
/// the bytes handed over, in their order, behind those it had taken before; one that takes nothing
/// makes the flush fail for that.
pub proof fn law_flush_hands_over_all<T: IoContext>(
    parts: Seq<Seq<u8>>,
    states: Seq<BufferedIo<T>>,
    b: BufferedIo<T>,
    r: Result<()>,
)
    requires
        states.len() == parts.len() + 1,
        states[0].waiting().len() == 0,
        forall|i: int|
            0 <= i < parts.len() ==> wrote(#[trigger] states[i], states[i + 1], parts[i], Ok(())),
        flushed(states.last(), b, r),
    ensures
        all_took(b.calls(), states.last().calls().len() as int) ==> r is Ok && took(b.calls())
            == took(states[0].calls()) + parts.flatten(),
        b.calls().len() > states.last().calls().len() && write_answer(b.calls().last()) == Ok::<
            usize,
            Error,
        >(0) ==> r == Err::<(), Error>(Error::Io(IoKind::WriteZero)),
{
    let all = Seq::new(states.len(), |i: int| written(states[i].traffic()));
    assert forall|i: int| 0 <= i < parts.len() implies #[trigger] all[i] + parts[i] == all[i + 1] by {
        assert(wrote(states[i], states[i + 1], parts[i], Ok(())));
    }
    lemma_joined(parts, all);
    assert(all[0] =~= took(states[0].calls()));
    assert(all.last() == written(states.last().traffic()));
    let c = b.calls();
    if c.len() > states.last().calls().len() {
        let i = c.len() - 1;
        assert(offers(c, i, written(states.last().traffic())));
        assert(c[i] == c.last());
    }
}

/// Sequences to each of which a part is added to give the next.
proof fn lemma_joined(parts: Seq<Seq<u8>>, all: Seq<Seq<u8>>)
    requires
        all.len() == parts.len() + 1,
        forall|i: int| 0 <= i < parts.len() ==> #[trigger] all[i] + parts[i] == all[i + 1],
    ensures
        all.last() == all[0] + parts.flatten(),
    decreases parts.len(),
{
    if parts.len() == 0 {
        assert(all.last() =~= all[0] + parts.flatten());
    } else {
        let n = parts.len() - 1;
        let head = parts.drop_last();
        let less = all.drop_last();
        assert forall|i: int| 0 <= i < head.len() implies #[trigger] less[i] + head[i] == less[i + 1] by {
            assert(all[i] + parts[i] == all[i + 1]);
        }
        lemma_joined(head, less);
        assert(all[n] + parts[n] == all[n + 1]);
        assert(parts =~= head.push(parts[n]));
        head.lemma_flatten_push(parts[n]);
        assert((all[0] + head.flatten()) + parts[n] =~= all[0] + (head.flatten() + parts[n]));
    }
}

/// Whether a source gives out a stream: the bytes that it has given are the first of the stream, no
/// read from the call number `from` on failed, and one gave nothing only at the end of the stream.
pub open spec fn gives_stream(calls: Seq<Call>, from: int, stream: Seq<u8>) -> bool {
    &&& gave(calls).len() <= stream.len()
    &&& gave(calls) == stream.take(gave(calls).len() as int)
    &&& forall|i: int|
        from <= i < calls.len() && #[trigger] calls[i] is Read ==> read_answer(calls[i]) is Ok && (
        read_answer(calls[i])->Ok_0 == 0 ==> gave(calls.take(i)).len() == stream.len())
}

/// From a source that gives out a stream, a read of up to `n` bytes gives the next `n` bytes of the
/// stream, or all that are left, however the source cuts them.
pub proof fn law_read_follows_stream<T: IoContext>(
    a: BufferedIo<T>,
    b: BufferedIo<T>,
    n: int,
    r: Result<Vec<u8>>,
    stream: Seq<u8>,
)
    requires
        a.wf(),
        b.wf(),
        0 <= n,
        read_some(a, b, n, r),
        gives_stream(b.calls(), a.calls().len() as int, stream),
    ensures
        ({
            let c = a.traffic().consumed.len() as int;
            let m = if n <= stream.len() - c {
                n
            } else {
                stream.len() - c
            };
            &&& 0 <= c <= stream.len()
            &&& r is Ok
            &&& r->Ok_0@ == stream.subrange(c, c + m)
            &&& b.traffic().consumed == stream.take(c + m)
        }),
{
    lemma_stream(a, b, n, stream);
}

/// From a source that gives out a stream, exactly `n` bytes can be read if and only if as many are left;
/// they are then the next ones.
pub proof fn law_exact_read_follows_stream<T: IoContext>(
    a: BufferedIo<T>,
    b: BufferedIo<T>,
    n: int,
    failed: Option<Error>,
    stream: Seq<u8>,
)
    requires
        a.wf(),
        b.wf(),
        0 <= n,
        match failed {
            None => read_whole(a, b, n),
            Some(e) => read_failed(a, b, n, e),
        },
        gives_stream(b.calls(), a.calls().len() as int, stream),
    ensures
        ({
            let c = a.traffic().consumed.len() as int;
            &&& 0 <= c <= stream.len()
            &&& failed is None <==> n <= stream.len() - c
            &&& failed is None ==> handed_on(a.traffic(), b.traffic()) == stream.subrange(c, c + n)
            &&& failed matches Some(e) ==> e == Error::Eof
        }),
{
    lemma_stream(a, b, n, stream);
}

proof fn lemma_stream<T: IoContext>(a: BufferedIo<T>, b: BufferedIo<T>, n: int, stream: Seq<u8>)
    requires
        a.wf(),
        b.wf(),
        0 <= n,
        only_read(a.traffic(), b.traffic()),
        follows(a.calls(), b.calls()),
        gives_stream(b.calls(), a.calls().len() as int, stream),
    ensures
        ({
            let c = a.traffic().consumed.len() as int;
            let got = handed_on(a.traffic(), b.traffic());
            &&& 0 <= c <= stream.len()
            &&& c + got.len() <= stream.len()
            &&& got == stream.subrange(c, c + got.len())
            &&& b.traffic().consumed == stream.take(c + got.len())
            &&& forall|e: Error| !#[trigger] read_cut(a, b, n, Err(e))
            &&& read_cut(a, b, n, Ok(0)) ==> c + got.len() == stream.len()
        }),
{
    let c = a.traffic().consumed.len() as int;
    let got = handed_on(a.traffic(), b.traffic());
    let calls = b.calls();
    b.lemma_traffic();
    assert(b.traffic().consumed =~= stream.take(c + got.len()));
    assert(got =~= stream.subrange(c, c + got.len()));
    assert forall|e: Error| !#[trigger] read_cut(a, b, n, Err(e)) by {
        if read_cut(a, b, n, Err(e)) {
            assert(calls[calls.len() - 1] is Read);
        }
    }
    if read_cut(a, b, n, Ok(0)) {
        let i = calls.len() - 1;
        assert(calls[i] is Read);
        assert(calls.take(i) =~= calls.drop_last());
    }
}

/// Whether a source took the first `k` of the bytes that waited.
pub open spec fn taken_part(a: Traffic, b: Traffic, k: int) -> bool {
    0 <= k < a.waiting.len() && b.accepted == a.accepted + a.waiting.take(k)
}

/// Whether a source took some of the bytes that waited, but not all.
pub open spec fn some_taken(a: Traffic, b: Traffic) -> bool {
    exists|k: int| taken_part(a, b, k)
}

/// Reads four bytes: the tag of a part of a file.
pub fn read_tag<T: IoContext>(io: &mut BufferedIo<T>) -> (r: Result<[u8; 4]>)
    requires
        old(io).wf(),
    ensures
        final(io).wf(),
        unless_taken(*old(io), *final(io), r),
        old(io).is_live() ==> match r {
            Ok(tag) => read_whole(*old(io), *final(io), 4) && tag@ == handed_on(
                old(io).traffic(),
                final(io).traffic(),
            ),
            Err(e) => read_failed(*old(io), *final(io), 4, e),
        },
{
    match io.read_bytes(4) {
        Err(e) => Err(e),
        Ok(v) => {
            let tag: [u8; 4] = [v[0], v[1], v[2], v[3]];
            assert(tag@ =~= v@);
            Ok(tag)
        },
    }
}

} // verus!
