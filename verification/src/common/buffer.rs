//! Reference-counted byte buffers with zeroed padding.
use aligned_vec::{AVec, ConstAlign};
use std::sync::Arc;
use vstd::prelude::*;
use vstd::slice::slice_subrange;

verus! {

/// Number of zero bytes that follow the bytes of a buffer.
pub const INPUT_BUFFER_PADDING_SIZE: usize = 64;

/// Bytes in storage that is aligned to 64 bytes.
#[verifier::external_body]
#[derive(Debug)]
pub struct AlignedBytes {
    bytes: AVec<u8, ConstAlign<64>>,
}

/// The elements of an aligned vector of bytes.
pub uninterp spec fn aligned_bytes(v: AlignedBytes) -> Seq<u8>;

/// `aligned_vec::AVec::from_slice`: a vector of the elements of a slice, in their order. The crate
/// panics on more bytes than an allocation can hold.
#[verifier::external_body]
fn aligned_copy(bytes: &[u8]) -> (r: AlignedBytes)
    requires
        bytes@.len() <= isize::MAX,
    ensures
        aligned_bytes(r) == bytes@,
{
    AlignedBytes { bytes: AVec::from_slice(64, bytes) }
}

/// `aligned_vec::AVec::as_slice`: the elements of the vector. No slice spans more bytes than an
/// allocation can hold.
#[verifier::external_body]
fn as_bytes(v: &AlignedBytes) -> (r: &[u8])
    ensures
        r@ == aligned_bytes(*v),
        r@.len() <= isize::MAX,
{
    v.bytes.as_slice()
}

/// `aligned_vec::AVec::as_mut_slice`: the elements of the vector, to be changed in place.
#[verifier::external_body]
fn as_bytes_mut(v: &mut AlignedBytes) -> (r: &mut [u8])
    ensures
        r@ == aligned_bytes(*old(v)),
        final(r)@ == aligned_bytes(*final(v)),
        final(r)@.len() == r@.len(),
{
    v.bytes.as_mut_slice()
}

/// `aligned_vec::AVec::resize`: cuts the vector off, or extends it by copies of a value. Growing
/// may double the capacity, and the crate panics where that exceeds an allocation.
#[verifier::external_body]
fn resize_bytes(v: &mut AlignedBytes, len: usize, value: u8)
    requires
        len <= isize::MAX / 2,
        aligned_bytes(*old(v)).len() <= isize::MAX / 2,
    ensures
        aligned_bytes(*final(v)) == resized(aligned_bytes(*old(v)), len as nat, value),
{
    v.bytes.resize(len, value)
}

/// A sequence cut off at a length, or extended to it by copies of a value.
pub open spec fn resized(s: Seq<u8>, len: nat, value: u8) -> Seq<u8> {
    Seq::new(
        len,
        |i: int|
            if i < s.len() {
                s[i]
            } else {
                value
            },
    )
}

/// The storage of a buffer: its bytes, and their padding.
#[derive(Debug)]
pub struct Storage {
    data: AlignedBytes,
    /// Number of bytes without the padding.
    size: usize,
}

impl Storage {
    /// Whether zeroed padding follows the bytes.
    pub closed spec fn wf(self) -> bool {
        let b = aligned_bytes(self.data);
        &&& b.len() == self.size + 64
        &&& b.len() <= isize::MAX
        &&& forall|i: int| self.size <= i < b.len() ==> #[trigger] b[i] == 0
    }

    /// The bytes without the padding.
    pub closed spec fn bytes(self) -> Seq<u8> {
        aligned_bytes(self.data).subrange(0, self.size as int)
    }
}

impl Clone for Storage {
    fn clone(&self) -> (r: Storage)
        ensures
            r.wf() == self.wf(),
            r.bytes() == self.bytes(),
    {
        Storage { data: aligned_copy(as_bytes(&self.data)), size: self.size }
    }
}

/// `std::sync::Arc::make_mut`: the value behind the pointer, cloned first where others share it.
#[verifier::external_body]
fn unshared(inner: &mut Arc<Storage>) -> (r: &mut Storage)
    requires
        old(inner).wf(),
    ensures
        r.wf(),
        r.bytes() == old(inner).bytes(),
        **final(inner) == *final(r),
{
    Arc::make_mut(inner)
}

/// `std::sync::Arc::strong_count`: the number of pointers to the value. It changes with what the
/// rest of the program holds, so no more is said of it than that this pointer counts.
#[verifier::external_body]
fn sharers(inner: &Arc<Storage>) -> (r: usize)
    ensures
        r >= 1,
{
    Arc::strong_count(inner)
}

/// Whether a pointer that is one of `count` to a value is the only one.
pub fn is_sole(count: usize) -> (r: bool)
    ensures
        r == (count == 1),
{
    count == 1
}

/// A byte buffer that is shared on cloning and copied on writing. Its storage is aligned to 64
/// bytes, and zeroed padding follows its bytes.
#[derive(Debug)]
pub struct Buffer {
    inner: Arc<Storage>,
}

impl View for Buffer {
    type V = Seq<u8>;

    closed spec fn view(&self) -> Seq<u8> {
        self.inner.bytes()
    }
}

impl Clone for Buffer {
    fn clone(&self) -> (r: Buffer)
        ensures
            r@ == self@,
            r.wf() == self.wf(),
    {
        Buffer { inner: self.inner.clone() }
    }
}

impl Buffer {
    /// Whether zeroed padding follows the bytes.
    pub closed spec fn wf(&self) -> bool {
        self.inner.wf()
    }

    /// A buffer of zeros.
    pub fn new(size: usize) -> (r: Buffer)
        requires
            size + 64 <= isize::MAX,
        ensures
            r.wf(),
            r@ == Seq::new(size as nat, |i: int| 0u8),
    {
        let zeros = vec![0u8; size + INPUT_BUFFER_PADDING_SIZE];
        let r = Buffer { inner: Arc::new(Storage { data: aligned_copy(zeros.as_slice()), size })
        };
        assert(r@ =~= Seq::new(size as nat, |i: int| 0u8));
        r
    }

    /// A buffer of given bytes.
    pub fn from_slice(data: &[u8]) -> (r: Buffer)
        requires
            data@.len() + 64 <= isize::MAX,
        ensures
            r.wf(),
            r@ == data@,
    {
        let size: usize = data.len();
        let mut bytes: Vec<u8> = Vec::with_capacity(size + INPUT_BUFFER_PADDING_SIZE);
        bytes.extend_from_slice(data);
        bytes.resize(size + INPUT_BUFFER_PADDING_SIZE, 0);
        let r = Buffer { inner: Arc::new(Storage { data: aligned_copy(bytes.as_slice()), size })
        };
        assert(r@ =~= data@);
        r
    }

    /// Number of bytes, without the padding.
    pub fn size(&self) -> (r: usize)
        requires
            self.wf(),
        ensures
            r == self@.len(),
    {
        self.inner.size
    }

    /// The bytes, without the padding.
    pub fn data(&self) -> (r: &[u8])
        requires
            self.wf(),
        ensures
            r@ == self@,
    {
        slice_subrange(as_bytes(&self.inner.data), 0, self.inner.size)
    }

    /// The bytes with the zeros that follow them.
    pub fn padded(&self) -> (r: &[u8])
        requires
            self.wf(),
        ensures
            r@ == self@ + Seq::new(64, |i: int| 0u8),
    {
        let r = as_bytes(&self.inner.data);
        assert(r@ =~= self@ + Seq::new(64, |i: int| 0u8));
        r
    }

    /// Whether no other buffer shares the storage. That depends on what the rest of the program
    /// holds, so nothing is said of it here.
    pub fn is_writable(&self) -> bool {
        is_sole(sharers(&self.inner))
    }

    /// A buffer of the same bytes, with storage of its own.
    pub fn copied(&self) -> (r: Buffer)
        requires
            self.wf(),
        ensures
            r.wf(),
            r@ == self@,
    {
        let data = aligned_copy(as_bytes(&self.inner.data));
        let size: usize = self.inner.size;
        Buffer { inner: Arc::new(Storage { data, size }) }
    }

    /// Gives the buffer storage of its own where others share it.
    pub fn make_writable(&mut self)
        requires
            old(self).wf(),
        ensures
            final(self).wf(),
            final(self)@ == old(self)@,
    {
        if !self.is_writable() {
            let own = self.copied();
            self.inner = own.inner;
        }
    }

    /// The bytes, to be changed in place. Storage that others share is copied first.
    pub fn data_mut(&mut self) -> (r: &mut [u8])
        requires
            old(self).wf(),
        ensures
            r@ == old(self)@,
            final(r)@.len() == r@.len() ==> final(self).wf() && final(self)@ == final(r)@,
    {
        let inner = unshared(&mut self.inner);
        let size: usize = inner.size;
        let all = as_bytes_mut(&mut inner.data);
        let (bytes, _padding) = all.split_at_mut(size);
        bytes
    }

    /// Changes the size. New bytes are zero. Storage that others share is copied first.
    pub fn resize(&mut self, new_size: usize)
        requires
            old(self).wf(),
            old(self)@.len() + 64 <= isize::MAX / 2,
            new_size + 64 <= isize::MAX / 2,
        ensures
            final(self).wf(),
            final(self)@ == resized(old(self)@, new_size as nat, 0),
    {
        let ghost before = self@;
        let inner = unshared(&mut self.inner);
        resize_bytes(&mut inner.data, new_size + INPUT_BUFFER_PADDING_SIZE, 0);
        inner.size = new_size;
        let bytes = as_bytes_mut(&mut inner.data);
        let ghost grown = bytes@;
        let mut i: usize = new_size;
        while i < new_size + INPUT_BUFFER_PADDING_SIZE
            invariant
                new_size <= i <= new_size + 64,
                new_size + 64 <= isize::MAX / 2,
                bytes@.len() == new_size + 64,
                forall|j: int| 0 <= j < new_size ==> #[trigger] bytes@[j] == grown[j],
                forall|j: int| new_size <= j < i ==> #[trigger] bytes@[j] == 0,
            decreases new_size + 64 - i,
        {
            bytes[i] = 0;
            i += 1;
        }
        assert(self@ =~= resized(before, new_size as nat, 0));
    }
}

} // verus!
