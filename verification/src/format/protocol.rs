//! Addresses and the protocols that they are opened with.
use vstd::prelude::*;
use vstd::string::*;

use crate::common::text::same_text;
use crate::error::Result;
use crate::format::io::IoContext;

verus! {

/// A protocol by which sources are opened.
pub trait Protocol<T: IoContext>: Send + Sync {
    fn name(&self) -> &'static str;

    fn open(&self, url: &str, flags: ProtocolFlags) -> Result<T>;
}

/// What a source is opened for.
#[derive(Debug, Clone, Copy, PartialEq, Eq, Structural)]
pub struct ProtocolFlags {
    pub read: bool,
    pub write: bool,
}

impl ProtocolFlags {
    /// For reading.
    pub fn read_only() -> (r: ProtocolFlags)
        ensures
            r.read && !r.write,
    {
        ProtocolFlags { read: true, write: false }
    }

    /// For writing.
    pub fn write_only() -> (r: ProtocolFlags)
        ensures
            !r.read && r.write,
    {
        ProtocolFlags { read: false, write: true }
    }

    /// For both.
    pub fn read_write() -> (r: ProtocolFlags)
        ensures
            r.read && r.write,
    {
        ProtocolFlags { read: true, write: true }
    }
}

/// Whether the mark between a scheme and the rest of an address is at `i`.
pub open spec fn mark_at(url: Seq<char>, i: int) -> bool {
    0 <= i && i + 3 <= url.len() && url[i] == ':' && url[i + 1] == '/' && url[i + 2] == '/'
}

/// Whether `i` is the first place of the mark.
pub open spec fn first_mark(url: Seq<char>, i: int) -> bool {
    mark_at(url, i) && forall|j: int| 0 <= j < i ==> !#[trigger] mark_at(url, j)
}

/// Whether a text is the scheme of an address: what stands before the first mark, and that of files
/// where there is none.
pub open spec fn is_scheme(url: Seq<char>, scheme: Seq<char>) -> bool {
    if exists|i: int| #[trigger] mark_at(url, i) {
        exists|i: int| #[trigger] first_mark(url, i) && scheme == url.take(i)
    } else {
        scheme == "file"@
    }
}

/// The scheme of an address.
pub fn scheme_of(url: &str) -> (r: &str)
    ensures
        is_scheme(url@, r@),
{
    let n: usize = url.unicode_len();
    let mut i: usize = 0;
    while i < n && n - i > 2
        invariant
            i <= n,
            n == url@.len(),
            forall|j: int| 0 <= j < i ==> !#[trigger] mark_at(url@, j),
        decreases n - i,
    {
        if url.get_char(i) == ':' && url.get_char(i + 1) == '/' && url.get_char(i + 2) == '/' {
            assert(first_mark(url@, i as int));
            let r = url.substring_char(0, i);
            assert(r@ =~= url@.take(i as int));
            return r;
        }
        i += 1;
    }
    assert forall|j: int| !#[trigger] mark_at(url@, j) by {
        if mark_at(url@, j) {
            assert(j < i);
        }
    }
    "file"
}

/// How an address is opened.
#[derive(Debug, Clone, Copy, PartialEq, Eq, Structural)]
pub enum Opening {
    /// By the registered protocol at a place.
    Registered(usize),
    /// As a file that is made or emptied.
    CreateFile,
    /// As a file that exists.
    OpenFile,
}

/// How an address is opened: by the first protocol that has the name of its scheme, and as a file
/// where none has.
pub fn choose_opening(registered: &[&str], url: &str, flags: ProtocolFlags) -> (r: Opening)
    ensures
        exists|scheme: Seq<char>| #[trigger]
            is_scheme(url@, scheme) && match r {
                Opening::Registered(i) => i < registered@.len() && registered@[i as int]@ == scheme
                    && forall|j: int| 0 <= j < i ==> (#[trigger] registered@[j])@ != scheme,
                Opening::CreateFile => flags.write && forall|j: int|
                    0 <= j < registered@.len() ==> (#[trigger] registered@[j])@ != scheme,
                Opening::OpenFile => !flags.write && forall|j: int|
                    0 <= j < registered@.len() ==> (#[trigger] registered@[j])@ != scheme,
            },
{
    let scheme = scheme_of(url);
    let mut i: usize = 0;
    while i < registered.len()
        invariant
            i <= registered@.len(),
            is_scheme(url@, scheme@),
            forall|j: int| 0 <= j < i ==> (#[trigger] registered@[j])@ != scheme@,
        decreases registered@.len() - i,
    {
        if same_text(registered[i], scheme) {
            return Opening::Registered(i);
        }
        i += 1;
    }
    if flags.write {
        Opening::CreateFile
    } else {
        Opening::OpenFile
    }
}

/// An address has one scheme.
pub proof fn law_one_scheme(url: Seq<char>, a: Seq<char>, b: Seq<char>)
    requires
        is_scheme(url, a),
        is_scheme(url, b),
    ensures
        a == b,
{
    if exists|i: int| #[trigger] mark_at(url, i) {
        let i = choose|i: int| #[trigger] first_mark(url, i) && a == url.take(i);
        let j = choose|j: int| #[trigger] first_mark(url, j) && b == url.take(j);
        assert(mark_at(url, i) && mark_at(url, j));
        assert(i == j);
    }
}

} // verus!
