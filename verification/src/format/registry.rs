//! The choice among registered formats.
use vstd::prelude::*;
use vstd::string::*;

use crate::common::text::same_text;
use crate::format::demuxer::InputFormatDescriptor;
use crate::format::muxer::OutputFormatDescriptor;

verus! {

/// What a format makes of some data: its score, and the priority of the format.
#[derive(Debug, Clone, Copy, PartialEq, Eq, Structural)]
pub struct Probed {
    pub score: i32,
    pub priority: i32,
}

/// Whether the format at `i` is to be preferred to the one at `j`: it has the higher score, or the
/// same score and the higher priority, or both the same and comes first.
pub open spec fn preferred(s: Seq<Probed>, i: int, j: int) -> bool {
    s[i].score > s[j].score || (s[i].score == s[j].score && (s[i].priority > s[j].priority || (
    s[i].priority == s[j].priority && i <= j)))
}

/// The place of the best of the formats that recognize some data.
pub fn probe(probed: &[Probed]) -> (r: Option<usize>)
    ensures
        match r {
            Some(i) => {
                &&& i < probed@.len()
                &&& probed@[i as int].score > 0
                &&& forall|j: int|
                    0 <= j < probed@.len() && (#[trigger] probed@[j]).score > 0 ==> preferred(
                        probed@,
                        i as int,
                        j,
                    )
            },
            None => forall|j: int| 0 <= j < probed@.len() ==> (#[trigger] probed@[j]).score <= 0,
        },
{
    let mut best: Option<usize> = None;
    let mut i: usize = 0;
    while i < probed.len()
        invariant
            i <= probed@.len(),
            match best {
                Some(b) => b < i && probed@[b as int].score > 0 && forall|j: int|
                    0 <= j < i && (#[trigger] probed@[j]).score > 0 ==> preferred(
                        probed@,
                        b as int,
                        j,
                    ),
                None => forall|j: int| 0 <= j < i ==> (#[trigger] probed@[j]).score <= 0,
            },
        decreases probed@.len() - i,
    {
        let p = probed[i];
        if p.score > 0 {
            let better = match best {
                Some(b) => p.score > probed[b].score || (p.score == probed[b].score && p.priority
                    > probed[b].priority),
                None => true,
            };
            if better {
                best = Some(i);
            }
        }
        i += 1;
    }
    best
}

/// Whether the demuxer at `i` is the first of a name.
pub open spec fn first_demuxer_named(d: Seq<InputFormatDescriptor>, name: Seq<char>, i: int) -> bool {
    &&& 0 <= i < d.len()
    &&& d[i].name@ == name
    &&& forall|j: int| 0 <= j < i ==> (#[trigger] d[j]).name@ != name
}

/// The place of the first demuxer of a name.
pub fn find_demuxer_by_name(registered: &[InputFormatDescriptor], name: &str) -> (r: Option<usize>)
    ensures
        match r {
            Some(i) => first_demuxer_named(registered@, name@, i as int),
            None => forall|j: int|
                0 <= j < registered@.len() ==> (#[trigger] registered@[j]).name@ != name@,
        },
{
    let mut i: usize = 0;
    while i < registered.len()
        invariant
            i <= registered@.len(),
            forall|j: int| 0 <= j < i ==> (#[trigger] registered@[j]).name@ != name@,
        decreases registered@.len() - i,
    {
        if same_text(registered[i].name, name) {
            return Some(i);
        }
        i += 1;
    }
    None
}

/// Whether the muxer at `i` is the first of a name.
pub open spec fn first_muxer_named(d: Seq<OutputFormatDescriptor>, name: Seq<char>, i: int) -> bool {
    &&& 0 <= i < d.len()
    &&& d[i].name@ == name
    &&& forall|j: int| 0 <= j < i ==> (#[trigger] d[j]).name@ != name
}

/// The place of the first muxer of a name.
pub fn find_muxer_by_name(registered: &[OutputFormatDescriptor], name: &str) -> (r: Option<usize>)
    ensures
        match r {
            Some(i) => first_muxer_named(registered@, name@, i as int),
            None => forall|j: int|
                0 <= j < registered@.len() ==> (#[trigger] registered@[j]).name@ != name@,
        },
{
    let mut i: usize = 0;
    while i < registered.len()
        invariant
            i <= registered@.len(),
            forall|j: int| 0 <= j < i ==> (#[trigger] registered@[j]).name@ != name@,
        decreases registered@.len() - i,
    {
        if same_text(registered[i].name, name) {
            return Some(i);
        }
        i += 1;
    }
    None
}

/// Whether a character is white space.
pub open spec fn is_space(c: char) -> bool {
    let n = c as u32;
    9 <= n <= 13 || n == 32 || n == 0x85 || n == 0xA0 || n == 0x1680 || 0x2000 <= n <= 0x200A || n
        == 0x2028 || n == 0x2029 || n == 0x202F || n == 0x205F || n == 0x3000
}

fn space(c: char) -> (r: bool)
    ensures
        r == is_space(c),
{
    let n: u32 = c as u32;
    (9 <= n && n <= 13) || n == 32 || n == 0x85 || n == 0xA0 || n == 0x1680 || (0x2000 <= n && n
        <= 0x200A) || n == 0x2028 || n == 0x2029 || n == 0x202F || n == 0x205F || n == 0x3000
}

/// A text without the white space at its start.
pub open spec fn trim_start(s: Seq<char>) -> Seq<char>
    decreases s.len(),
{
    if s.len() > 0 && is_space(s[0]) {
        trim_start(s.skip(1))
    } else {
        s
    }
}

/// A text without the white space at its end.
pub open spec fn trim_end(s: Seq<char>) -> Seq<char>
    decreases s.len(),
{
    if s.len() > 0 && is_space(s.last()) {
        trim_end(s.drop_last())
    } else {
        s
    }
}

/// Where the first comma of a text is, or its length where there is none.
pub open spec fn comma_at(s: Seq<char>) -> nat
    decreases s.len(),
{
    if s.len() == 0 || s[0] == ',' {
        0
    } else {
        1 + comma_at(s.skip(1))
    }
}

/// Whether a text is the small-letter form of another.
pub open spec fn is_lower_of(s: Seq<char>, t: Seq<char>) -> bool {
    s.len() == t.len() && forall|i: int|
        0 <= i < s.len() ==> (#[trigger] s[i]) as u32 == crate::common::metadata::folded(t[i])
}

/// Whether one of the parts of a list, which commas separate, is an extension in small letters.
pub open spec fn lists(list: Seq<char>, ext: Seq<char>) -> bool
    decreases list.len(),
{
    let k = comma_at(list) as int;
    if k >= list.len() {
        is_lower_of(trim_end(trim_start(list)), ext)
    } else {
        is_lower_of(trim_end(trim_start(list.take(k))), ext) || lists(list.skip(k + 1), ext)
    }
}

fn chars_of(s: &str) -> (r: Vec<char>)
    ensures
        r@ == s@,
{
    let n: usize = s.unicode_len();
    let mut r: Vec<char> = Vec::new();
    let mut i: usize = 0;
    while i < n
        invariant
            i <= n,
            n == s@.len(),
            r@ == s@.take(i as int),
        decreases n - i,
    {
        r.push(s.get_char(i));
        i += 1;
        assert(r@ =~= s@.take(i as int));
    }
    assert(s@.take(n as int) =~= s@);
    r
}

fn folded_number(c: char) -> (r: u32)
    ensures
        r == crate::common::metadata::folded(c),
{
    let n: u32 = c as u32;
    if 65 <= n && n <= 90 {
        n + 32
    } else {
        n
    }
}

fn part_is(list: &Vec<char>, from: usize, to: usize, ext: &Vec<char>) -> (r: bool)
    requires
        from <= to <= list@.len(),
    ensures
        r == is_lower_of(trim_end(trim_start(list@.subrange(from as int, to as int))), ext@),
{
    let ghost whole = list@.subrange(from as int, to as int);
    let mut a: usize = from;
    while a < to && space(list[a])
        invariant
            from <= a <= to <= list@.len(),
            trim_start(list@.subrange(a as int, to as int)) == trim_start(whole),
        decreases to - a,
    {
        assert(list@.subrange(a as int, to as int).skip(1) =~= list@.subrange(a + 1, to as int));
        a += 1;
    }
    let ghost rest = list@.subrange(a as int, to as int);
    assert(rest == trim_start(whole));
    let mut b: usize = to;
    while b > a && space(list[b - 1])
        invariant
            from <= a <= b <= to <= list@.len(),
            trim_end(list@.subrange(a as int, b as int)) == trim_end(rest),
        decreases b,
    {
        assert(list@.subrange(a as int, b as int).drop_last() =~= list@.subrange(
            a as int,
            b - 1,
        ));
        b -= 1;
    }
    let ghost part = list@.subrange(a as int, b as int);
    assert(part == trim_end(rest));
    if b - a != ext.len() {
        return false;
    }
    let mut i: usize = 0;
    while i < ext.len()
        invariant
            i <= ext@.len(),
            a <= b <= list@.len(),
            ext@.len() == b - a,
            part == list@.subrange(a as int, b as int),
            part == trim_end(trim_start(list@.subrange(from as int, to as int))),
            forall|j: int|
                0 <= j < i ==> (#[trigger] part[j]) as u32 == crate::common::metadata::folded(
                    ext@[j],
                ),
        decreases ext@.len() - i,
    {
        assert(part[i as int] == list@[a + i]);
        if list[a + i] as u32 != folded_number(ext[i]) {
            return false;
        }
        i += 1;
    }
    true
}

fn list_holds(list: &Vec<char>, ext: &Vec<char>) -> (r: bool)
    ensures
        r == lists(list@, ext@),
{
    let mut from: usize = 0;
    assert(list@.skip(0) =~= list@);
    loop
        invariant
            from <= list@.len(),
            lists(list@, ext@) == lists(list@.skip(from as int), ext@),
        decreases list@.len() - from,
    {
        let ghost left = list@.skip(from as int);
        let mut to: usize = from;
        while to < list.len() && list[to] != ','
            invariant
                from <= to <= list@.len(),
                left == list@.skip(from as int),
                comma_at(left) == (to - from) + comma_at(list@.skip(to as int)),
            decreases list@.len() - to,
        {
            assert(list@.skip(to as int).skip(1) =~= list@.skip(to + 1));
            to += 1;
        }
        assert(comma_at(left) == to - from);
        assert(list@.subrange(from as int, to as int) =~= left.take(to - from));
        if part_is(list, from, to, ext) {
            assert(to == list@.len() ==> left.take(to - from) =~= left);
            return true;
        }
        if to == list.len() {
            assert(left.take(to - from) =~= left);
            return false;
        }
        assert(left.skip(to - from + 1) =~= list@.skip(to + 1));
        from = to + 1;
    }
}

/// The place of the first muxer for an extension, whatever the case of its letters.
pub fn guess_muxer_by_extension(registered: &[OutputFormatDescriptor], ext: &str) -> (r: Option<
    usize,
>)
    ensures
        match r {
            Some(i) => i < registered@.len() && lists(registered@[i as int].extensions@, ext@)
                && forall|j: int|
                0 <= j < i ==> !lists((#[trigger] registered@[j]).extensions@, ext@),
            None => forall|j: int|
                0 <= j < registered@.len() ==> !lists((#[trigger] registered@[j]).extensions@, ext@),
        },
{
    let wanted = chars_of(ext);
    let mut i: usize = 0;
    while i < registered.len()
        invariant
            i <= registered@.len(),
            wanted@ == ext@,
            forall|j: int| 0 <= j < i ==> !lists((#[trigger] registered@[j]).extensions@, ext@),
        decreases registered@.len() - i,
    {
        let list = chars_of(registered[i].extensions);
        if list_holds(&list, &wanted) {
            return Some(i);
        }
        i += 1;
    }
    None
}

} // verus!
