//! Key and value pairs in the order in which they were set.
use vstd::prelude::*;
use vstd::string::*;

verus! {

/// The number of a character, that of the small letter for a capital ASCII letter.
pub open spec fn folded(c: char) -> int {
    let n = c as u32 as int;
    if 65 <= n <= 90 {
        n + 32
    } else {
        n
    }
}

/// Whether two texts differ at most in the case of ASCII letters.
pub open spec fn same_key(a: Seq<char>, b: Seq<char>) -> bool {
    a.len() == b.len() && forall|i: int|
        0 <= i < a.len() ==> folded(#[trigger] a[i]) == folded(b[i])
}

fn folded_number(c: char) -> (r: u32)
    ensures
        r == folded(c),
{
    let n: u32 = c as u32;
    if 65 <= n && n <= 90 {
        n + 32
    } else {
        n
    }
}

fn keys_match(a: &str, b: &str) -> (r: bool)
    ensures
        r == same_key(a@, b@),
{
    let n: usize = a.unicode_len();
    if b.unicode_len() != n {
        return false;
    }
    let mut i: usize = 0;
    while i < n
        invariant
            i <= n,
            n == a@.len(),
            n == b@.len(),
            forall|j: int| 0 <= j < i ==> folded(#[trigger] a@[j]) == folded(b@[j]),
        decreases n - i,
    {
        if folded_number(a.get_char(i)) != folded_number(b.get_char(i)) {
            assert(folded(a@[i as int]) != folded(b@[i as int]));
            return false;
        }
        i += 1;
    }
    true
}

/// A key and its value.
pub type Pair = (Seq<char>, Seq<char>);

/// The place of the first pair of a key, or the length where there is none.
pub open spec fn key_index(s: Seq<Pair>, key: Seq<char>) -> nat
    decreases s.len(),
{
    if s.len() == 0 {
        0
    } else if same_key(s[0].0, key) {
        0
    } else {
        1 + key_index(s.skip(1), key)
    }
}

/// The pairs after a key was set.
pub open spec fn with_pair(s: Seq<Pair>, key: Seq<char>, value: Seq<char>) -> Seq<Pair> {
    let i = key_index(s, key) as int;
    if i < s.len() {
        s.update(i, (s[i].0, value))
    } else {
        s.push((key, value))
    }
}

/// The value of a key, where there is one.
pub open spec fn value_of(s: Seq<Pair>, key: Seq<char>) -> Option<Seq<char>> {
    let i = key_index(s, key) as int;
    if i < s.len() {
        Some(s[i].1)
    } else {
        None
    }
}

/// The pairs after a key was removed.
pub open spec fn without_key(s: Seq<Pair>, key: Seq<char>) -> Seq<Pair> {
    let i = key_index(s, key) as int;
    if i < s.len() {
        s.remove(i)
    } else {
        s
    }
}

/// Whether no two keys are the same.
pub open spec fn keys_differ(s: Seq<Pair>) -> bool {
    forall|i: int, j: int|
        0 <= i < j < s.len() ==> !same_key((#[trigger] s[i]).0, (#[trigger] s[j]).0)
}

/// The place of a key is that of a pair with that key, and no earlier pair has it.
pub proof fn lemma_key_index(s: Seq<Pair>, key: Seq<char>)
    ensures
        key_index(s, key) <= s.len(),
        key_index(s, key) < s.len() ==> same_key(s[key_index(s, key) as int].0, key),
        forall|i: int| 0 <= i < key_index(s, key) ==> !same_key((#[trigger] s[i]).0, key),
    decreases s.len(),
{
    if s.len() > 0 && !same_key(s[0].0, key) {
        let t = s.skip(1);
        lemma_key_index(t, key);
        assert forall|i: int| 0 <= i < key_index(s, key) implies !same_key(
            (#[trigger] s[i]).0,
            key,
        ) by {
            if i > 0 {
                assert(s[i] == t[i - 1]);
            }
        }
    }
}

proof fn lemma_key_index_at(s: Seq<Pair>, key: Seq<char>, k: nat)
    requires
        k <= s.len(),
        k < s.len() ==> same_key(s[k as int].0, key),
        forall|i: int| 0 <= i < k ==> !same_key((#[trigger] s[i]).0, key),
    ensures
        key_index(s, key) == k,
{
    lemma_key_index(s, key);
    let n = key_index(s, key);
    if n < k {
        assert(!same_key(s[n as int].0, key));
    } else if k < n {
        assert(!same_key(s[k as int].0, key));
    }
}

/// Ordered pairs of keys and values, found by their keys whatever the case of ASCII letters.
#[derive(Debug)]
pub struct Metadata {
    entries: Vec<(String, String)>,
}

impl View for Metadata {
    type V = Seq<Pair>;

    closed spec fn view(&self) -> Seq<Pair> {
        self.entries@.map_values(|e: (String, String)| (e.0@, e.1@))
    }
}

impl Clone for Metadata {
    fn clone(&self) -> (r: Metadata)
        ensures
            r@ == self@,
    {
        let mut entries: Vec<(String, String)> = Vec::new();
        let mut i: usize = 0;
        while i < self.entries.len()
            invariant
                i <= self.entries@.len(),
                entries@.len() == i,
                forall|j: int|
                    0 <= j < i ==> (#[trigger] entries@[j]).0@ == self.entries@[j].0@
                        && entries@[j].1@ == self.entries@[j].1@,
            decreases self.entries@.len() - i,
        {
            let entry = &self.entries[i];
            entries.push((entry.0.clone(), entry.1.clone()));
            i += 1;
        }
        let r = Metadata { entries };
        assert(r@ =~= self@);
        r
    }
}

impl Default for Metadata {
    fn default() -> (r: Metadata)
        ensures
            r@ == Seq::<Pair>::empty(),
            keys_differ(r@),
    {
        Metadata::new()
    }
}

impl Metadata {
    /// No pairs.
    pub fn new() -> (r: Metadata)
        ensures
            r@ == Seq::<Pair>::empty(),
            keys_differ(r@),
    {
        let r = Metadata { entries: Vec::new() };
        assert(r@ =~= Seq::<Pair>::empty());
        r
    }

    fn position(&self, key: &str) -> (r: usize)
        ensures
            r == key_index(self@, key@),
            r <= self@.len(),
            self@.len() == self.entries@.len(),
    {
        let mut i: usize = 0;
        while i < self.entries.len()
            invariant
                i <= self.entries@.len(),
                self@.len() == self.entries@.len(),
                forall|j: int| 0 <= j < i ==> !same_key((#[trigger] self@[j]).0, key@),
            decreases self.entries@.len() - i,
        {
            let entry = &self.entries[i];
            assert(self@[i as int] == (entry.0@, entry.1@));
            if keys_match(entry.0.as_str(), key) {
                proof {
                    lemma_key_index_at(self@, key@, i as nat);
                }
                return i;
            }
            i += 1;
        }
        proof {
            lemma_key_index_at(self@, key@, i as nat);
        }
        i
    }

    /// Sets the value of a key. The pair of an existing key keeps its place and its key; a new one
    /// comes last.
    pub fn set(&mut self, key: &str, value: &str)
        ensures
            final(self)@ == with_pair(old(self)@, key@, value@),
            keys_differ(old(self)@) ==> keys_differ(final(self)@),
    {
        proof {
            if keys_differ(self@) {
                law_set_then_get(self@, key@, value@, key@);
            }
        }
        let i: usize = self.position(key);
        let value = value.to_owned();
        if i < self.entries.len() {
            let kept = self.entries[i].0.clone();
            self.entries.set(i, (kept, value));
        } else {
            self.entries.push((key.to_owned(), value));
        }
        assert(self@ =~= with_pair(old(self)@, key@, value@));
    }

    /// The value of a key.
    pub fn get(&self, key: &str) -> (r: Option<&str>)
        ensures
            match r {
                Some(v) => value_of(self@, key@) == Some(v@),
                None => value_of(self@, key@) is None,
            },
    {
        let i: usize = self.position(key);
        if i < self.entries.len() {
            Some(self.entries[i].1.as_str())
        } else {
            None
        }
    }

    /// Removes a key, and returns its value where there was one.
    pub fn remove(&mut self, key: &str) -> (r: Option<String>)
        ensures
            match r {
                Some(v) => value_of(old(self)@, key@) == Some(v@),
                None => value_of(old(self)@, key@) is None,
            },
            final(self)@ == without_key(old(self)@, key@),
            keys_differ(old(self)@) ==> keys_differ(final(self)@),
    {
        proof {
            if keys_differ(self@) {
                law_remove_then_get(self@, key@, key@, key@);
            }
        }
        let i: usize = self.position(key);
        if i < self.entries.len() {
            let (_key, value) = self.entries.remove(i);
            assert(self@ =~= old(self)@.remove(i as int));
            Some(value)
        } else {
            None
        }
    }

    /// The pairs in their order.
    pub fn iter(&self) -> (r: Vec<(&str, &str)>)
        ensures
            r@.len() == self@.len(),
            forall|i: int|
                0 <= i < r@.len() ==> (#[trigger] r@[i]).0@ == self@[i].0 && r@[i].1@ == self@[i].1,
    {
        let mut r: Vec<(&str, &str)> = Vec::new();
        let mut i: usize = 0;
        while i < self.entries.len()
            invariant
                i <= self.entries@.len(),
                self@.len() == self.entries@.len(),
                r@.len() == i,
                forall|j: int|
                    0 <= j < i ==> (#[trigger] r@[j]).0@ == self@[j].0 && r@[j].1@ == self@[j].1,
            decreases self.entries@.len() - i,
        {
            let entry = &self.entries[i];
            r.push((entry.0.as_str(), entry.1.as_str()));
            i += 1;
        }
        r
    }

    /// Number of pairs.
    pub fn len(&self) -> (r: usize)
        ensures
            r == self@.len(),
    {
        self.entries.len()
    }

    /// Whether there are no pairs.
    pub fn is_empty(&self) -> (r: bool)
        ensures
            r == (self@.len() == 0),
    {
        self.entries.len() == 0
    }
}

proof fn lemma_same_key_joins(a: Seq<char>, b: Seq<char>, c: Seq<char>)
    requires
        same_key(a, b),
        same_key(a, c),
    ensures
        same_key(b, c),
{
    assert forall|i: int| 0 <= i < b.len() implies folded(#[trigger] b[i]) == folded(c[i]) by {
        assert(folded(a[i]) == folded(b[i]));
    }
}

proof fn lemma_same_key_flips(a: Seq<char>, b: Seq<char>)
    requires
        same_key(a, b),
    ensures
        same_key(b, a),
{
    assert forall|i: int| 0 <= i < b.len() implies folded(#[trigger] b[i]) == folded(a[i]) by {
        assert(folded(a[i]) == folded(b[i]));
    }
}

/// Setting a key keeps the keys different, gives that key its value, and leaves every other key
/// where it was with the value that it had.
pub proof fn law_set_then_get(s: Seq<Pair>, key: Seq<char>, value: Seq<char>, other: Seq<char>)
    requires
        keys_differ(s),
    ensures
        keys_differ(with_pair(s, key, value)),
        value_of(with_pair(s, key, value), key) == Some(value),
        !same_key(key, other) && key_index(s, other) < s.len() ==> key_index(
            with_pair(s, key, value),
            other,
        ) == key_index(s, other) && with_pair(s, key, value)[key_index(s, other) as int]
            == s[key_index(s, other) as int],
        !same_key(key, other) ==> value_of(with_pair(s, key, value), other) == value_of(s, other),
{
    let t = with_pair(s, key, value);
    let k = key_index(s, key);
    lemma_key_index(s, key);
    if k == s.len() {
        assert forall|i: int, j: int| 0 <= i < j < t.len() implies !same_key(
            (#[trigger] t[i]).0,
            (#[trigger] t[j]).0,
        ) by {
            if j < s.len() {
                assert(!same_key(s[i].0, s[j].0));
            } else {
                assert(!same_key(s[i].0, key));
            }
        }
    } else {
        assert forall|i: int, j: int| 0 <= i < j < t.len() implies !same_key(
            (#[trigger] t[i]).0,
            (#[trigger] t[j]).0,
        ) by {
            assert(!same_key(s[i].0, s[j].0));
        }
    }
    assert forall|i: int| 0 <= i < k implies !same_key((#[trigger] t[i]).0, key) by {
        assert(!same_key(s[i].0, key));
    }
    lemma_key_index_at(t, key, k);
    if !same_key(key, other) {
        let m = key_index(s, other);
        lemma_key_index(s, other);
        if m < s.len() {
            if m == k {
                lemma_same_key_joins(s[k as int].0, key, other);
            }
            assert forall|i: int| 0 <= i < m implies !same_key((#[trigger] t[i]).0, other) by {
                assert(!same_key(s[i].0, other));
            }
            lemma_key_index_at(t, other, m);
        } else {
            assert forall|i: int| 0 <= i < t.len() implies !same_key((#[trigger] t[i]).0, other) by {
                if i < s.len() {
                    assert(!same_key(s[i].0, other));
                }
            }
            lemma_key_index_at(t, other, t.len());
        }
    }
}

/// Removing a key takes its pair away, in whatever case of letters it is written: the key is gone, there
/// is one pair less, and the other pairs keep their order and their values. Where there was no such key,
/// nothing changes.
pub proof fn law_remove_then_get(
    s: Seq<Pair>,
    key: Seq<char>,
    spelling: Seq<char>,
    other: Seq<char>,
)
    requires
        keys_differ(s),
        same_key(key, spelling),
    ensures
        keys_differ(without_key(s, key)),
        value_of(s, spelling) == value_of(s, key),
        without_key(s, spelling) == without_key(s, key),
        value_of(without_key(s, key), spelling) is None,
        value_of(s, key) is None ==> without_key(s, key) == s,
        value_of(s, key) is Some ==> without_key(s, key).len() == s.len() - 1,
        value_of(s, key) is Some ==> forall|i: int|
            0 <= i < s.len() - 1 ==> #[trigger] without_key(s, key)[i] == s[if i < key_index(s, key) {
                i
            } else {
                i + 1
            }],
        !same_key(key, other) ==> value_of(without_key(s, key), other) == value_of(s, other),
{
    let k = key_index(s, key) as int;
    let t = without_key(s, key);
    lemma_key_index(s, key);
    lemma_same_key_flips(key, spelling);
    assert forall|x: Seq<char>| #[trigger] same_key(x, key) <==> same_key(x, spelling) by {
        if same_key(x, key) {
            lemma_same_key_meets(x, key, spelling);
        }
        if same_key(x, spelling) {
            lemma_same_key_meets(x, spelling, key);
        }
    }
    assert forall|i: int| 0 <= i < k implies !same_key((#[trigger] s[i]).0, spelling) by {
        assert(!same_key(s[i].0, key));
    }
    lemma_key_index_at(s, spelling, k as nat);
    if k < s.len() {
        assert forall|i: int, j: int| 0 <= i < j < t.len() implies !same_key(
            (#[trigger] t[i]).0,
            (#[trigger] t[j]).0,
        ) by {
            let a = if i < k {
                i
            } else {
                i + 1
            };
            let b = if j < k {
                j
            } else {
                j + 1
            };
            assert(!same_key(s[a].0, s[b].0));
        }
    }
    assert forall|i: int| 0 <= i < t.len() implies !same_key((#[trigger] t[i]).0, spelling) by {
        if i < k {
            assert(!same_key(s[i].0, key));
        } else {
            assert(!same_key(s[k].0, s[i + 1].0));
            if same_key(t[i].0, key) {
                lemma_same_key_flips(t[i].0, key);
                lemma_same_key_meets(s[k].0, key, t[i].0);
            }
        }
    }
    lemma_key_index_at(t, spelling, t.len());
    if !same_key(key, other) && k < s.len() {
        let m = key_index(s, other) as int;
        lemma_key_index(s, other);
        if m == k {
            lemma_same_key_joins(s[k].0, key, other);
        }
        let at = if m < k {
            m
        } else {
            m - 1
        };
        assert forall|i: int| 0 <= i < at implies !same_key((#[trigger] t[i]).0, other) by {
            let a = if i < k {
                i
            } else {
                i + 1
            };
            assert(!same_key(s[a].0, other));
        }
        lemma_key_index_at(t, other, at as nat);
    }
}

/// Keys that are the same as one key are the same.
proof fn lemma_same_key_meets(a: Seq<char>, b: Seq<char>, c: Seq<char>)
    requires
        same_key(a, b),
        same_key(b, c),
    ensures
        same_key(a, c),
{
    assert forall|i: int| 0 <= i < a.len() implies folded(#[trigger] a[i]) == folded(c[i]) by {
        assert(folded(a[i]) == folded(b[i]));
        assert(folded(b[i]) == folded(c[i]));
    }
}

} // verus!
