//! Options of codecs: keys and values in the order in which they were set.
use vstd::prelude::*;
use vstd::string::*;

use crate::common::text::{parse_i64, same_text};

verus! {

/// An option: its key and its value.
pub type Pair = (Seq<char>, Seq<char>);

/// The place of the first option of a key, or the length where there is none.
pub open spec fn option_index(s: Seq<Pair>, key: Seq<char>) -> nat
    decreases s.len(),
{
    if s.len() == 0 {
        0
    } else if s[0].0 == key {
        0
    } else {
        1 + option_index(s.skip(1), key)
    }
}

/// The options after one was set.
pub open spec fn with_option(s: Seq<Pair>, key: Seq<char>, value: Seq<char>) -> Seq<Pair> {
    let i = option_index(s, key) as int;
    if i < s.len() {
        s.update(i, (key, value))
    } else {
        s.push((key, value))
    }
}

/// The value of a key.
pub open spec fn option_value(s: Seq<Pair>, key: Seq<char>) -> Option<Seq<char>> {
    let i = option_index(s, key) as int;
    if i < s.len() {
        Some(s[i].1)
    } else {
        None
    }
}

/// The truth value that a text stands for.
pub open spec fn bool_of_text(s: Seq<char>) -> Option<bool> {
    if s == "1"@ || s == "true"@ || s == "yes"@ {
        Some(true)
    } else if s == "0"@ || s == "false"@ || s == "no"@ {
        Some(false)
    } else {
        None
    }
}

proof fn lemma_option_index_at(s: Seq<Pair>, key: Seq<char>, k: nat)
    requires
        k <= s.len(),
        k < s.len() ==> s[k as int].0 == key,
        forall|i: int| 0 <= i < k ==> (#[trigger] s[i]).0 != key,
    ensures
        option_index(s, key) == k,
    decreases s.len(),
{
    if k > 0 {
        assert(s[0].0 != key);
        let t = s.skip(1);
        assert forall|i: int| 0 <= i < k - 1 implies (#[trigger] t[i]).0 != key by {
            assert(s[i + 1].0 != key);
        }
        lemma_option_index_at(t, key, (k - 1) as nat);
    }
}

proof fn lemma_option_index(s: Seq<Pair>, key: Seq<char>)
    ensures
        option_index(s, key) <= s.len(),
        option_index(s, key) < s.len() ==> s[option_index(s, key) as int].0 == key,
        forall|i: int| 0 <= i < option_index(s, key) ==> (#[trigger] s[i]).0 != key,
    decreases s.len(),
{
    if s.len() > 0 && s[0].0 != key {
        let t = s.skip(1);
        lemma_option_index(t, key);
        assert forall|i: int| 0 <= i < option_index(s, key) implies (#[trigger] s[i]).0 != key by {
            if i > 0 {
                assert(s[i] == t[i - 1]);
            }
        }
    }
}

/// Options as texts, each to be read by the codec that it is for.
#[derive(Debug, Clone)]
pub struct CodecOptions {
    options: Vec<(String, String)>,
}

impl View for CodecOptions {
    type V = Seq<Pair>;

    closed spec fn view(&self) -> Seq<Pair> {
        self.options@.map_values(|e: (String, String)| (e.0@, e.1@))
    }
}

impl Default for CodecOptions {
    fn default() -> (r: CodecOptions)
        ensures
            r@ == Seq::<Pair>::empty(),
    {
        CodecOptions::new()
    }
}

impl CodecOptions {
    /// No options.
    pub fn new() -> (r: CodecOptions)
        ensures
            r@ == Seq::<Pair>::empty(),
    {
        let r = CodecOptions { options: Vec::new() };
        assert(r@ =~= Seq::<Pair>::empty());
        r
    }

    fn position(&self, key: &str) -> (r: usize)
        ensures
            r == option_index(self@, key@),
            r <= self@.len(),
            self@.len() == self.options@.len(),
            r < self@.len() ==> self@[r as int].0 == key@,
    {
        let mut i: usize = 0;
        while i < self.options.len()
            invariant
                i <= self.options@.len(),
                self@.len() == self.options@.len(),
                forall|j: int| 0 <= j < i ==> (#[trigger] self@[j]).0 != key@,
            decreases self.options@.len() - i,
        {
            let entry = &self.options[i];
            assert(self@[i as int] == (entry.0@, entry.1@));
            if same_text(entry.0.as_str(), key) {
                proof {
                    lemma_option_index_at(self@, key@, i as nat);
                }
                return i;
            }
            i += 1;
        }
        proof {
            lemma_option_index_at(self@, key@, i as nat);
        }
        i
    }

    /// Sets an option. One that is already there keeps its place; a new one comes last.
    pub fn set(&mut self, key: &str, value: &str)
        ensures
            final(self)@ == with_option(old(self)@, key@, value@),
    {
        let i: usize = self.position(key);
        let pair = (key.to_owned(), value.to_owned());
        if i < self.options.len() {
            self.options.set(i, pair);
        } else {
            self.options.push(pair);
        }
        assert(self@ =~= with_option(old(self)@, key@, value@));
    }

    /// The value of a key.
    pub fn get(&self, key: &str) -> (r: Option<&str>)
        ensures
            match r {
                Some(v) => option_value(self@, key@) == Some(v@),
                None => option_value(self@, key@) is None,
            },
    {
        let i: usize = self.position(key);
        if i < self.options.len() {
            Some(self.options[i].1.as_str())
        } else {
            None
        }
    }

    /// The value of a key, where it is a decimal number.
    pub fn get_i64(&self, key: &str) -> (r: Option<i64>)
        ensures
            r == (match option_value(self@, key@) {
                Some(v) => crate::common::text::parse_i64_spec(v),
                None => None,
            }),
    {
        match self.get(key) {
            Some(v) => parse_i64(v),
            None => None,
        }
    }

    /// The value of a key, where it stands for a truth value.
    pub fn get_bool(&self, key: &str) -> (r: Option<bool>)
        ensures
            r == (match option_value(self@, key@) {
                Some(v) => bool_of_text(v),
                None => None,
            }),
    {
        match self.get(key) {
            Some(v) => if same_text(v, "1") || same_text(v, "true") || same_text(v, "yes") {
                Some(true)
            } else if same_text(v, "0") || same_text(v, "false") || same_text(v, "no") {
                Some(false)
            } else {
                None
            },
            None => None,
        }
    }

    /// The options in their order.
    pub fn iter(&self) -> (r: Vec<(&str, &str)>)
        ensures
            r@.len() == self@.len(),
            forall|i: int|
                0 <= i < r@.len() ==> (#[trigger] r@[i]).0@ == self@[i].0 && r@[i].1@ == self@[i].1,
    {
        let mut r: Vec<(&str, &str)> = Vec::new();
        let mut i: usize = 0;
        while i < self.options.len()
            invariant
                i <= self.options@.len(),
                self@.len() == self.options@.len(),
                r@.len() == i,
                forall|j: int|
                    0 <= j < i ==> (#[trigger] r@[j]).0@ == self@[j].0 && r@[j].1@ == self@[j].1,
            decreases self.options@.len() - i,
        {
            let entry = &self.options[i];
            r.push((entry.0.as_str(), entry.1.as_str()));
            i += 1;
        }
        r
    }

    /// Whether there are no options.
    pub fn is_empty(&self) -> (r: bool)
        ensures
            r == (self@.len() == 0),
    {
        self.options.len() == 0
    }
}

/// A key that was set has its value, and every other key the value that it had.
pub proof fn law_option_set_then_get(
    s: Seq<Pair>,
    key: Seq<char>,
    value: Seq<char>,
    other: Seq<char>,
)
    ensures
        option_value(with_option(s, key, value), key) == Some(value),
        other != key ==> option_value(with_option(s, key, value), other) == option_value(s, other),
{
    let t = with_option(s, key, value);
    let k = option_index(s, key);
    lemma_option_index(s, key);
    assert forall|i: int| 0 <= i < k implies (#[trigger] t[i]).0 != key by {
        assert(s[i].0 != key);
    }
    lemma_option_index_at(t, key, k);
    if other != key {
        let m = option_index(s, other);
        lemma_option_index(s, other);
        let n = if m < s.len() {
            m
        } else {
            t.len()
        };
        assert forall|i: int| 0 <= i < n implies (#[trigger] t[i]).0 != other by {
            if i < s.len() {
                assert(s[i].0 != other || i >= m);
            }
        }
        lemma_option_index_at(t, other, n);
    }
}

/// Setting an option again leaves the order of the options.
pub proof fn law_option_keeps_place(s: Seq<Pair>, key: Seq<char>, value: Seq<char>, i: int)
    requires
        0 <= i < s.len(),
    ensures
        with_option(s, key, value)[i].0 == s[i].0,
{
    lemma_option_index(s, key);
}

} // verus!
