//! The options of a directive: a mapping from option names to values.

use vstd::prelude::*;
use crate::text::{chars_of, copy_text, same_text, string_of};

verus! {

/// A mapping from names to values, where the last value given for a name
/// is the one that counts.
pub struct Options {
    entries: Vec<(Vec<char>, Vec<char>)>,
}

/// The mapping that the first `n` entries make.
pub open spec fn entries_map(entries: Seq<(Vec<char>, Vec<char>)>, n: int) -> Map<
    Seq<char>,
    Seq<char>,
>
    decreases n,
{
    if n <= 0 {
        Map::empty()
    } else {
        entries_map(entries, n - 1).insert(entries[n - 1].0@, entries[n - 1].1@)
    }
}

proof fn lemma_entries_map_skips(entries: Seq<(Vec<char>, Vec<char>)>, n: int, key: Seq<char>)
    requires
        0 < n <= entries.len(),
        entries[n - 1].0@ != key,
    ensures
        entries_map(entries, n).contains_key(key) == entries_map(entries, n - 1).contains_key(key),
        entries_map(entries, n).contains_key(key) ==> entries_map(entries, n)[key] == entries_map(
            entries,
            n - 1,
        )[key],
{
}

proof fn lemma_entries_map_push(
    entries: Seq<(Vec<char>, Vec<char>)>,
    e: (Vec<char>, Vec<char>),
    n: int,
)
    requires
        0 <= n <= entries.len(),
    ensures
        entries_map(entries.push(e), n) == entries_map(entries, n),
    decreases n,
{
    if n > 0 {
        lemma_entries_map_push(entries, e, n - 1);
    }
}

impl View for Options {
    type V = Map<Seq<char>, Seq<char>>;

    closed spec fn view(&self) -> Map<Seq<char>, Seq<char>> {
        entries_map(self.entries@, self.entries@.len() as int)
    }
}

/// The value that `m` gives to `key`, if it gives one.
pub open spec fn value_of(m: Map<Seq<char>, Seq<char>>, key: Seq<char>) -> Option<Seq<char>> {
    if m.contains_key(key) {
        Some(m[key])
    } else {
        None
    }
}

/// The text that an optional borrowed value holds.
pub open spec fn found_view(o: Option<&Vec<char>>) -> Option<Seq<char>> {
    match o {
        Some(v) => Some(v@),
        None => None,
    }
}

impl Options {
    /// The mapping without any name.
    pub fn new() -> (r: Options)
        ensures
            r@ == Map::<Seq<char>, Seq<char>>::empty(),
    {
        Options { entries: Vec::new() }
    }

    /// Gives `key` the value `value`.
    pub fn put(&mut self, key: Vec<char>, value: Vec<char>)
        ensures
            final(self)@ == old(self)@.insert(key@, value@),
    {
        proof {
            lemma_entries_map_push(
                self.entries@,
                (key, value),
                self.entries@.len() as int,
            );
        }
        self.entries.push((key, value));
    }

    /// Gives `key` the value `value`.
    pub fn insert(&mut self, key: String, value: String)
        ensures
            final(self)@ == old(self)@.insert(key@, value@),
    {
        let k = chars_of(key.as_str());
        let v = chars_of(value.as_str());
        self.put(k, v);
    }

    /// The index of the entry that decides the value of `key`.
    fn position(&self, key: &Vec<char>) -> (r: Option<usize>)
        ensures
            match r {
                Some(i) => i < self.entries@.len() && self@.contains_key(key@) && self@[key@]
                    == self.entries@[i as int].1@,
                None => !self@.contains_key(key@),
            },
    {
        let mut n: usize = self.entries.len();
        while n > 0
            invariant
                n <= self.entries.len(),
                self@.contains_key(key@) == entries_map(self.entries@, n as int).contains_key(
                    key@,
                ),
                self@.contains_key(key@) ==> self@[key@] == entries_map(
                    self.entries@,
                    n as int,
                )[key@],
            decreases n,
        {
            if same_text(&self.entries[n - 1].0, key) {
                return Some(n - 1);
            }
            proof {
                lemma_entries_map_skips(self.entries@, n as int, key@);
            }
            n -= 1;
        }
        None
    }

    /// The value of `key`, borrowed, if it has one.
    pub fn lookup(&self, key: &str) -> (r: Option<&Vec<char>>)
        ensures
            found_view(r) == value_of(self@, key@),
    {
        let k = chars_of(key);
        match self.position(&k) {
            Some(i) => Some(&self.entries[i].1),
            None => None,
        }
    }

    /// The value of `key`, if it has one.
    pub fn get(&self, key: &str) -> (r: Option<String>)
        ensures
            match r {
                Some(v) => self@.contains_key(key@) && self@[key@] == v@,
                None => !self@.contains_key(key@),
            },
    {
        match self.lookup(key) {
            Some(v) => Some(string_of(v)),
            None => None,
        }
    }

    /// Whether `key` has a value.
    pub fn contains_key(&self, key: &str) -> (b: bool)
        ensures
            b == self@.contains_key(key@),
    {
        self.lookup(key).is_some()
    }

    /// A copy of this mapping.
    pub fn copy(&self) -> (r: Options)
        ensures
            r@ == self@,
    {
        let mut r = Options::new();
        let mut i: usize = 0;
        while i < self.entries.len()
            invariant
                i <= self.entries.len(),
                r@ == entries_map(self.entries@, i as int),
            decreases self.entries.len() - i,
        {
            let k = copy_text(&self.entries[i].0);
            let v = copy_text(&self.entries[i].1);
            r.put(k, v);
            i += 1;
        }
        r
    }
}

} // verus!
