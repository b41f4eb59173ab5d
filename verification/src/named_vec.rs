//! A list of named values that keeps the order of insertion.

use vstd::prelude::*;
use vstd::string::*;

use crate::text::bytes_eq;

verus! {

/// Named values in the order they were inserted; a name may occur more than
/// once, and a lookup finds its first occurrence.
#[derive(Debug)]
pub struct NamedVec<T> {
    pub values: Vec<(String, T)>,
}

/// The place of the first value named `name`.
pub open spec fn first_named<T>(v: Seq<(String, T)>, name: Seq<char>) -> Option<int>
    decreases v.len(),
{
    if v.len() == 0 {
        None
    } else if v[0].0@ == name {
        Some(0)
    } else {
        match first_named(v.drop_first(), name) {
            Some(i) => Some(i + 1),
            None => None,
        }
    }
}

proof fn lemma_first_named<T>(v: Seq<(String, T)>, name: Seq<char>, k: int)
    requires
        0 <= k <= v.len(),
        forall|j: int| 0 <= j < k ==> v[j].0@ != name,
    ensures
        first_named(v, name) == match first_named(v.skip(k), name) {
            Some(i) => Some(i + k),
            None => None,
        },
    decreases k,
{
    if k > 0 {
        assert(v.skip(1) =~= v.drop_first());
        assert(v.drop_first().skip(k - 1) =~= v.skip(k));
        lemma_first_named(v.drop_first(), name, k - 1);
    } else {
        assert(v.skip(0) =~= v);
    }
}

/// Whether two strings are equal, compared by their bytes.
fn same_name(a: &str, b: &str) -> (r: bool)
    ensures
        r == (a@ == b@),
{
    let r = bytes_eq(a.as_bytes(), b.as_bytes());
    proof {
        vstd::utf8::encode_utf8_decode_utf8(a@);
        vstd::utf8::encode_utf8_decode_utf8(b@);
    }
    r
}

impl<T> NamedVec<T> {
    pub fn new() -> (r: Self)
        ensures
            r.values@.len() == 0,
    {
        NamedVec { values: Vec::new() }
    }

    pub fn with_capacity(capacity: usize) -> (r: Self)
        ensures
            r.values@.len() == 0,
    {
        NamedVec { values: Vec::with_capacity(capacity) }
    }

    /// The place of the first value named `name`.
    fn position(&self, name: &str) -> (r: Option<usize>)
        ensures
            match r {
                Some(i) => first_named(self.values@, name@) == Some(i as int) && i < self.values@.len(),
                None => first_named(self.values@, name@) is None,
            },
    {
        let mut i: usize = 0;
        while i < self.values.len()
            invariant
                0 <= i <= self.values@.len(),
                forall|j: int| 0 <= j < i ==> self.values@[j].0@ != name@,
            decreases self.values@.len() - i,
        {
            if same_name(self.values[i].0.as_str(), name) {
                proof {
                    lemma_first_named(self.values@, name@, i as int);
                    assert(self.values@.skip(i as int)[0] == self.values@[i as int]);
                }
                return Some(i);
            }
            i = i + 1;
        }
        proof {
            lemma_first_named(self.values@, name@, i as int);
            assert(self.values@.skip(i as int).len() == 0);
        }
        None
    }

    /// The first value named `name`, with its name.
    pub fn get(&self, name: &str) -> (r: Option<&(String, T)>)
        ensures
            match first_named(self.values@, name@) {
                Some(i) => r == Some(&self.values@[i]),
                None => r is None,
            },
    {
        match self.position(name) {
            Some(i) => Some(&self.values[i]),
            None => None,
        }
    }

    /// The first value named `name`, with its name, for changing.
    pub fn get_mut(&mut self, name: &str) -> (r: Option<&mut (String, T)>)
        ensures
            match first_named(old(self).values@, name@) {
                Some(i) => r matches Some(e) && *e == old(self).values@[i] && final(self).values@
                    == old(self).values@.update(i, *final(e)),
                None => r is None && final(self).values@ == old(self).values@,
            },
    {
        match self.position(name) {
            Some(i) => Some(&mut self.values[i]),
            None => None,
        }
    }

    /// Appends a value under `name`.
    pub fn insert(&mut self, name: String, value: T)
        ensures
            final(self).values@ == old(self).values@.push((name, value)),
    {
        self.values.push((name, value));
    }

    /// The names and values, in order.
    pub fn iter(&self) -> (r: Vec<(&str, &T)>)
        ensures
            r@.len() == self.values@.len(),
            forall|i: int|
                0 <= i < r@.len() ==> (#[trigger] r@[i]).0@ == self.values@[i].0@ && r@[i].1
                    == &self.values@[i].1,
    {
        let mut r: Vec<(&str, &T)> = Vec::new();
        let mut i: usize = 0;
        while i < self.values.len()
            invariant
                0 <= i <= self.values@.len(),
                r@.len() == i,
                forall|k: int|
                    0 <= k < i ==> (#[trigger] r@[k]).0@ == self.values@[k].0@ && r@[k].1
                        == &self.values@[k].1,
            decreases self.values@.len() - i,
        {
            let entry = &self.values[i];
            r.push((entry.0.as_str(), &entry.1));
            i = i + 1;
        }
        r
    }
}

} // verus!
