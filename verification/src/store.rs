//! The key-value backend the log appends to: an in-memory byte-key to
//! byte-value store kept as a write-ordered list of entries, read through
//! a `Map` model. A later write to a key overrides an earlier one on
//! read, so the model of `put` is exactly `Map::insert`.

use vstd::prelude::*;

verus! {

/// The map read off a list of key/value entries, left to right: a later
/// entry for a key overrides an earlier one.
pub open spec fn entries_map(s: Seq<(Vec<u8>, Vec<u8>)>) -> Map<Seq<u8>, Seq<u8>>
    decreases s.len(),
{
    if s.len() == 0 {
        Map::empty()
    } else {
        entries_map(s.drop_last()).insert(s.last().0@, s.last().1@)
    }
}

/// A key that no entry of `s` carries is not in the map of `s`.
proof fn lemma_entries_map_no_match(s: Seq<(Vec<u8>, Vec<u8>)>, k: Seq<u8>)
    requires
        forall|j: int| 0 <= j < s.len() ==> (#[trigger] s[j].0)@ != k,
    ensures
        !entries_map(s).contains_key(k),
    decreases s.len(),
{
    if s.len() > 0 {
        lemma_entries_map_no_match(s.drop_last(), k);
    }
}

/// The map of `s` sends a key to the value of the last entry that
/// carries it.
proof fn lemma_entries_map_last_match(s: Seq<(Vec<u8>, Vec<u8>)>, k: Seq<u8>, i: int)
    requires
        0 <= i < s.len(),
        s[i].0@ == k,
        forall|j: int| i < j < s.len() ==> (#[trigger] s[j].0)@ != k,
    ensures
        entries_map(s).contains_key(k),
        entries_map(s)[k] == s[i].1@,
    decreases s.len(),
{
    if i == s.len() - 1 {
    } else {
        lemma_entries_map_last_match(s.drop_last(), k, i);
    }
}

/// Whether two byte strings hold the same bytes.
fn bytes_eq(a: &[u8], b: &[u8]) -> (r: bool)
    ensures
        r <==> a@ == b@,
{
    if a.len() != b.len() {
        return false;
    }
    let mut i: usize = 0;
    while i < a.len()
        invariant
            a@.len() == b@.len(),
            i <= a@.len(),
            forall|j: int| 0 <= j < i ==> a@[j] == b@[j],
        decreases a@.len() - i,
    {
        if a[i] != b[i] {
            return false;
        }
        i += 1;
    }
    proof {
        assert(a@ =~= b@);
    }
    true
}

/// The backend: an ordered byte-key to byte-value store offering `get`
/// and `put`, the only capabilities the log protocol consumes.
pub struct Backend {
    entries: Vec<(Vec<u8>, Vec<u8>)>,
}

impl Backend {
    /// The mathematical contents of the store: the map from keys to the
    /// bytes most recently put under them.
    pub closed spec fn contents(self) -> Map<Seq<u8>, Seq<u8>> {
        entries_map(self.entries@)
    }

    /// A fresh store holds nothing.
    pub fn new() -> (r: Backend)
        ensures
            r.contents() == Map::<Seq<u8>, Seq<u8>>::empty(),
    {
        Backend { entries: Vec::new() }
    }

    /// Stores `value` under `key`, overriding any earlier write to that
    /// key on later reads.
    pub fn put(&mut self, key: Vec<u8>, value: Vec<u8>)
        ensures
            final(self).contents() == old(self).contents().insert(key@, value@),
    {
        let ghost before = self.entries@;
        let ghost k = key@;
        let ghost v = value@;
        self.entries.push((key, value));
        proof {
            assert(self.entries@.drop_last() =~= before);
            assert(self.entries@.last().0@ == k);
        }
    }

    /// Reads the bytes most recently stored under `key`, or nothing if
    /// the key was never written.
    pub fn get(&self, key: &[u8]) -> (r: Option<&Vec<u8>>)
        ensures
            match r {
                Some(v) => self.contents().contains_key(key@) && v@ == self.contents()[key@],
                None => !self.contents().contains_key(key@),
            },
    {
        let mut i: usize = self.entries.len();
        while i > 0
            invariant
                i <= self.entries@.len(),
                forall|j: int| i <= j < self.entries@.len() ==> (#[trigger] self.entries@[j].0)@
                    != key@,
            decreases i,
        {
            i = i - 1;
            let pair = &self.entries[i];
            if bytes_eq(pair.0.as_slice(), key) {
                proof {
                    lemma_entries_map_last_match(self.entries@, key@, i as int);
                }
                return Some(&pair.1);
            }
        }
        proof {
            lemma_entries_map_no_match(self.entries@, key@);
        }
        None
    }
}

} // verus!
