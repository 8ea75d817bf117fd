//! The secondary lookup index: title to position in the record sequence.

use vstd::prelude::*;

verus! {

/// The mapping that a sequence of (title, position) entries denotes;
/// a later entry for a title overrides an earlier one.
pub open spec fn entries_map(s: Seq<(Seq<char>, int)>) -> Map<Seq<char>, int>
    decreases s.len(),
{
    if s.len() == 0 {
        Map::empty()
    } else {
        entries_map(s.drop_last()).insert(s.last().0, s.last().1)
    }
}

/// The mathematical pairs held by a sequence of entries.
pub open spec fn entry_views(s: Seq<(String, usize)>) -> Seq<(Seq<char>, int)> {
    s.map_values(|e: (String, usize)| (e.0@, e.1 as int))
}

/// Mapping from a record's title to a position in the record sequence.
/// Entries accumulate in insertion order; the latest entry for a title wins.
pub struct TitleIndex {
    entries: Vec<(String, usize)>,
}

impl View for TitleIndex {
    type V = Map<Seq<char>, int>;

    closed spec fn view(&self) -> Map<Seq<char>, int> {
        entries_map(entry_views(self.entries@))
    }
}

/// A key that occurs in no entry is absent from the denoted mapping.
proof fn lemma_absent(s: Seq<(Seq<char>, int)>, key: Seq<char>)
    requires
        forall|j: int| 0 <= j < s.len() ==> (#[trigger] s[j]).0 != key,
    ensures
        !entries_map(s).contains_key(key),
    decreases s.len(),
{
    if s.len() > 0 {
        lemma_absent(s.drop_last(), key);
    }
}

/// The latest entry holding a key gives that key's value in the denoted mapping.
proof fn lemma_found(s: Seq<(Seq<char>, int)>, key: Seq<char>, i: int)
    requires
        0 <= i < s.len(),
        s[i].0 == key,
        forall|j: int| i < j < s.len() ==> (#[trigger] s[j]).0 != key,
    ensures
        entries_map(s).contains_key(key),
        entries_map(s)[key] == s[i].1,
    decreases s.len(),
{
    if i == s.len() - 1 {
    } else {
        lemma_found(s.drop_last(), key, i);
    }
}

impl TitleIndex {
    /// An index holding no entries.
    pub fn new() -> (r: TitleIndex)
        ensures
            r@ == Map::<Seq<char>, int>::empty(),
    {
        let r = TitleIndex { entries: Vec::new() };
        proof {
            assert(entry_views(r.entries@) =~= Seq::<(Seq<char>, int)>::empty());
        }
        r
    }

    /// Looks a title up; the latest inserted position for that title is returned.
    pub fn get(&self, key: &String) -> (r: Option<usize>)
        ensures
            match r {
                Some(p) => self@.contains_key(key@) && p as int == self@[key@],
                None => !self@.contains_key(key@),
            },
    {
        let mut i: usize = self.entries.len();
        while i > 0
            invariant
                i <= self.entries.len(),
                forall|j: int|
                    i <= j < self.entries@.len() ==> (#[trigger] entry_views(self.entries@)[j]).0
                        != key@,
            decreases i,
        {
            i -= 1;
            if self.entries[i].0 == *key {
                proof {
                    assert(entry_views(self.entries@)[i as int].0 == key@);
                    lemma_found(entry_views(self.entries@), key@, i as int);
                }
                return Some(self.entries[i].1);
            }
            proof {
                assert(entry_views(self.entries@)[i as int].0 == self.entries@[i as int].0@);
            }
        }
        proof {
            lemma_absent(entry_views(self.entries@), key@);
        }
        None
    }

    /// Records that a title now stands at the given position, overriding
    /// whatever the title was mapped to before.
    pub fn insert(&mut self, key: String, pos: usize)
        ensures
            final(self)@ == old(self)@.insert(key@, pos as int),
    {
        let ghost before = self.entries@;
        self.entries.push((key, pos));
        proof {
            assert(entry_views(self.entries@).drop_last() =~= entry_views(before));
            assert(entry_views(self.entries@).last() == (key@, pos as int));
        }
    }

    /// Drops every entry.
    pub fn clear(&mut self)
        ensures
            final(self)@ == Map::<Seq<char>, int>::empty(),
    {
        self.entries.clear();
        proof {
            assert(entry_views(self.entries@) =~= Seq::<(Seq<char>, int)>::empty());
        }
    }
}

} // verus!
