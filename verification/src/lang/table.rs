//! A small name-to-byte table with a `Map` view, used for both the symbol
//! table (variable name to memory cell) and the label table (label name to
//! instruction index).

use vstd::prelude::*;

use crate::lang::text::eq_bytes;

verus! {

/// The map an entry list denotes; later entries shadow earlier ones.
pub open spec fn entries_map(s: Seq<(Vec<u8>, u8)>) -> Map<Seq<u8>, u8>
    decreases s.len(),
{
    if s.len() == 0 {
        Map::empty()
    } else {
        entries_map(s.drop_last()).insert(s.last().0@, s.last().1)
    }
}

/// No two entries share a key.
pub open spec fn distinct_keys(s: Seq<(Vec<u8>, u8)>) -> bool {
    forall|i: int, j: int| 0 <= i < j < s.len() ==> (#[trigger] s[i]).0@ != (#[trigger] s[j]).0@
}

/// A key is in the map exactly when some entry holds it.
proof fn lemma_map_domain(s: Seq<(Vec<u8>, u8)>, k: Seq<u8>)
    ensures
        entries_map(s).contains_key(k) <==> exists|i: int|
            0 <= i < s.len() && (#[trigger] s[i]).0@ == k,
    decreases s.len(),
{
    if s.len() > 0 {
        lemma_map_domain(s.drop_last(), k);
        if entries_map(s).contains_key(k) && s.last().0@ != k {
            let i = choose|i: int| 0 <= i < s.drop_last().len() && (#[trigger] s.drop_last()[i]).0@
                == k;
            assert(s[i].0@ == k);
        }
        if exists|i: int| 0 <= i < s.len() && (#[trigger] s[i]).0@ == k {
            let i = choose|i: int| 0 <= i < s.len() && (#[trigger] s[i]).0@ == k;
            if i < s.len() - 1 {
                assert(s.drop_last()[i].0@ == k);
            }
        }
    }
}

/// With distinct keys, each entry gives its key's value in the map.
proof fn lemma_map_value(s: Seq<(Vec<u8>, u8)>, i: int)
    requires
        distinct_keys(s),
        0 <= i < s.len(),
    ensures
        entries_map(s).contains_key(s[i].0@),
        entries_map(s)[s[i].0@] == s[i].1,
    decreases s.len(),
{
    if i == s.len() - 1 {
    } else {
        assert(distinct_keys(s.drop_last())) by {
            assert(forall|p: int, q: int|
                0 <= p < q < s.drop_last().len() ==> (#[trigger] s.drop_last()[p]).0@ != (
                #[trigger] s.drop_last()[q]).0@) by {
                assert(forall|p: int|
                    0 <= p < s.drop_last().len() ==> #[trigger] s.drop_last()[p] == s[p]);
            }
        }
        assert(s.drop_last()[i] == s[i]);
        lemma_map_value(s.drop_last(), i);
        assert(s.last().0@ != s[i].0@);
    }
}

/// Updating an entry in place updates its key in the map.
proof fn lemma_map_update(s: Seq<(Vec<u8>, u8)>, i: int, e: (Vec<u8>, u8))
    requires
        distinct_keys(s),
        0 <= i < s.len(),
        s[i].0@ == e.0@,
    ensures
        entries_map(s.update(i, e)) =~= entries_map(s).insert(e.0@, e.1),
        distinct_keys(s.update(i, e)),
    decreases s.len(),
{
    let su = s.update(i, e);
    assert(forall|p: int, q: int|
        0 <= p < q < su.len() ==> (#[trigger] su[p]).0@ != (#[trigger] su[q]).0@);
    if i == s.len() - 1 {
        assert(su.drop_last() =~= s.drop_last());
    } else {
        assert(distinct_keys(s.drop_last())) by {
            assert(forall|p: int|
                0 <= p < s.drop_last().len() ==> #[trigger] s.drop_last()[p] == s[p]);
        }
        assert(su.drop_last() =~= s.drop_last().update(i, e));
        lemma_map_update(s.drop_last(), i, e);
        assert(su.last() == s.last());
        assert(s.last().0@ != e.0@);
    }
}

/// Name-to-byte table; lookups return the value of the unique entry with
/// the given name.
pub struct NameTable {
    entries: Vec<(Vec<u8>, u8)>,
}

impl View for NameTable {
    type V = Map<Seq<u8>, u8>;

    closed spec fn view(&self) -> Map<Seq<u8>, u8> {
        entries_map(self.entries@)
    }
}

impl NameTable {
    pub closed spec fn wf(self) -> bool {
        distinct_keys(self.entries@)
    }

    pub fn new() -> (r: NameTable)
        ensures
            r@ =~= Map::<Seq<u8>, u8>::empty(),
            r.wf(),
    {
        NameTable { entries: Vec::new() }
    }

    /// The value bound to `name`, if any.
    pub fn get(&self, name: &[u8]) -> (r: Option<u8>)
        requires
            self.wf(),
        ensures
            r == if self@.contains_key(name@) {
                Some(self@[name@])
            } else {
                None::<u8>
            },
    {
        let mut i: usize = 0;
        while i < self.entries.len()
            invariant
                self.wf(),
                i <= self.entries@.len(),
                forall|k: int| 0 <= k < i ==> (#[trigger] self.entries@[k]).0@ != name@,
            decreases self.entries.len() - i,
        {
            if eq_bytes(self.entries[i].0.as_slice(), name) {
                proof {
                    lemma_map_value(self.entries@, i as int);
                }
                return Some(self.entries[i].1);
            }
            i = i + 1;
        }
        proof {
            lemma_map_domain(self.entries@, name@);
        }
        None
    }

    /// Binds `name` to `v`, replacing any earlier binding.
    pub fn set(&mut self, name: Vec<u8>, v: u8)
        requires
            old(self).wf(),
        ensures
            final(self).wf(),
            final(self)@ == old(self)@.insert(name@, v),
    {
        let mut i: usize = 0;
        while i < self.entries.len()
            invariant
                *self == *old(self),
                self.wf(),
                i <= self.entries@.len(),
                forall|k: int| 0 <= k < i ==> (#[trigger] self.entries@[k]).0@ != name@,
            decreases self.entries.len() - i,
        {
            if eq_bytes(self.entries[i].0.as_slice(), name.as_slice()) {
                proof {
                    lemma_map_update(self.entries@, i as int, (name, v));
                }
                self.entries[i] = (name, v);
                return ;
            }
            i = i + 1;
        }
        proof {
            let s = self.entries@.push((name, v));
            assert(s.drop_last() =~= self.entries@);
            assert(forall|p: int, q: int|
                0 <= p < q < s.len() ==> (#[trigger] s[p]).0@ != (#[trigger] s[q]).0@);
        }
        self.entries.push((name, v));
    }
}

} // verus!
