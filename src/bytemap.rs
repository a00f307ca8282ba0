use crate::bytes::{bytes_eq, copy_bytes};
use crate::order::{compare_bytes, lemma_lex_lt_transitive, lex_lt};
use vstd::prelude::*;

verus! {

/// A finite map keyed by byte strings, kept as a list of entries with
/// distinct keys. Its view is the map those entries describe.
pub struct ByteMap<V> {
    entries: Vec<(Vec<u8>, V)>,
    contents: Ghost<Map<Seq<u8>, V>>,
}

impl<V> View for ByteMap<V> {
    type V = Map<Seq<u8>, V>;

    closed spec fn view(&self) -> Map<Seq<u8>, V> {
        self.contents@
    }
}

impl<V> ByteMap<V> {
    /// Keys are distinct, every entry is in the view, and the view holds
    /// nothing else.
    pub closed spec fn wf(&self) -> bool {
        &&& forall|i: int, j: int|
            0 <= i < self.entries@.len() && 0 <= j < self.entries@.len() && i != j
                ==> self.entries@[i].0@ != self.entries@[j].0@
        &&& forall|i: int|
            0 <= i < self.entries@.len() ==> #[trigger] self.contents@.contains_key(
                self.entries@[i].0@,
            ) && self.contents@[self.entries@[i].0@] == self.entries@[i].1
        &&& forall|k: Seq<u8>|
            #[trigger] self.contents@.contains_key(k) ==> exists|i: int|
                0 <= i < self.entries@.len() && self.entries@[i].0@ == k
    }

    pub fn new() -> (r: Self)
        ensures
            r.wf(),
            r@ == Map::<Seq<u8>, V>::empty(),
    {
        ByteMap { entries: Vec::new(), contents: Ghost(Map::empty()) }
    }

    fn find(&self, key: &[u8]) -> (r: Option<usize>)
        requires
            self.wf(),
        ensures
            r.is_none() <==> !self@.contains_key(key@),
            r.is_some() ==> r.unwrap() < self.entries@.len() && self.entries@[r.unwrap() as int].0@
                == key@,
    {
        let mut i: usize = 0;
        while i < self.entries.len()
            invariant
                self.wf(),
                i <= self.entries@.len(),
                forall|j: int| 0 <= j < i ==> self.entries@[j].0@ != key@,
            decreases self.entries@.len() - i,
        {
            if bytes_eq(self.entries[i].0.as_slice(), key) {
                return Some(i);
            }
            i = i + 1;
        }
        None
    }

    pub fn len(&self) -> (r: usize)
        requires
            self.wf(),
        ensures
            r == self@.dom().len(),
    {
        proof { self.lemma_len(); }
        self.entries.len()
    }

    proof fn lemma_len(&self)
        requires
            self.wf(),
        ensures
            self@.dom().len() == self.entries@.len(),
            self@.dom().finite(),
    {
        let keys = self.entries@.map_values(|e: (Vec<u8>, V)| e.0@);
        assert(keys.no_duplicates()) by {
            assert forall|i: int, j: int|
                0 <= i < keys.len() && 0 <= j < keys.len() && i != j implies keys[i] != keys[j] by {
                assert(keys[i] == self.entries@[i].0@);
                assert(keys[j] == self.entries@[j].0@);
            }
        }
        assert(keys.to_set() =~= self@.dom()) by {
            assert forall|k: Seq<u8>| keys.to_set().contains(k) implies self@.dom().contains(k) by {
                let i = choose|i: int| 0 <= i < keys.len() && keys[i] == k;
                assert(self.contents@.contains_key(self.entries@[i].0@));
            }
            assert forall|k: Seq<u8>| self@.dom().contains(k) implies keys.to_set().contains(k) by {
                let i = choose|i: int| 0 <= i < self.entries@.len() && self.entries@[i].0@ == k;
                assert(keys[i] == k);
            }
        }
        keys.unique_seq_to_set();
    }

    pub fn get(&self, key: &[u8]) -> (r: Option<&V>)
        requires
            self.wf(),
        ensures
            r.is_some() <==> self@.contains_key(key@),
            r.is_some() ==> *r.unwrap() == self@[key@],
    {
        match self.find(key) {
            Some(i) => Some(&self.entries[i].1),
            None => None,
        }
    }

    pub fn contains_key(&self, key: &[u8]) -> (r: bool)
        requires
            self.wf(),
        ensures
            r == self@.contains_key(key@),
    {
        self.find(key).is_some()
    }

    /// Sets the value of `key`, returning the value it replaced.
    pub fn insert(&mut self, key: &[u8], value: V) -> (r: Option<V>)
        requires
            old(self).wf(),
        ensures
            final(self).wf(),
            final(self)@ == old(self)@.insert(key@, value),
            r.is_some() <==> old(self)@.contains_key(key@),
            r.is_some() ==> r.unwrap() == old(self)@[key@],
    {
        match self.find(key) {
            Some(i) => {
                let ghost k = self.entries@[i as int].0@;
                let owned = copy_bytes(key);
                let entry = (owned, value);
                let old_entry = self.entries.remove(i);
                self.entries.insert(i, entry);
                self.contents = Ghost(self.contents@.insert(key@, value));
                proof {
                    assert(self.entries@ == old(self).entries@.update(i as int, entry));
                    assert forall|k2: Seq<u8>| #[trigger] self.contents@.contains_key(k2) implies exists|
                        j: int,
                    | 0 <= j < self.entries@.len() && self.entries@[j].0@ == k2 by {
                        if k2 != key@ {
                            let j = choose|j: int|
                                0 <= j < old(self).entries@.len() && old(self).entries@[j].0@ == k2;
                            assert(self.entries@[j].0@ == k2);
                        } else {
                            assert(self.entries@[i as int].0@ == k2);
                        }
                    }
                }
                Some(old_entry.1)
            },
            None => {
                let owned = copy_bytes(key);
                self.entries.push((owned, value));
                self.contents = Ghost(self.contents@.insert(key@, value));
                proof {
                    let n = old(self).entries@.len() as int;
                    assert forall|k2: Seq<u8>| #[trigger] self.contents@.contains_key(k2) implies exists|
                        j: int,
                    | 0 <= j < self.entries@.len() && self.entries@[j].0@ == k2 by {
                        if k2 != key@ {
                            let j = choose|j: int|
                                0 <= j < old(self).entries@.len() && old(self).entries@[j].0@ == k2;
                            assert(self.entries@[j].0@ == k2);
                        } else {
                            assert(self.entries@[n].0@ == k2);
                        }
                    }
                }
                None
            },
        }
    }

    /// Removes `key`, returning the value it had.
    pub fn remove(&mut self, key: &[u8]) -> (r: Option<V>)
        requires
            old(self).wf(),
        ensures
            final(self).wf(),
            final(self)@ == old(self)@.remove(key@),
            r.is_some() <==> old(self)@.contains_key(key@),
            r.is_some() ==> r.unwrap() == old(self)@[key@],
    {
        match self.find(key) {
            Some(i) => {
                let old_entry = self.entries.remove(i);
                self.contents = Ghost(self.contents@.remove(key@));
                proof {
                    let olde = old(self).entries@;
                    assert forall|j: int| 0 <= j < self.entries@.len() implies #[trigger] self.entries@[j]
                        == (if j < i { olde[j] } else { olde[j + 1] }) by {}
                    assert forall|j: int|
                        0 <= j < self.entries@.len() implies #[trigger] self.contents@.contains_key(
                        self.entries@[j].0@,
                    ) && self.contents@[self.entries@[j].0@] == self.entries@[j].1 by {
                        let src = if j < i { j } else { j + 1 };
                        assert(self.entries@[j] == olde[src]);
                        assert(olde[src].0@ != olde[i as int].0@);
                        assert(old(self).contents@.contains_key(olde[src].0@));
                        assert(old(self).contents@[olde[src].0@] == olde[src].1);
                        assert(olde[i as int].0@ == key@);
                    }
                    assert forall|k2: Seq<u8>| #[trigger] self.contents@.contains_key(k2) implies exists|
                        j: int,
                    | 0 <= j < self.entries@.len() && self.entries@[j].0@ == k2 by {
                        let j = choose|j: int| 0 <= j < olde.len() && olde[j].0@ == k2;
                        assert(j != i);
                        if j < i {
                            assert(self.entries@[j].0@ == k2);
                        } else {
                            assert(self.entries@[j - 1].0@ == k2);
                        }
                    }
                    assert forall|a: int, b: int|
                        0 <= a < self.entries@.len() && 0 <= b < self.entries@.len() && a != b
                            implies self.entries@[a].0@ != self.entries@[b].0@ by {
                        let a1 = if a < i { a } else { a + 1 };
                        let b1 = if b < i { b } else { b + 1 };
                        assert(olde[a1].0@ != olde[b1].0@);
                    }
                }
                Some(old_entry.1)
            },
            None => {
                assert(self.contents@.remove(key@) =~= self.contents@);
                None
            },
        }
    }
}

/// Whether `k` lies in `[start, end)`, an absent bound being open.
pub open spec fn in_range(k: Seq<u8>, start: Option<Seq<u8>>, end: Option<Seq<u8>>) -> bool {
    &&& match start {
        Some(s) => !lex_lt(k, s),
        None => true,
    }
    &&& match end {
        Some(e) => lex_lt(k, e),
        None => true,
    }
}

/// The view of an optional bound.
pub open spec fn bound_view(b: Option<&[u8]>) -> Option<Seq<u8>> {
    match b {
        Some(s) => Some(s@),
        None => None,
    }
}

/// Whether `r` holds, in strictly increasing key order, exactly the entries
/// of `m` whose keys lie in the range.
pub open spec fn sorted_range_of(
    r: Seq<(Seq<u8>, Seq<u8>)>,
    m: Map<Seq<u8>, Seq<u8>>,
    start: Option<Seq<u8>>,
    end: Option<Seq<u8>>,
) -> bool {
    &&& forall|i: int, j: int| 0 <= i < j < r.len() ==> lex_lt(#[trigger] r[i].0, #[trigger] r[j].0)
    &&& forall|i: int|
        0 <= i < r.len() ==> in_range(#[trigger] r[i].0, start, end) && m.contains_key(r[i].0)
            && m[r[i].0] == r[i].1
    &&& forall|k: Seq<u8>|
        #[trigger] m.contains_key(k) && in_range(k, start, end) ==> exists|i: int|
            0 <= i < r.len() && r[i].0 == k
}

fn in_range_exec(k: &[u8], start: Option<&[u8]>, end: Option<&[u8]>) -> (r: bool)
    ensures
        r == in_range(k@, bound_view(start), bound_view(end)),
{
    let above = match start {
        Some(s) => compare_bytes(k, s) >= 0,
        None => true,
    };
    let below = match end {
        Some(e) => compare_bytes(k, e) < 0,
        None => true,
    };
    above && below
}

/// Pairs of owned key and value bytes, as byte sequences.
pub open spec fn pairs_view(v: Seq<(Vec<u8>, Vec<u8>)>) -> Seq<(Seq<u8>, Seq<u8>)> {
    v.map_values(|e: (Vec<u8>, Vec<u8>)| (e.0@, e.1@))
}

impl ByteMap<Vec<u8>> {
    /// The entries whose keys lie in `[start, end)`, copied out in
    /// increasing key order.
    pub fn sorted_range(&self, start: Option<&[u8]>, end: Option<&[u8]>) -> (r: Vec<(Vec<u8>, Vec<u8>)>)
        requires
            self.wf(),
        ensures
            sorted_range_of(
                pairs_view(r@),
                self@.map_values(|v: Vec<u8>| v@),
                bound_view(start),
                bound_view(end),
            ),
    {
        let ghost m = self@.map_values(|v: Vec<u8>| v@);
        let ghost sb = bound_view(start);
        let ghost eb = bound_view(end);
        let mut out: Vec<(Vec<u8>, Vec<u8>)> = Vec::new();
        let mut i: usize = 0;
        while i < self.entries.len()
            invariant
                self.wf(),
                m == self@.map_values(|v: Vec<u8>| v@),
                sb == bound_view(start),
                eb == bound_view(end),
                i <= self.entries@.len(),
                forall|a: int, b: int|
                    0 <= a < b < out@.len() ==> lex_lt(#[trigger] out@[a].0@, #[trigger] out@[b].0@),
                forall|a: int|
                    0 <= a < out@.len() ==> in_range(#[trigger] out@[a].0@, sb, eb) && m.contains_key(
                        out@[a].0@,
                    ) && m[out@[a].0@] == out@[a].1@,
                forall|a: int|
                    0 <= a < out@.len() ==> exists|j: int|
                        0 <= j < i && self.entries@[j].0@ == #[trigger] out@[a].0@,
                forall|j: int|
                    0 <= j < i && in_range(#[trigger] self.entries@[j].0@, sb, eb) ==> exists|a: int|
                        0 <= a < out@.len() && out@[a].0@ == self.entries@[j].0@,
            decreases self.entries@.len() - i,
        {
            let key = self.entries[i].0.as_slice();
            if in_range_exec(key, start, end) {
                let ghost k = key@;
                let mut pos: usize = 0;
                let mut stop = false;
                while !stop && pos < out.len()
                    invariant
                        pos <= out@.len(),
                        k == key@,
                        forall|a: int| 0 <= a < pos ==> lex_lt(#[trigger] out@[a].0@, k),
                        stop ==> pos < out@.len() && (lex_lt(k, out@[pos as int].0@) || out@[pos as int].0@
                            == k),
                    decreases out@.len() - pos + (if stop { 0int } else { 1int }),
                {
                    let c = compare_bytes(out[pos].0.as_slice(), key);
                    if c >= 0 {
                        stop = true;
                    } else {
                        pos = pos + 1;
                    }
                }
                proof {
                    if stop {
                        let w = out@[pos as int].0@;
                        let j = choose|j: int| 0 <= j < i && self.entries@[j].0@ == w;
                        assert(self.entries@[j].0@ != self.entries@[i as int].0@);
                        assert(lex_lt(k, w));
                    }
                }
                let entry = (copy_bytes(key), copy_bytes(self.entries[i].1.as_slice()));
                let ghost olde = out@;
                let ghost p = pos as int;
                out.insert(pos, entry);
                proof {
                    assert(self.contents@.contains_key(k));
                    assert(m[k] == entry.1@);
                    assert forall|a: int| 0 <= a < out@.len() implies #[trigger] out@[a] == (if a < p {
                        olde[a]
                    } else if a == p {
                        entry
                    } else {
                        olde[a - 1]
                    }) by {}
                    assert forall|a: int, b: int|
                        0 <= a < b < out@.len() implies lex_lt(#[trigger] out@[a].0@, #[trigger] out@[b].0@) by {
                        if b < p {
                            assert(lex_lt(olde[a].0@, olde[b].0@));
                        } else if b == p {
                        } else if a < p {
                            if b - 1 > p {
                                lemma_lex_lt_transitive(k, olde[p].0@, olde[b - 1].0@);
                            }
                            lemma_lex_lt_transitive(olde[a].0@, k, olde[b - 1].0@);
                        } else if a == p {
                            if b - 1 > p {
                                lemma_lex_lt_transitive(k, olde[p].0@, olde[b - 1].0@);
                            }
                        } else {
                            assert(lex_lt(olde[a - 1].0@, olde[b - 1].0@));
                        }
                    }
                    assert forall|a: int|
                        0 <= a < out@.len() implies in_range(#[trigger] out@[a].0@, sb, eb) && m.contains_key(
                        out@[a].0@,
                    ) && m[out@[a].0@] == out@[a].1@ by {
                        if a < p {
                            assert(out@[a] == olde[a]);
                        } else if a > p {
                            assert(out@[a] == olde[a - 1]);
                        }
                    }
                    assert forall|a: int| 0 <= a < out@.len() implies exists|j: int|
                        0 <= j < i + 1 && self.entries@[j].0@ == #[trigger] out@[a].0@ by {
                        if a < p {
                            assert(out@[a] == olde[a]);
                            let j = choose|j: int| 0 <= j < i && self.entries@[j].0@ == olde[a].0@;
                            assert(self.entries@[j].0@ == out@[a].0@);
                        } else if a > p {
                            assert(out@[a] == olde[a - 1]);
                            let j = choose|j: int| 0 <= j < i && self.entries@[j].0@ == olde[a - 1].0@;
                            assert(self.entries@[j].0@ == out@[a].0@);
                        } else {
                            assert(self.entries@[i as int].0@ == out@[a].0@);
                        }
                    }
                    assert forall|j: int|
                        0 <= j < i + 1 && in_range(#[trigger] self.entries@[j].0@, sb, eb) implies exists|a: int|
                        0 <= a < out@.len() && out@[a].0@ == self.entries@[j].0@ by {
                        if j < i {
                            let a = choose|a: int| 0 <= a < olde.len() && olde[a].0@ == self.entries@[j].0@;
                            if a < p {
                                assert(out@[a] == olde[a]);
                            } else {
                                assert(out@[a + 1] == olde[a]);
                            }
                        } else {
                            assert(out@[p].0@ == self.entries@[j].0@);
                        }
                    }
                }
            } else {
                proof {
                    assert forall|a: int| 0 <= a < out@.len() implies exists|j: int|
                        0 <= j < i + 1 && self.entries@[j].0@ == #[trigger] out@[a].0@ by {
                        let j = choose|j: int| 0 <= j < i && self.entries@[j].0@ == out@[a].0@;
                        assert(self.entries@[j].0@ == out@[a].0@);
                    }
                }
            }
            i = i + 1;
        }
        proof {
            let r = pairs_view(out@);
            assert forall|a: int, b: int| 0 <= a < b < r.len() implies lex_lt(#[trigger] r[a].0, #[trigger] r[b].0) by {
                assert(lex_lt(out@[a].0@, out@[b].0@));
            }
            assert forall|a: int|
                0 <= a < r.len() implies in_range(#[trigger] r[a].0, sb, eb) && m.contains_key(r[a].0)
                    && m[r[a].0] == r[a].1 by {
                assert(in_range(out@[a].0@, sb, eb));
            }
            assert forall|k: Seq<u8>| #[trigger] m.contains_key(k) && in_range(k, sb, eb) implies exists|a: int|
                0 <= a < r.len() && r[a].0 == k by {
                let j = choose|j: int| 0 <= j < self.entries@.len() && self.entries@[j].0@ == k;
                assert(in_range(self.entries@[j].0@, sb, eb));
                let a = choose|a: int| 0 <= a < out@.len() && out@[a].0@ == self.entries@[j].0@;
                assert(r[a].0 == k);
            }
        }
        out
    }
}

} // verus!
