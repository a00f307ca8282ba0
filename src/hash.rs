use crate::bytes::{append_bytes, copy_bytes};
use crate::order::{compare_bytes, lemma_lex_lt_transitive, lex_lt};
use crate::storage::{sha256_digest, sha256_of};
use vstd::prelude::*;
use vstd::utf8::encode_utf8;

verus! {

/// The bytes of an optional value.
pub open spec fn opt_view(o: Option<Vec<u8>>) -> Option<Seq<u8>> {
    match o {
        Some(v) => Some(v@),
        None => None,
    }
}

/// How one recorded change enters the digest: the key's bytes, then `1`
/// and the value for a write, or `0` for a deletion.
pub open spec fn change_bytes(key: Seq<u8>, value: Option<Seq<u8>>) -> Seq<u8> {
    key + match value {
        Some(v) => seq![1u8] + v,
        None => seq![0u8],
    }
}

/// All recorded changes in order, as the digest reads them.
pub open spec fn preimage(changes: Seq<(Seq<u8>, Option<Seq<u8>>)>) -> Seq<u8>
    decreases changes.len(),
{
    if changes.len() == 0 {
        Seq::empty()
    } else {
        preimage(changes.drop_last()) + change_bytes(changes.last().0, changes.last().1)
    }
}

/// Whether the keys of `s` are strictly increasing.
pub open spec fn strictly_sorted(s: Seq<(Seq<u8>, Option<Seq<u8>>)>) -> bool {
    forall|i: int, j: int| 0 <= i < j < s.len() ==> lex_lt(#[trigger] s[i].0, #[trigger] s[j].0)
}

/// The last recorded change of each key, kept in key order so that the
/// state digest does not depend on the order of the changes.
pub struct StateHasher {
    changes: Vec<(Vec<u8>, Option<Vec<u8>>)>,
}

impl StateHasher {
    pub closed spec fn entries(&self) -> Seq<(Seq<u8>, Option<Seq<u8>>)> {
        self.changes@.map_values(|e: (Vec<u8>, Option<Vec<u8>>)| (e.0@, opt_view(e.1)))
    }

    pub closed spec fn wf(&self) -> bool {
        strictly_sorted(self.entries())
    }

    pub fn new() -> (r: Self)
        ensures
            r.wf(),
            r.entries() == Seq::<(Seq<u8>, Option<Seq<u8>>)>::empty(),
    {
        let r = Self { changes: Vec::new() };
        assert(r.entries() =~= Seq::<(Seq<u8>, Option<Seq<u8>>)>::empty());
        r
    }

    /// Records that `key` now holds `value` (`None` for a deletion),
    /// replacing any earlier change of the same key.
    pub fn record_change(&mut self, key: String, value: Option<Vec<u8>>)
        requires
            old(self).wf(),
        ensures
            final(self).wf(),
            ({
                let k = encode_utf8(key@);
                let e = (k, opt_view(value));
                exists|pos: int|
                    0 <= pos <= old(self).entries().len() && ((pos < old(self).entries().len()
                        && old(self).entries()[pos].0 == k && final(self).entries() == old(
                        self,
                    ).entries().update(pos, e)) || ((forall|i: int|
                        0 <= i < old(self).entries().len() ==> old(self).entries()[i].0 != k)
                        && final(self).entries() == old(self).entries().insert(pos, e)))
            }),
    {
        let key_bytes = copy_bytes(key.as_str().as_bytes());
        let ghost k = key_bytes@;
        let ghost e = (k, opt_view(value));
        let mut i: usize = 0;
        while i < self.changes.len()
            invariant
                self.wf(),
                self.changes@ == old(self).changes@,
                i <= self.changes@.len(),
                k == encode_utf8(key@),
                k == key_bytes@,
                e == (k, opt_view(value)),
                forall|j: int| 0 <= j < i ==> lex_lt(#[trigger] self.entries()[j].0, k),
            decreases self.changes@.len() - i,
        {
            let c = compare_bytes(self.changes[i].0.as_slice(), key_bytes.as_slice());
            assert(self.entries()[i as int].0 == self.changes@[i as int].0@);
            assert(c > 0 ==> lex_lt(k, self.entries()[i as int].0));
            assert(c == 0 ==> self.entries()[i as int].0 == k);
            if c == 0 {
                let ghost olde = self.entries();
                let ghost oldc = self.changes@;
                let entry = (key_bytes, value);
                assert((entry.0@, opt_view(entry.1)) == e);
                self.changes.set(i, entry);
                proof {
                    assert(self.changes@ == oldc.update(i as int, entry));
                    assert forall|j: int| 0 <= j < olde.len() implies #[trigger] self.entries()[j]
                        == olde.update(i as int, e)[j] by {
                        if j != i {
                            assert(self.changes@[j] == oldc[j]);
                        }
                    }
                    assert(self.entries() =~= olde.update(i as int, e));
                    assert(olde == old(self).entries());
                    assert(old(self).entries()[i as int].0 == k);
                    let pos = i as int;
                    assert(0 <= pos <= old(self).entries().len() && pos < old(self).entries().len()
                        && old(self).entries()[pos].0 == k && self.entries() == old(
                        self,
                    ).entries().update(pos, e));
                    assert forall|a: int, b: int| 0 <= a < b < self.entries().len() implies lex_lt(
                        #[trigger] self.entries()[a].0,
                        #[trigger] self.entries()[b].0,
                    ) by {
                        assert(lex_lt(olde[a].0, olde[b].0));
                    }
                }
                return;
            } else if c > 0 {
                let ghost olde = self.entries();
                let ghost oldc = self.changes@;
                let entry = (key_bytes, value);
                assert((entry.0@, opt_view(entry.1)) == e);
                self.changes.insert(i, entry);
                proof {
                    assert(self.changes@ == oldc.insert(i as int, entry));
                    assert forall|j: int| 0 <= j < olde.len() + 1 implies #[trigger] self.entries()[j]
                        == olde.insert(i as int, e)[j] by {
                        if j < i {
                            assert(self.changes@[j] == oldc[j]);
                        } else if j > i {
                            assert(self.changes@[j] == oldc[j - 1]);
                        }
                    }
                    assert(self.entries() =~= olde.insert(i as int, e));
                    assert forall|j: int| 0 <= j < olde.len() implies olde[j].0 != k by {
                        if j < i {
                            crate::order::lemma_lex_lt_irreflexive(k);
                        } else if j > i {
                            lemma_lex_lt_transitive(k, olde[i as int].0, olde[j].0);
                            crate::order::lemma_lex_lt_irreflexive(k);
                        } else {
                            crate::order::lemma_lex_lt_irreflexive(k);
                        }
                    }
                    assert(olde == old(self).entries());
                    let pos = i as int;
                    assert(0 <= pos <= old(self).entries().len() && (forall|j: int|
                        0 <= j < old(self).entries().len() ==> old(self).entries()[j].0 != k)
                        && self.entries() == old(self).entries().insert(pos, e));
                    assert forall|a: int, b: int| 0 <= a < b < self.entries().len() implies lex_lt(
                        #[trigger] self.entries()[a].0,
                        #[trigger] self.entries()[b].0,
                    ) by {
                        let s = self.entries();
                        if b < i {
                            assert(lex_lt(olde[a].0, olde[b].0));
                        } else if b == i {
                            assert(s[b].0 == k);
                        } else if a < i {
                            assert(s[b].0 == olde[b - 1].0);
                            if b - 1 > i {
                                lemma_lex_lt_transitive(k, olde[i as int].0, olde[b - 1].0);
                            }
                            lemma_lex_lt_transitive(olde[a].0, k, olde[b - 1].0);
                        } else if a == i {
                            if b - 1 > i {
                                lemma_lex_lt_transitive(k, olde[i as int].0, olde[b - 1].0);
                            }
                        } else {
                            assert(lex_lt(olde[a - 1].0, olde[b - 1].0));
                        }
                    }
                }
                return;
            }
            i = i + 1;
        }
        let ghost olde = self.entries();
        let ghost oldc = self.changes@;
        let entry = (key_bytes, value);
        assert((entry.0@, opt_view(entry.1)) == e);
        self.changes.push(entry);
        proof {
            assert(self.changes@ == oldc.push(entry));
            assert forall|j: int| 0 <= j < olde.len() + 1 implies #[trigger] self.entries()[j]
                == olde.insert(olde.len() as int, e)[j] by {
                if j < olde.len() {
                    assert(self.changes@[j] == oldc[j]);
                }
            }
            assert(self.entries() =~= olde.insert(olde.len() as int, e));
            assert forall|j: int| 0 <= j < olde.len() implies olde[j].0 != k by {
                crate::order::lemma_lex_lt_irreflexive(k);
            }
            assert forall|a: int, b: int| 0 <= a < b < self.entries().len() implies lex_lt(
                #[trigger] self.entries()[a].0,
                #[trigger] self.entries()[b].0,
            ) by {
                if b < olde.len() {
                    assert(lex_lt(olde[a].0, olde[b].0));
                }
            }
        }
    }

    /// The SHA-256 digest of the recorded changes in key order.
    pub fn calculate_hash(&self) -> (r: Vec<u8>)
        ensures
            r@ == sha256_of(preimage(self.entries())),
    {
        let mut bytes: Vec<u8> = Vec::new();
        let mut i: usize = 0;
        while i < self.changes.len()
            invariant
                i <= self.changes@.len(),
                bytes@ == preimage(self.entries().subrange(0, i as int)),
            decreases self.changes@.len() - i,
        {
            let ghost before = bytes@;
            append_bytes(&mut bytes, self.changes[i].0.as_slice());
            match &self.changes[i].1 {
                Some(v) => {
                    bytes.push(1u8);
                    append_bytes(&mut bytes, v.as_slice());
                },
                None => {
                    bytes.push(0u8);
                },
            }
            proof {
                let s = self.entries().subrange(0, i as int + 1);
                assert(s.drop_last() =~= self.entries().subrange(0, i as int));
                let ent = self.entries()[i as int];
                assert(bytes@ =~= before + change_bytes(ent.0, ent.1));
            }
            i = i + 1;
        }
        assert(self.entries().subrange(0, self.changes@.len() as int) =~= self.entries());
        let digest = sha256_digest(bytes.as_slice());
        copy_bytes(digest.as_slice())
    }
}

/// Order independence of the state digest: two key-ordered change lists
/// that hold the same changes are the same list, so they are hashed alike
/// however the changes were recorded.
pub proof fn lemma_same_changes_same_preimage(
    a: Seq<(Seq<u8>, Option<Seq<u8>>)>,
    b: Seq<(Seq<u8>, Option<Seq<u8>>)>,
)
    requires
        strictly_sorted(a),
        strictly_sorted(b),
        forall|x: (Seq<u8>, Option<Seq<u8>>)| a.contains(x) <==> b.contains(x),
    ensures
        a == b,
        preimage(a) == preimage(b),
    decreases a.len(),
{
    if a.len() == 0 {
        if b.len() > 0 {
            assert(b.contains(b[0]));
        }
        assert(a =~= b);
    } else {
        let la = a.last();
        assert(a.contains(la));
        assert(b.contains(la));
        let lb = b.last();
        assert(b.contains(lb));
        assert(a.contains(lb));
        let j = choose|j: int| 0 <= j < b.len() && b[j] == la;
        let i = choose|i: int| 0 <= i < a.len() && a[i] == lb;
        if j < b.len() - 1 {
            assert(lex_lt(la.0, lb.0));
            if i < a.len() - 1 {
                assert(lex_lt(lb.0, la.0));
                crate::order::lemma_lex_lt_asymmetric(la.0, lb.0);
            } else {
                crate::order::lemma_lex_lt_irreflexive(la.0);
            }
        } else if i < a.len() - 1 {
            assert(lex_lt(lb.0, la.0));
            crate::order::lemma_lex_lt_irreflexive(la.0);
        }
        assert(la == lb);
        let da = a.drop_last();
        let db = b.drop_last();
        assert forall|x: (Seq<u8>, Option<Seq<u8>>)| da.contains(x) implies db.contains(x) by {
            let k = choose|k: int| 0 <= k < da.len() && da[k] == x;
            assert(a[k] == x);
            assert(lex_lt(x.0, la.0));
            assert(b.contains(x));
            let m = choose|m: int| 0 <= m < b.len() && b[m] == x;
            if m == b.len() - 1 {
                crate::order::lemma_lex_lt_irreflexive(la.0);
            }
            assert(db[m] == x);
        }
        assert forall|x: (Seq<u8>, Option<Seq<u8>>)| db.contains(x) implies da.contains(x) by {
            let k = choose|k: int| 0 <= k < db.len() && db[k] == x;
            assert(b[k] == x);
            assert(lex_lt(x.0, lb.0));
            assert(a.contains(x));
            let m = choose|m: int| 0 <= m < a.len() && a[m] == x;
            if m == a.len() - 1 {
                crate::order::lemma_lex_lt_irreflexive(la.0);
            }
            assert(da[m] == x);
        }
        assert(strictly_sorted(da));
        assert(strictly_sorted(db));
        lemma_same_changes_same_preimage(da, db);
        assert(a =~= da.push(la));
        assert(b =~= db.push(lb));
    }
}

} // verus!
