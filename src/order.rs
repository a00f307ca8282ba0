use vstd::prelude::*;

verus! {

/// `a` sorts before `b` byte-wise: after a common prefix of length `i`,
/// either `a` ends while `b` goes on, or `a`'s next byte is smaller.
pub open spec fn lex_lt_at(a: Seq<u8>, b: Seq<u8>, i: int) -> bool {
    &&& 0 <= i <= a.len()
    &&& i <= b.len()
    &&& forall|j: int| 0 <= j < i ==> a[j] == b[j]
    &&& (i == a.len() && i < b.len()) || (i < a.len() && i < b.len() && a[i] < b[i])
}

/// Byte-wise lexicographic order, the order of `Ord` on byte strings.
pub open spec fn lex_lt(a: Seq<u8>, b: Seq<u8>) -> bool {
    exists|i: int| lex_lt_at(a, b, i)
}

pub proof fn lemma_lex_lt_irreflexive(a: Seq<u8>)
    ensures
        !lex_lt(a, a),
{
}

pub proof fn lemma_lex_lt_transitive(a: Seq<u8>, b: Seq<u8>, c: Seq<u8>)
    requires
        lex_lt(a, b),
        lex_lt(b, c),
    ensures
        lex_lt(a, c),
{
    let i = choose|i: int| lex_lt_at(a, b, i);
    let k = choose|k: int| lex_lt_at(b, c, k);
    if i < k {
        assert(lex_lt_at(a, c, i));
    } else if k < i {
        assert(lex_lt_at(a, c, k));
    } else {
        assert(lex_lt_at(a, c, i));
    }
}

pub proof fn lemma_lex_lt_asymmetric(a: Seq<u8>, b: Seq<u8>)
    requires
        lex_lt(a, b),
    ensures
        !lex_lt(b, a),
{
    if lex_lt(b, a) {
        lemma_lex_lt_transitive(a, b, a);
    }
}

/// Three-way byte-wise comparison: negative, zero or positive as `a` sorts
/// before, equal to, or after `b`.
pub fn compare_bytes(a: &[u8], b: &[u8]) -> (r: i8)
    ensures
        r < 0 <==> lex_lt(a@, b@),
        r == 0 <==> a@ == b@,
        r > 0 <==> lex_lt(b@, a@),
{
    let mut i: usize = 0;
    while i < a.len() && i < b.len()
        invariant
            i <= a@.len(),
            i <= b@.len(),
            forall|j: int| 0 <= j < i ==> a@[j] == b@[j],
        decreases a@.len() - i,
    {
        if a[i] != b[i] {
            if a[i] < b[i] {
                assert(lex_lt_at(a@, b@, i as int));
                proof {
                    lemma_lex_lt_asymmetric(a@, b@);
                }
                return -1;
            } else {
                assert(lex_lt_at(b@, a@, i as int));
                proof {
                    lemma_lex_lt_asymmetric(b@, a@);
                }
                return 1;
            }
        }
        i = i + 1;
    }
    if a.len() < b.len() {
        assert(lex_lt_at(a@, b@, i as int));
        proof {
            lemma_lex_lt_asymmetric(a@, b@);
        }
        -1
    } else if a.len() > b.len() {
        assert(lex_lt_at(b@, a@, i as int));
        proof {
            lemma_lex_lt_asymmetric(b@, a@);
        }
        1
    } else {
        assert(a@ =~= b@);
        0
    }
}

} // verus!
