use vstd::prelude::*;

verus! {

/// `a` and `b` agree on their first `i` characters, and `a` is smaller at
/// position `i`: either `a` ends there while `b` goes on, or both go on and
/// `a`'s character has the smaller code point.
pub open spec fn less_at(a: Seq<char>, b: Seq<char>, i: int) -> bool {
    &&& 0 <= i <= a.len()
    &&& i <= b.len()
    &&& forall|j: int| 0 <= j < i ==> a[j] == b[j]
    &&& {
        ||| (i < a.len() && i < b.len() && (a[i] as u32) < (b[i] as u32))
        ||| (i == a.len() && i < b.len())
    }
}

/// Lexicographic order of text by code point. For UTF-8 this is also the
/// order of the encoded bytes.
pub open spec fn key_less(a: Seq<char>, b: Seq<char>) -> bool {
    exists|i: int| less_at(a, b, i)
}

/// Every key of `keys` is smaller than the ones after it.
pub open spec fn strictly_ascending(keys: Seq<Seq<char>>) -> bool {
    forall|p: int, q: int| 0 <= p < q < keys.len() ==> key_less(keys[p], keys[q])
}

/// Proves that the order is transitive.
pub proof fn lemma_key_less_transitive(a: Seq<char>, b: Seq<char>, c: Seq<char>)
    requires
        key_less(a, b),
        key_less(b, c),
    ensures
        key_less(a, c),
{
    let i = choose|i: int| less_at(a, b, i);
    let j = choose|j: int| less_at(b, c, j);
    if i < j {
        assert(less_at(a, c, i));
    } else if j < i {
        assert(less_at(a, c, j));
    } else {
        assert(less_at(a, c, i));
    }
}

/// Proves that a smaller key differs from the larger one.
pub proof fn lemma_key_less_distinct(a: Seq<char>, b: Seq<char>)
    requires
        key_less(a, b),
    ensures
        a != b,
{
}

/// How two keys compare.
#[derive(Clone, Copy, Debug, PartialEq, Eq, Structural)]
pub enum KeyOrdering {
    Less,
    Equal,
    Greater,
}

/// Compares two keys lexicographically by code point.
pub fn compare_keys(a: &str, b: &str) -> (r: KeyOrdering)
    ensures
        r == KeyOrdering::Less <==> key_less(a@, b@),
        r == KeyOrdering::Equal <==> a@ == b@,
        r == KeyOrdering::Greater <==> key_less(b@, a@),
{
    let la = a.unicode_len();
    let lb = b.unicode_len();
    let mut i: usize = 0;
    while i < la && i < lb
        invariant
            la == a@.len(),
            lb == b@.len(),
            i <= la,
            i <= lb,
            forall|j: int| 0 <= j < i ==> a@[j] == b@[j],
        decreases la - i,
    {
        let ca = a.get_char(i);
        let cb = b.get_char(i);
        if ca != cb {
            if (ca as u32) < (cb as u32) {
                assert(less_at(a@, b@, i as int));
                proof {
                    lemma_key_less_distinct(a@, b@);
                    assert(!key_less(b@, a@)) by {
                        if key_less(b@, a@) {
                            lemma_key_less_transitive(a@, b@, a@);
                        }
                    }
                }
                return KeyOrdering::Less;
            } else {
                assert((cb as u32) != (ca as u32));
                assert(less_at(b@, a@, i as int));
                proof {
                    lemma_key_less_distinct(b@, a@);
                    assert(!key_less(a@, b@)) by {
                        if key_less(a@, b@) {
                            lemma_key_less_transitive(b@, a@, b@);
                        }
                    }
                }
                return KeyOrdering::Greater;
            }
        }
        i = i + 1;
    }
    if la < lb {
        assert(less_at(a@, b@, la as int));
        proof {
            lemma_key_less_distinct(a@, b@);
            assert(!key_less(b@, a@)) by {
                if key_less(b@, a@) {
                    lemma_key_less_transitive(a@, b@, a@);
                }
            }
        }
        KeyOrdering::Less
    } else if lb < la {
        assert(less_at(b@, a@, lb as int));
        proof {
            lemma_key_less_distinct(b@, a@);
            assert(!key_less(a@, b@)) by {
                if key_less(a@, b@) {
                    lemma_key_less_transitive(b@, a@, b@);
                }
            }
        }
        KeyOrdering::Greater
    } else {
        assert(a@ =~= b@);
        KeyOrdering::Equal
    }
}

} // verus!
