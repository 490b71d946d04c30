use vstd::prelude::*;

verus! {

/// Lexicographic order on integer key triples.
pub open spec fn lex3_le(a: (int, int, int), b: (int, int, int)) -> bool {
    a.0 < b.0 || (a.0 == b.0 && (a.1 < b.1 || (a.1 == b.1 && a.2 <= b.2)))
}

/// A type that can be ordered by a three-part integer key.
pub trait SortKey: Sized {
    /// The sort key; components that do not matter may be zero.
    spec fn key(self) -> (int, int, int);

    /// Compare two values by key.
    fn le_key(&self, other: &Self) -> (r: bool)
        ensures
            r == lex3_le(self.key(), other.key()),
    ;
}

/// Sort a vector ascending by key (insertion sort): the result is a
/// permutation of the input, nondecreasing in the key order.
pub fn sort_by_key<T: SortKey + Copy>(v: &mut Vec<T>)
    ensures
        final(v)@.len() == old(v)@.len(),
        final(v)@.to_multiset() == old(v)@.to_multiset(),
        forall|p: int, q: int|
            0 <= p < q < final(v)@.len() ==> lex3_le(final(v)@[p].key(), final(v)@[q].key()),
{
    broadcast use vstd::seq_lib::group_to_multiset_ensures;

    let n = v.len();
    if n == 0 {
        return;
    }
    let mut i: usize = 1;
    while i < n
        invariant
            n == v@.len(),
            1 <= i <= n,
            v@.to_multiset() == old(v)@.to_multiset(),
            forall|p: int, q: int| 0 <= p < q < i ==> lex3_le(v@[p].key(), v@[q].key()),
        decreases n - i,
    {
        let x = v[i];
        let mut j: usize = 0;
        loop
            invariant
                n == v@.len(),
                1 <= i < n,
                0 <= j <= i,
                x == v@[i as int],
                forall|p: int| 0 <= p < j ==> lex3_le(v@[p].key(), x.key()),
            ensures
                0 <= j <= i,
                x == v@[i as int],
                forall|p: int| 0 <= p < j ==> lex3_le(v@[p].key(), x.key()),
                j < i ==> !lex3_le(v@[j as int].key(), x.key()),
            decreases i - j,
        {
            if j == i {
                break;
            }
            if !v[j].le_key(&x) {
                break;
            }
            j += 1;
        }
        let ghost s0 = v@;
        proof {
            broadcast use vstd::multiset::group_multiset_axioms;
            assert(s0.contains(x));
            s0.to_multiset_ensures();
            assert(s0.to_multiset().count(x) > 0);
        }
        let xv = v.remove(i);
        v.insert(j, xv);
        proof {
            broadcast use vstd::multiset::group_multiset_axioms;
            assert(v@ =~= s0.remove(i as int).insert(j as int, x));
            vstd::seq_lib::to_multiset_remove(s0, i as int);
            vstd::seq_lib::to_multiset_insert(s0.remove(i as int), j as int, x);
            assert(v@.to_multiset() =~= s0.to_multiset());
            assert forall|p: int, q: int|
                0 <= p < q < i + 1 implies lex3_le(v@[p].key(), v@[q].key()) by {
                if q == j {
                    assert(v@[p] == s0[p]);
                } else if p == j {
                    if j < i {
                        assert(lex3_le(x.key(), s0[j as int].key()));
                        if q - 1 > j {
                            assert(lex3_le(s0[j as int].key(), s0[q - 1].key()));
                        }
                    }
                } else {
                    let op = if p < j { p } else { p - 1 };
                    let oq = if q < j { q } else { q - 1 };
                    assert(v@[p] == s0[op] && v@[q] == s0[oq]);
                }
            }
        }
        i += 1;
    }
}

} // verus!
