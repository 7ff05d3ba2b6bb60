//! Stable ordering of indices by small integer keys, and what it means for a
//! sequence of indices to hold each index once.

use vstd::prelude::*;

verus! {

/// How often `v` stands in `s`.
pub open spec fn occurrences(s: Seq<usize>, v: usize) -> nat
    decreases s.len(),
{
    if s.len() == 0 {
        0
    } else {
        occurrences(s.drop_last(), v) + if s.last() == v {
            1nat
        } else {
            0nat
        }
    }
}

/// `s` holds each of the indices `0 .. n` once, and nothing else.
pub open spec fn is_permutation(s: Seq<usize>, n: nat) -> bool {
    &&& s.len() == n
    &&& forall|i: int| 0 <= i < s.len() ==> #[trigger] s[i] < n
    &&& forall|v: usize| v < n ==> #[trigger] occurrences(s, v) == 1
}

/// The sequences of `paths`, one after the other.
pub open spec fn concat_all(paths: Seq<Seq<usize>>) -> Seq<usize>
    decreases paths.len(),
{
    if paths.len() == 0 {
        Seq::empty()
    } else {
        concat_all(paths.drop_last()) + paths.last()
    }
}

/// The indices below `m` whose key is `c`, in increasing order.
pub open spec fn with_key(keys: Seq<usize>, c: int, m: int) -> Seq<usize>
    decreases m,
{
    if m <= 0 {
        Seq::empty()
    } else {
        let r = with_key(keys, c, m - 1);
        if keys[m - 1] == c {
            r.push((m - 1) as usize)
        } else {
            r
        }
    }
}

/// The indices whose key is below `c`, ordered by key, and by index among
/// equal keys.
pub open spec fn sorted_upto(keys: Seq<usize>, c: int) -> Seq<usize>
    decreases c,
{
    if c <= 0 {
        Seq::empty()
    } else {
        sorted_upto(keys, c - 1) + with_key(keys, c - 1, keys.len() as int)
    }
}

/// One more than the largest key; 0 where there is no key.
pub open spec fn key_bound(keys: Seq<usize>) -> int
    decreases keys.len(),
{
    if keys.len() == 0 {
        0
    } else {
        let b = key_bound(keys.drop_last());
        if keys.last() + 1 > b {
            keys.last() + 1
        } else {
            b
        }
    }
}

/// All indices of `keys`, ordered by key; indices with equal keys keep their
/// order.
pub open spec fn sorted_indices(keys: Seq<usize>) -> Seq<usize> {
    sorted_upto(keys, key_bound(keys))
}

/// What stands in one of two sequences stands as often in both together.
pub proof fn lemma_occurrences_concat(a: Seq<usize>, b: Seq<usize>, v: usize)
    ensures
        occurrences(a + b, v) == occurrences(a, v) + occurrences(b, v),
    decreases b.len(),
{
    if b.len() == 0 {
        assert(a + b =~= a);
    } else {
        assert((a + b).drop_last() =~= a + b.drop_last());
        assert((a + b).last() == b.last());
        lemma_occurrences_concat(a, b.drop_last(), v);
    }
}

/// A sequence of one element holds that element once and nothing else.
pub proof fn lemma_occurrences_single(x: usize, v: usize)
    ensures
        occurrences(seq![x], v) == if x == v {
            1nat
        } else {
            0nat
        },
{
    assert(seq![x].drop_last() =~= Seq::<usize>::empty());
    assert(occurrences(seq![x].drop_last(), v) == 0);
}

/// A sequence read backwards holds what it holds, each as often.
pub proof fn lemma_occurrences_reverse(s: Seq<usize>, v: usize)
    ensures
        occurrences(s.reverse(), v) == occurrences(s, v),
    decreases s.len(),
{
    if s.len() > 0 {
        let t = s.drop_last();
        assert(s.reverse() =~= seq![s.last()] + t.reverse());
        lemma_occurrences_concat(seq![s.last()], t.reverse(), v);
        lemma_occurrences_single(s.last(), v);
        lemma_occurrences_reverse(t, v);
    } else {
        assert(s.reverse() =~= s);
    }
}

/// An index that occurs in a sequence stands at some place of it.
pub proof fn lemma_occurrences_place(s: Seq<usize>, v: usize) -> (i: int)
    requires
        occurrences(s, v) > 0,
    ensures
        0 <= i < s.len(),
        s[i] == v,
    decreases s.len(),
{
    if s.last() == v {
        s.len() - 1
    } else {
        lemma_occurrences_place(s.drop_last(), v)
    }
}

/// Taking one sequence out of a list of sequences takes its elements out of
/// their concatenation.
pub proof fn lemma_concat_all_remove(paths: Seq<Seq<usize>>, i: int, v: usize)
    requires
        0 <= i < paths.len(),
    ensures
        occurrences(concat_all(paths), v) == occurrences(paths[i], v) + occurrences(
            concat_all(paths.remove(i)),
            v,
        ),
    decreases paths.len(),
{
    let head = paths.drop_last();
    lemma_occurrences_concat(concat_all(head), paths.last(), v);
    if i == paths.len() - 1 {
        assert(paths.remove(i) =~= head);
    } else {
        let r = paths.remove(i);
        assert(r.drop_last() =~= head.remove(i));
        assert(r.last() == paths.last());
        lemma_concat_all_remove(head, i, v);
        lemma_occurrences_concat(concat_all(head.remove(i)), paths.last(), v);
    }
}

/// One more sequence in the list comes last in the concatenation.
pub proof fn lemma_concat_all_push(paths: Seq<Seq<usize>>, p: Seq<usize>)
    ensures
        concat_all(paths.push(p)) == concat_all(paths) + p,
{
    assert(paths.push(p).drop_last() =~= paths);
}

/// The indices with a key are those below `m` that bear it, each once, in
/// increasing order.
pub proof fn lemma_with_key(keys: Seq<usize>, c: int, m: int)
    requires
        0 <= m <= keys.len() <= usize::MAX,
    ensures
        forall|k: int| 0 <= k < with_key(keys, c, m).len() ==> #[trigger] with_key(keys, c, m)[k]
            < m,
        forall|k: int|
            0 <= k < with_key(keys, c, m).len() ==> keys[#[trigger] with_key(keys, c, m)[k] as int]
                == c,
        forall|j: int, k: int|
            0 <= j < k < with_key(keys, c, m).len() ==> with_key(keys, c, m)[j] < with_key(
                keys,
                c,
                m,
            )[k],
        forall|v: usize|
            #[trigger] occurrences(with_key(keys, c, m), v) == if v < m && keys[v as int] == c {
                1nat
            } else {
                0nat
            },
    decreases m,
{
    if m > 0 {
        lemma_with_key(keys, c, m - 1);
        let r = with_key(keys, c, m - 1);
        if keys[m - 1] == c {
            let x = (m - 1) as usize;
            assert(r.push(x).drop_last() =~= r);
            assert forall|v: usize|
                #[trigger] occurrences(with_key(keys, c, m), v) == if v < m && keys[v as int]
                    == c {
                    1nat
                } else {
                    0nat
                } by {
                assert(occurrences(r, v) == if v < m - 1 && keys[v as int] == c {
                    1nat
                } else {
                    0nat
                });
            }
        } else {
            assert forall|v: usize|
                #[trigger] occurrences(with_key(keys, c, m), v) == if v < m && keys[v as int]
                    == c {
                    1nat
                } else {
                    0nat
                } by {
                assert(occurrences(r, v) == if v < m - 1 && keys[v as int] == c {
                    1nat
                } else {
                    0nat
                });
            }
        }
    }
}

/// The indices with keys below `c` are ordered by key, and by index among
/// equal keys, and each of them stands there once.
pub proof fn lemma_sorted_upto(keys: Seq<usize>, c: int)
    requires
        0 <= c,
        keys.len() <= usize::MAX,
    ensures
        forall|k: int|
            0 <= k < sorted_upto(keys, c).len() ==> #[trigger] sorted_upto(keys, c)[k]
                < keys.len(),
        forall|k: int|
            0 <= k < sorted_upto(keys, c).len() ==> keys[#[trigger] sorted_upto(keys, c)[k] as int]
                < c,
        forall|j: int, k: int|
            #![trigger sorted_upto(keys, c)[j], sorted_upto(keys, c)[k]]
            0 <= j < k < sorted_upto(keys, c).len() ==> {
                let a = sorted_upto(keys, c)[j];
                let b = sorted_upto(keys, c)[k];
                keys[a as int] < keys[b as int] || (keys[a as int] == keys[b as int] && a < b)
            },
        forall|v: usize|
            #[trigger] occurrences(sorted_upto(keys, c), v) == if v < keys.len() && keys[v as int]
                < c {
                1nat
            } else {
                0nat
            },
    decreases c,
{
    if c > 0 {
        lemma_sorted_upto(keys, c - 1);
        lemma_with_key(keys, c - 1, keys.len() as int);
        let a = sorted_upto(keys, c - 1);
        let b = with_key(keys, c - 1, keys.len() as int);
        assert(sorted_upto(keys, c) == a + b);
        assert forall|v: usize|
            #[trigger] occurrences(sorted_upto(keys, c), v) == if v < keys.len() && keys[v as int]
                < c {
                1nat
            } else {
                0nat
            } by {
            lemma_occurrences_concat(a, b, v);
            assert(occurrences(a, v) == if v < keys.len() && keys[v as int] < c - 1 {
                1nat
            } else {
                0nat
            });
            assert(occurrences(b, v) == if v < keys.len() && keys[v as int] == c - 1 {
                1nat
            } else {
                0nat
            });
        }
        assert forall|j: int, k: int|
            #![trigger sorted_upto(keys, c)[j], sorted_upto(keys, c)[k]]
            0 <= j < k < sorted_upto(keys, c).len() implies {
            let x = sorted_upto(keys, c)[j];
            let y = sorted_upto(keys, c)[k];
            keys[x as int] < keys[y as int] || (keys[x as int] == keys[y as int] && x < y)
        } by {
            if k < a.len() {
                assert((a + b)[j] == a[j] && (a + b)[k] == a[k]);
            } else if j < a.len() {
                assert((a + b)[j] == a[j]);
                assert((a + b)[k] == b[k - a.len()]);
            } else {
                assert((a + b)[j] == b[j - a.len()]);
                assert((a + b)[k] == b[k - a.len()]);
            }
        }
        assert forall|k: int| 0 <= k < sorted_upto(keys, c).len() implies keys[#[trigger] sorted_upto(
            keys,
            c,
        )[k] as int] < c && sorted_upto(keys, c)[k] < keys.len() by {
            if k < a.len() {
                assert((a + b)[k] == a[k]);
            } else {
                assert((a + b)[k] == b[k - a.len()]);
            }
        }
    }
}

/// Every entry of the ordering is an index of `keys`.
pub proof fn lemma_sorted_indices_in_range(keys: Seq<usize>)
    ensures
        forall|k: int|
            0 <= k < sorted_indices(keys).len() ==> #[trigger] sorted_indices(keys)[k] < keys.len(),
{
    lemma_key_bound(keys);
    lemma_sorted_upto_in_range(keys, key_bound(keys));
}

proof fn lemma_with_key_in_range(keys: Seq<usize>, c: int, m: int)
    requires
        m <= keys.len(),
    ensures
        forall|k: int|
            0 <= k < with_key(keys, c, m).len() ==> #[trigger] with_key(keys, c, m)[k] < keys.len(),
    decreases m,
{
    if m > 0 {
        lemma_with_key_in_range(keys, c, m - 1);
        let r = with_key(keys, c, m - 1);
        let x = (m - 1) as usize;
        assert(x < keys.len()) by {
            if m - 1 <= usize::MAX {
                assert(x == m - 1);
            } else {
                assert(x <= usize::MAX);
            }
        }
        assert forall|k: int| 0 <= k < with_key(keys, c, m).len() implies #[trigger] with_key(
            keys,
            c,
            m,
        )[k] < keys.len() by {
            if k < r.len() {
                assert(with_key(keys, c, m)[k] == r[k]);
            }
        }
    }
}

proof fn lemma_sorted_upto_in_range(keys: Seq<usize>, c: int)
    ensures
        forall|k: int|
            0 <= k < sorted_upto(keys, c).len() ==> #[trigger] sorted_upto(keys, c)[k] < keys.len(),
    decreases c,
{
    if c > 0 {
        lemma_sorted_upto_in_range(keys, c - 1);
        lemma_with_key_in_range(keys, c - 1, keys.len() as int);
        let a = sorted_upto(keys, c - 1);
        let b = with_key(keys, c - 1, keys.len() as int);
        assert forall|k: int| 0 <= k < (a + b).len() implies #[trigger] (a + b)[k] < keys.len() by {
            if k < a.len() {
                assert((a + b)[k] == a[k]);
            } else {
                assert((a + b)[k] == b[k - a.len()]);
            }
        }
    }
}

/// Every key lies below the bound of the keys.
pub proof fn lemma_key_bound(keys: Seq<usize>)
    ensures
        0 <= key_bound(keys),
        forall|i: int| 0 <= i < keys.len() ==> #[trigger] keys[i] < key_bound(keys),
    decreases keys.len(),
{
    if keys.len() > 0 {
        lemma_key_bound(keys.drop_last());
        assert forall|i: int| 0 <= i < keys.len() implies #[trigger] keys[i] < key_bound(keys) by {
            if i < keys.len() - 1 {
                assert(keys[i] == keys.drop_last()[i]);
            }
        }
    }
}

proof fn lemma_occurrences_bound(s: Seq<usize>, n: nat)
    requires
        forall|v: usize| #[trigger] occurrences(s, v) == if v < n {
            1nat
        } else {
            0nat
        },
        n <= usize::MAX + 1,
    ensures
        s.len() == n,
    decreases s.len(),
{
    if s.len() == 0 {
        if n > 0 {
            assert(occurrences(s, 0usize) == 1);
        }
    } else {
        // Move the last element into the place of the largest index, then drop it.
        let x = s.last();
        let t = s.drop_last();
        assert(occurrences(s, x) >= 1);
        assert(x < n);
        let top = (n - 1) as usize;
        if x == top {
            assert forall|v: usize| #[trigger] occurrences(t, v) == if v < (n - 1) as nat {
                1nat
            } else {
                0nat
            } by {
                assert(occurrences(s, v) == occurrences(t, v) + if x == v {
                    1nat
                } else {
                    0nat
                });
            }
            lemma_occurrences_bound(t, (n - 1) as nat);
        } else {
            assert(occurrences(s, top) == occurrences(t, top));
            let i = lemma_occurrences_place(t, top);
            let u = t.update(i, x);
            assert forall|v: usize| #[trigger] occurrences(u, v) == if v < (n - 1) as nat {
                1nat
            } else {
                0nat
            } by {
                lemma_occurrences_update(t, i, x, v);
                assert(occurrences(s, v) == occurrences(t, v) + if x == v {
                    1nat
                } else {
                    0nat
                });
            }
            lemma_occurrences_bound(u, (n - 1) as nat);
        }
    }
}

proof fn lemma_occurrences_update(s: Seq<usize>, i: int, x: usize, v: usize)
    requires
        0 <= i < s.len(),
    ensures
        occurrences(s.update(i, x), v) + (if s[i] == v {
            1nat
        } else {
            0nat
        }) == occurrences(s, v) + (if x == v {
            1nat
        } else {
            0nat
        }),
    decreases s.len(),
{
    let u = s.update(i, x);
    if i == s.len() - 1 {
        assert(u.drop_last() =~= s.drop_last());
    } else {
        assert(u.drop_last() =~= s.drop_last().update(i, x));
        lemma_occurrences_update(s.drop_last(), i, x, v);
    }
}

/// The ordering holds each index once, keys do not decrease along it, and
/// indices with equal keys stand in increasing order.
pub proof fn lemma_sorted_indices(keys: Seq<usize>)
    requires
        keys.len() <= usize::MAX,
    ensures
        is_permutation(sorted_indices(keys), keys.len()),
        forall|j: int, k: int|
            #![trigger sorted_indices(keys)[j], sorted_indices(keys)[k]]
            0 <= j < k < keys.len() ==> {
                let a = sorted_indices(keys)[j];
                let b = sorted_indices(keys)[k];
                keys[a as int] < keys[b as int] || (keys[a as int] == keys[b as int] && a < b)
            },
{
    lemma_key_bound(keys);
    lemma_sorted_upto(keys, key_bound(keys));
    let s = sorted_indices(keys);
    assert forall|v: usize| #[trigger] occurrences(s, v) == if v < keys.len() {
        1nat
    } else {
        0nat
    } by {
        if v < keys.len() {
            assert(keys[v as int] < key_bound(keys));
        }
    }
    lemma_occurrences_bound(s, keys.len());
}

/// Orders the indices of `keys` by key.  Indices with equal keys keep their
/// order.  The work and the memory grow with the largest key.
pub fn sort_indices(keys: &Vec<usize>) -> (order: Vec<usize>)
    requires
        forall|i: int| 0 <= i < keys.len() ==> #[trigger] keys[i] < usize::MAX,
    ensures
        order@ == sorted_indices(keys@),
        is_permutation(order@, keys@.len()),
{
    let n = keys.len();
    let mut bound: usize = 0;
    let mut i: usize = 0;
    while i < n
        invariant
            0 <= i <= n,
            n == keys.len(),
            bound == key_bound(keys@.take(i as int)),
            forall|i: int| 0 <= i < keys.len() ==> #[trigger] keys[i] < usize::MAX,
        decreases n - i,
    {
        assert(keys@.take(i + 1).drop_last() =~= keys@.take(i as int));
        if keys[i] + 1 > bound {
            bound = keys[i] + 1;
        }
        i = i + 1;
    }
    assert(keys@.take(n as int) =~= keys@);
    let mut buckets: Vec<Vec<usize>> = Vec::new();
    let mut c: usize = 0;
    while c < bound
        invariant
            0 <= c <= bound,
            buckets.len() == c,
            forall|k: int| 0 <= k < c ==> (#[trigger] buckets[k])@ == Seq::<usize>::empty(),
        decreases bound - c,
    {
        buckets.push(Vec::new());
        c = c + 1;
    }
    proof {
        lemma_key_bound(keys@);
    }
    i = 0;
    while i < n
        invariant
            0 <= i <= n,
            n == keys.len(),
            buckets.len() == bound,
            bound == key_bound(keys@),
            forall|j: int| 0 <= j < keys.len() ==> #[trigger] keys[j] < bound,
            forall|k: int| 0 <= k < bound ==> (#[trigger] buckets[k])@ == with_key(keys@, k, i as int),
        decreases n - i,
    {
        let k = keys[i];
        assert(keys[i as int] < bound);
        buckets[k].push(i);
        i = i + 1;
    }
    let mut order: Vec<usize> = Vec::new();
    c = 0;
    while c < bound
        invariant
            0 <= c <= bound,
            n == keys.len(),
            buckets.len() == bound,
            forall|k: int| 0 <= k < bound ==> (#[trigger] buckets[k])@ == with_key(keys@, k, n as int),
            order@ == sorted_upto(keys@, c as int),
        decreases bound - c,
    {
        let bucket = &buckets[c];
        let mut k: usize = 0;
        while k < bucket.len()
            invariant
                0 <= k <= bucket.len(),
                bucket@ == with_key(keys@, c as int, n as int),
                order@ == sorted_upto(keys@, c as int) + bucket@.take(k as int),
            decreases bucket.len() - k,
        {
            order.push(bucket[k]);
            assert(bucket@.take(k + 1) =~= bucket@.take(k as int).push(bucket@[k as int]));
            k = k + 1;
        }
        assert(bucket@.take(k as int) =~= bucket@);
        c = c + 1;
    }
    proof {
        lemma_sorted_indices(keys@);
    }
    order
}

} // verus!
