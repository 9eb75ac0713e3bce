//! Comparing texts, and ordering rows by a text key.

use vstd::prelude::*;

use crate::text::strs_view;

verus! {

/// Lexicographic order of texts by code point, which is the order of `str`.
pub open spec fn lex_le(a: Seq<char>, b: Seq<char>) -> bool
    decreases a.len(),
{
    if a.len() == 0 {
        true
    } else if b.len() == 0 {
        false
    } else if a[0] != b[0] {
        a[0] < b[0]
    } else {
        lex_le(a.drop_first(), b.drop_first())
    }
}

/// Any two texts are ordered one way or the other.
pub proof fn lemma_lex_total(a: Seq<char>, b: Seq<char>)
    ensures
        lex_le(a, b) || lex_le(b, a),
    decreases a.len(),
{
    if a.len() > 0 && b.len() > 0 && a[0] == b[0] {
        lemma_lex_total(a.drop_first(), b.drop_first());
    }
}

/// The order of texts is transitive.
pub proof fn lemma_lex_trans(a: Seq<char>, b: Seq<char>, c: Seq<char>)
    requires
        lex_le(a, b),
        lex_le(b, c),
    ensures
        lex_le(a, c),
    decreases a.len(),
{
    if a.len() > 0 && b.len() > 0 && c.len() > 0 && a[0] == b[0] && b[0] == c[0] {
        lemma_lex_trans(a.drop_first(), b.drop_first(), c.drop_first());
    }
}

/// Whether two texts are equal.
pub fn str_eq(a: &str, b: &str) -> (r: bool)
    ensures
        r == (a@ == b@),
{
    let la = a.unicode_len();
    let lb = b.unicode_len();
    if la != lb {
        return false;
    }
    let mut i: usize = 0;
    while i < la
        invariant
            la == a@.len(),
            lb == b@.len(),
            la == lb,
            i <= la,
            a@.take(i as int) == b@.take(i as int),
        decreases la - i,
    {
        if a.get_char(i) != b.get_char(i) {
            return false;
        }
        assert(a@.take(i + 1) == a@.take(i as int).push(a@[i as int]));
        assert(b@.take(i + 1) == b@.take(i as int).push(b@[i as int]));
        i = i + 1;
    }
    assert(a@ == a@.take(la as int));
    assert(b@ == b@.take(lb as int));
    true
}

/// Whether `a` comes no later than `b` in the order of texts.
pub fn str_le(a: &str, b: &str) -> (r: bool)
    ensures
        r == lex_le(a@, b@),
{
    let la = a.unicode_len();
    let lb = b.unicode_len();
    let mut i: usize = 0;
    assert(a@.skip(0) == a@);
    assert(b@.skip(0) == b@);
    while i < la && i < lb
        invariant
            la == a@.len(),
            lb == b@.len(),
            i <= la,
            i <= lb,
            lex_le(a@, b@) == lex_le(a@.skip(i as int), b@.skip(i as int)),
        decreases la - i,
    {
        let ca = a.get_char(i);
        let cb = b.get_char(i);
        assert(a@.skip(i as int)[0] == ca);
        assert(b@.skip(i as int)[0] == cb);
        if ca != cb {
            return ca < cb;
        }
        assert(a@.skip(i as int).drop_first() == a@.skip(i + 1));
        assert(b@.skip(i as int).drop_first() == b@.skip(i + 1));
        i = i + 1;
    }
    i == la
}

/// `order` lists every index of `keys` once, in nondecreasing order of key.
pub open spec fn is_sorted_order(order: Seq<usize>, keys: Seq<Seq<char>>) -> bool {
    &&& order.len() == keys.len()
    &&& forall|k: int| 0 <= k < order.len() ==> #[trigger] order[k] < keys.len()
    &&& forall|k: int, l: int| 0 <= k < l < order.len() ==> order[k] != order[l]
    &&& forall|k: int, l: int|
        0 <= k < l < order.len() ==> lex_le(
            #[trigger] keys[order[k] as int],
            #[trigger] keys[order[l] as int],
        )
}

/// Indices with equal keys keep their order.
pub open spec fn is_stable_order(order: Seq<usize>, keys: Seq<Seq<char>>) -> bool {
    forall|k: int, l: int|
        0 <= k < l < order.len() && lex_le(
            #[trigger] keys[order[l] as int],
            #[trigger] keys[order[k] as int],
        ) ==> order[k] < order[l]
}

/// The indices of `keys` in nondecreasing order of key; indices with equal
/// keys keep their order (an insertion sort).
pub fn sorted_order(keys: &Vec<&str>) -> (order: Vec<usize>)
    ensures
        is_sorted_order(order@, strs_view(keys@)),
        is_stable_order(order@, strs_view(keys@)),
{
    let ghost ks = strs_view(keys@);
    let mut order: Vec<usize> = Vec::new();
    let mut i: usize = 0;
    while i < keys.len()
        invariant
            i <= keys.len(),
            ks == strs_view(keys@),
            order@.len() == i,
            forall|k: int| 0 <= k < order@.len() ==> #[trigger] order@[k] < i,
            forall|k: int, l: int| 0 <= k < l < order@.len() ==> order@[k] != order@[l],
            forall|k: int, l: int|
                0 <= k < l < order@.len() ==> lex_le(
                    #[trigger] ks[order@[k] as int],
                    #[trigger] ks[order@[l] as int],
                ),
            is_stable_order(order@, ks),
        decreases keys.len() - i,
    {
        let mut p: usize = 0;
        while p < order.len() && str_le(keys[order[p]], keys[i])
            invariant
                p <= order@.len(),
                i < keys.len(),
                ks == strs_view(keys@),
                forall|k: int| 0 <= k < order@.len() ==> #[trigger] order@[k] < i,
                forall|q: int| 0 <= q < p ==> lex_le(#[trigger] ks[order@[q] as int], ks[i as int]),
            decreases order@.len() - p,
        {
            p = p + 1;
        }
        let ghost old_order = order@;
        proof {
            if p < old_order.len() {
                assert(!lex_le(ks[old_order[p as int] as int], ks[i as int]));
                lemma_lex_total(ks[old_order[p as int] as int], ks[i as int]);
            }
            assert forall|q: int| p <= q < old_order.len() implies lex_le(
                ks[i as int],
                #[trigger] ks[old_order[q] as int],
            ) by {
                if q > p {
                    assert(lex_le(ks[old_order[p as int] as int], ks[old_order[q] as int]));
                    lemma_lex_trans(ks[i as int], ks[old_order[p as int] as int], ks[old_order[q] as int]);
                }
            }
        }
        order.insert(p, i);
        proof {
            old_order.insert_ensures(p as int, i);
            let n = order@;
            assert forall|k: int| 0 <= k < n.len() implies #[trigger] n[k] < i + 1 by {
                if k < p {
                } else if k > p {
                    assert(n[k] == old_order[k - 1]);
                }
            }
            assert forall|k: int, l: int| 0 <= k < l < n.len() implies n[k] != n[l] by {
                if l < p {
                } else if l == p {
                } else if k < p {
                    assert(n[l] == old_order[l - 1]);
                } else if k == p {
                    assert(n[l] == old_order[l - 1]);
                } else {
                    assert(n[l] == old_order[l - 1]);
                    assert(n[k] == old_order[k - 1]);
                }
            }
            assert forall|k: int, l: int| 0 <= k < l < n.len() implies lex_le(
                #[trigger] ks[n[k] as int],
                #[trigger] ks[n[l] as int],
            ) by {
                if l < p {
                } else if l == p {
                    assert(lex_le(ks[old_order[k] as int], ks[i as int]));
                } else if k < p {
                    assert(n[l] == old_order[l - 1]);
                    if l - 1 >= p {
                        assert(lex_le(ks[i as int], ks[old_order[l - 1] as int]));
                        lemma_lex_trans(ks[old_order[k] as int], ks[i as int], ks[old_order[l - 1] as int]);
                    }
                } else if k == p {
                    assert(n[l] == old_order[l - 1]);
                    assert(lex_le(ks[i as int], ks[old_order[l - 1] as int]));
                } else {
                    assert(n[l] == old_order[l - 1]);
                    assert(n[k] == old_order[k - 1]);
                }
            }
            assert forall|k: int, l: int|
                0 <= k < l < n.len() && lex_le(
                    #[trigger] ks[n[l] as int],
                    #[trigger] ks[n[k] as int],
                ) implies n[k] < n[l] by {
                if l < p {
                } else if l == p {
                } else if k < p {
                    assert(n[l] == old_order[l - 1]);
                } else if k == p {
                    assert(n[l] == old_order[l - 1]);
                    if lex_le(ks[old_order[l - 1] as int], ks[i as int]) {
                        if l - 1 > p {
                            assert(lex_le(ks[old_order[p as int] as int], ks[old_order[l - 1] as int]));
                            lemma_lex_trans(
                                ks[old_order[p as int] as int],
                                ks[old_order[l - 1] as int],
                                ks[i as int],
                            );
                        }
                        assert(false);
                    }
                } else {
                    assert(n[l] == old_order[l - 1]);
                    assert(n[k] == old_order[k - 1]);
                }
            }
        }
        i = i + 1;
    }
    order
}

/// `y` comes before `x` when ordering indices by key, ties by index.
pub open spec fn key_before(keys: Seq<Seq<char>>, y: int, x: int) -> bool {
    ||| (lex_le(keys[y], keys[x]) && !lex_le(keys[x], keys[y]))
    ||| (lex_le(keys[y], keys[x]) && lex_le(keys[x], keys[y]) && y < x)
}

/// An order of the indices of `keys` lists each of them.
pub proof fn lemma_sorted_order_covers(order: Seq<usize>, keys: Seq<Seq<char>>, x: int)
    requires
        is_sorted_order(order, keys),
        0 <= x < keys.len(),
    ensures
        exists|k: int| 0 <= k < order.len() && order[k] == x,
{
    let n = keys.len() as int;
    let s = order.map_values(|v: usize| v as int);
    assert(s.no_duplicates()) by {
        assert forall|i: int, j: int| 0 <= i < s.len() && 0 <= j < s.len() && i != j implies s[i]
            != s[j] by {
            if i < j {
                assert(order[i] != order[j]);
            } else {
                assert(order[j] != order[i]);
            }
        }
    }
    s.unique_seq_to_set();
    vstd::set_lib::lemma_int_range(0, n);
    let range = vstd::set_lib::set_int_range(0, n);
    assert(s.to_set().subset_of(range)) by {
        assert forall|v: int| s.to_set().contains(v) implies range.contains(v) by {
            assert(s.contains(v));
            let k = choose|k: int| 0 <= k < s.len() && s[k] == v;
            assert(order[k] < keys.len());
        }
    }
    vstd::seq_lib::seq_to_set_is_finite(s);
    vstd::set_lib::lemma_subset_equality(s.to_set(), range);
    assert(range.contains(x));
    assert(s.to_set().contains(x));
    assert(s.contains(x));
    let k = choose|k: int| 0 <= k < s.len() && s[k] == x;
    assert(order[k] == x);
}

proof fn lemma_increasing_unique(keys: Seq<Seq<char>>, s1: Seq<int>, s2: Seq<int>)
    requires
        s1.len() == s2.len(),
        s1.no_duplicates(),
        s2.no_duplicates(),
        forall|k: int| 0 <= k < s1.len() ==> s2.contains(#[trigger] s1[k]),
        forall|k: int| 0 <= k < s2.len() ==> s1.contains(#[trigger] s2[k]),
        forall|k: int, l: int|
            0 <= k < l < s1.len() ==> key_before(keys, #[trigger] s1[k], #[trigger] s1[l]),
        forall|k: int, l: int|
            0 <= k < l < s2.len() ==> key_before(keys, #[trigger] s2[k], #[trigger] s2[l]),
    ensures
        s1 == s2,
    decreases s1.len(),
{
    if s1.len() > 0 {
        let a = s1[0];
        let b = s2[0];
        if a != b {
            assert(s2.contains(a));
            let j = choose|j: int| 0 <= j < s2.len() && s2[j] == a;
            assert(s1.contains(b));
            let i = choose|i: int| 0 <= i < s1.len() && s1[i] == b;
            assert(j > 0 && i > 0);
            assert(key_before(keys, s2[0], s2[j]));
            assert(key_before(keys, s1[0], s1[i]));
            assert(false);
        }
        let t1 = s1.drop_first();
        let t2 = s2.drop_first();
        assert forall|k: int| 0 <= k < t1.len() implies t2.contains(#[trigger] t1[k]) by {
            assert(t1[k] == s1[k + 1]);
            assert(s2.contains(s1[k + 1]));
            let j = choose|j: int| 0 <= j < s2.len() && s2[j] == s1[k + 1];
            assert(s1[0] != s1[k + 1]);
            assert(j != 0);
            assert(t2[j - 1] == s2[j]);
        }
        assert forall|k: int| 0 <= k < t2.len() implies t1.contains(#[trigger] t2[k]) by {
            assert(t2[k] == s2[k + 1]);
            assert(s1.contains(s2[k + 1]));
            let j = choose|j: int| 0 <= j < s1.len() && s1[j] == s2[k + 1];
            assert(s2[0] != s2[k + 1]);
            assert(j != 0);
            assert(t1[j - 1] == s1[j]);
        }
        assert forall|k: int, l: int| 0 <= k < l < t1.len() implies key_before(
            keys,
            #[trigger] t1[k],
            #[trigger] t1[l],
        ) by {
            assert(t1[k] == s1[k + 1] && t1[l] == s1[l + 1]);
        }
        assert forall|k: int, l: int| 0 <= k < l < t2.len() implies key_before(
            keys,
            #[trigger] t2[k],
            #[trigger] t2[l],
        ) by {
            assert(t2[k] == s2[k + 1] && t2[l] == s2[l + 1]);
        }
        lemma_increasing_unique(keys, t1, t2);
        assert(s1 =~= s2) by {
            assert forall|k: int| 0 <= k < s1.len() implies s1[k] == s2[k] by {
                if k > 0 {
                    assert(s1[k] == t1[k - 1]);
                    assert(s2[k] == t2[k - 1]);
                }
            }
        }
    }
}

/// There is one order that lists the indices of `keys` by key, ties in index
/// order: sorting rows this way has exactly one outcome.
pub proof fn law_sorted_stable_order_unique(
    o1: Seq<usize>,
    o2: Seq<usize>,
    keys: Seq<Seq<char>>,
)
    requires
        is_sorted_order(o1, keys),
        is_stable_order(o1, keys),
        is_sorted_order(o2, keys),
        is_stable_order(o2, keys),
    ensures
        o1 == o2,
{
    let s1 = o1.map_values(|v: usize| v as int);
    let s2 = o2.map_values(|v: usize| v as int);
    assert(s1.no_duplicates()) by {
        assert forall|i: int, j: int| 0 <= i < s1.len() && 0 <= j < s1.len() && i != j implies s1[i]
            != s1[j] by {
            if i < j {
                assert(o1[i] != o1[j]);
            } else {
                assert(o1[j] != o1[i]);
            }
        }
    }
    assert(s2.no_duplicates()) by {
        assert forall|i: int, j: int| 0 <= i < s2.len() && 0 <= j < s2.len() && i != j implies s2[i]
            != s2[j] by {
            if i < j {
                assert(o2[i] != o2[j]);
            } else {
                assert(o2[j] != o2[i]);
            }
        }
    }
    assert forall|k: int| 0 <= k < s1.len() implies s2.contains(#[trigger] s1[k]) by {
        assert(o1[k] < keys.len());
        lemma_sorted_order_covers(o2, keys, o1[k] as int);
        let j = choose|j: int| 0 <= j < o2.len() && o2[j] == o1[k] as int;
        assert(s2[j] == s1[k]);
    }
    assert forall|k: int| 0 <= k < s2.len() implies s1.contains(#[trigger] s2[k]) by {
        assert(o2[k] < keys.len());
        lemma_sorted_order_covers(o1, keys, o2[k] as int);
        let j = choose|j: int| 0 <= j < o1.len() && o1[j] == o2[k] as int;
        assert(s1[j] == s2[k]);
    }
    assert forall|k: int, l: int| 0 <= k < l < s1.len() implies key_before(
        keys,
        #[trigger] s1[k],
        #[trigger] s1[l],
    ) by {
        assert(lex_le(keys[o1[k] as int], keys[o1[l] as int]));
        if lex_le(keys[o1[l] as int], keys[o1[k] as int]) {
            assert(o1[k] < o1[l]);
        }
    }
    assert forall|k: int, l: int| 0 <= k < l < s2.len() implies key_before(
        keys,
        #[trigger] s2[k],
        #[trigger] s2[l],
    ) by {
        assert(lex_le(keys[o2[k] as int], keys[o2[l] as int]));
        if lex_le(keys[o2[l] as int], keys[o2[k] as int]) {
            assert(o2[k] < o2[l]);
        }
    }
    lemma_increasing_unique(keys, s1, s2);
    assert(o1 =~= o2) by {
        assert forall|k: int| 0 <= k < o1.len() implies o1[k] == o2[k] by {
            assert(s1[k] == s2[k]);
        }
    }
}

} // verus!
