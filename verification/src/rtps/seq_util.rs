//! Facts about sequences of keyed items that the caches and proxies keep.
use vstd::prelude::*;

verus! {

/// `s` without the items whose key is `k`, in their order.
pub open spec fn drop_key<T>(s: Seq<T>, f: spec_fn(T) -> (int, int), k: (int, int)) -> Seq<T>
    decreases s.len(),
{
    if s.len() == 0 {
        s
    } else if f(s.last()) == k {
        drop_key(s.drop_last(), f, k)
    } else {
        drop_key(s.drop_last(), f, k).push(s.last())
    }
}

/// The items of `s` that satisfy `p`, in their order.
pub open spec fn select<T>(s: Seq<T>, p: spec_fn(T) -> bool) -> Seq<T>
    decreases s.len(),
{
    if s.len() == 0 {
        s
    } else if p(s.last()) {
        select(s.drop_last(), p).push(s.last())
    } else {
        select(s.drop_last(), p)
    }
}

/// The keys of the items of `s`.
pub open spec fn keys_by<T>(s: Seq<T>, f: spec_fn(T) -> (int, int)) -> Seq<(int, int)> {
    s.map_values(f)
}

/// Whether no two items of `s` have the same key.
pub open spec fn distinct_by<T>(s: Seq<T>, f: spec_fn(T) -> (int, int)) -> bool {
    forall|i: int, j: int| 0 <= i < j < s.len() ==> f(#[trigger] s[i]) != f(#[trigger] s[j])
}

/// Whether some item of `s` has key `k`.
pub open spec fn has_key<T>(s: Seq<T>, f: spec_fn(T) -> (int, int), k: (int, int)) -> bool {
    exists|i: int| 0 <= i < s.len() && f(#[trigger] s[i]) == k
}

pub proof fn lemma_select_members<T>(s: Seq<T>, p: spec_fn(T) -> bool)
    ensures
        forall|x: T| #[trigger] select(s, p).contains(x) <==> (s.contains(x) && p(x)),
        select(s, p).len() <= s.len(),
    decreases s.len(),
{
    if s.len() > 0 {
        lemma_select_members(s.drop_last(), p);
        assert forall|x: T| select(s, p).contains(x) <==> (s.contains(x) && p(x)) by {
            if s.contains(x) {
                let i = choose|i: int| 0 <= i < s.len() && s[i] == x;
                if i < s.len() - 1 {
                    assert(s.drop_last()[i] == x);
                }
            }
            if s.drop_last().contains(x) {
                let i = choose|i: int| 0 <= i < s.drop_last().len() && s.drop_last()[i] == x;
                assert(s[i] == x);
            }
            if select(s, p).contains(x) && p(s.last()) {
                let i = choose|i: int| 0 <= i < select(s, p).len() && select(s, p)[i] == x;
                if i < select(s.drop_last(), p).len() {
                    assert(select(s.drop_last(), p)[i] == x);
                }
            }
            if p(s.last()) && select(s.drop_last(), p).contains(x) {
                let i = choose|i: int|
                    0 <= i < select(s.drop_last(), p).len() && select(s.drop_last(), p)[i] == x;
                assert(select(s, p)[i] == x);
            }
            if p(s.last()) && x == s.last() {
                assert(select(s, p)[select(s, p).len() - 1] == x);
            }
        }
    }
}

/// Items of `s` that share a key with nothing else stay distinct when some are
/// dropped by key.
pub proof fn lemma_drop_key_facts<T>(s: Seq<T>, f: spec_fn(T) -> (int, int), k: (int, int))
    requires
        distinct_by(s, f),
    ensures
        distinct_by(drop_key(s, f, k), f),
        forall|x: (int, int)| has_key(drop_key(s, f, k), f, x) <==> (has_key(s, f, x) && x != k),
        forall|x: T| drop_key(s, f, k).contains(x) ==> s.contains(x),
        !has_key(s, f, k) ==> drop_key(s, f, k) == s,
        drop_key(s, f, k).len() <= s.len(),
    decreases s.len(),
{
    if s.len() > 0 {
        let t = s.drop_last();
        assert(distinct_by(t, f)) by {
            assert forall|i: int, j: int| 0 <= i < j < t.len() implies f(#[trigger] t[i]) != f(
                #[trigger] t[j],
            ) by {
                assert(t[i] == s[i] && t[j] == s[j]);
            }
        }
        lemma_drop_key_facts(t, f, k);
        let d = drop_key(t, f, k);
        let l = s.last();
        assert forall|x: (int, int)| has_key(drop_key(s, f, k), f, x) <==> (has_key(s, f, x) && x
            != k) by {
            if has_key(s, f, x) {
                let i = choose|i: int| 0 <= i < s.len() && f(s[i]) == x;
                if i < t.len() {
                    assert(f(t[i]) == x);
                }
            }
            if has_key(t, f, x) {
                let i = choose|i: int| 0 <= i < t.len() && f(t[i]) == x;
                assert(f(s[i]) == x);
            }
            if f(l) != k {
                if has_key(drop_key(s, f, k), f, x) {
                    let i = choose|i: int|
                        0 <= i < drop_key(s, f, k).len() && f(drop_key(s, f, k)[i]) == x;
                    if i < d.len() {
                        assert(f(d[i]) == x);
                    } else {
                        assert(f(s[s.len() - 1]) == x);
                    }
                }
                if has_key(d, f, x) {
                    let i = choose|i: int| 0 <= i < d.len() && f(d[i]) == x;
                    assert(f(drop_key(s, f, k)[i]) == x);
                }
                if x == f(l) {
                    assert(f(drop_key(s, f, k)[d.len() as int]) == x);
                }
            }
        }
        assert forall|x: T| drop_key(s, f, k).contains(x) implies s.contains(x) by {
            let i = choose|i: int| 0 <= i < drop_key(s, f, k).len() && drop_key(s, f, k)[i] == x;
            if f(l) == k || i < d.len() {
                if f(l) == k {
                    assert(d[i] == x);
                } else {
                    assert(drop_key(s, f, k)[i] == d[i]);
                }
                assert(d.contains(x));
                assert(t.contains(x));
                let j = choose|j: int| 0 <= j < t.len() && t[j] == x;
                assert(t[j] == s[j]);
            } else {
                assert(s[s.len() - 1] == x);
            }
        }
        if f(l) != k {
            assert forall|i: int, j: int| 0 <= i < j < drop_key(s, f, k).len() implies f(
                #[trigger] drop_key(s, f, k)[i],
            ) != f(#[trigger] drop_key(s, f, k)[j]) by {
                let ds = drop_key(s, f, k);
                assert(ds == d.push(l));
                assert(ds[i] == d[i]);
                if j == d.len() {
                    assert(ds[j] == l);
                    assert(d.contains(d[i]));
                    assert(t.contains(d[i]));
                    let m = choose|m: int| 0 <= m < t.len() && t[m] == d[i];
                    assert(t[m] == s[m]);
                    assert(f(s[m]) != f(s[s.len() - 1]));
                } else {
                    assert(ds[j] == d[j]);
                }
            }
        }
        if !has_key(s, f, k) {
            assert(f(s[s.len() - 1]) != k);
            assert(!has_key(t, f, k)) by {
                if has_key(t, f, k) {
                    let i = choose|i: int| 0 <= i < t.len() && f(t[i]) == k;
                    assert(f(s[i]) == k);
                }
            }
            assert(s =~= t.push(l));
        }
    }
}

/// Removing the one item with key `k` by position is dropping that key.
pub proof fn lemma_remove_is_drop_key<T>(s: Seq<T>, f: spec_fn(T) -> (int, int), i: int)
    requires
        distinct_by(s, f),
        0 <= i < s.len(),
    ensures
        s.remove(i) == drop_key(s, f, f(s[i])),
    decreases s.len(),
{
    let k = f(s[i]);
    let t = s.drop_last();
    if i == s.len() - 1 {
        assert(!has_key(t, f, k)) by {
            if has_key(t, f, k) {
                let j = choose|j: int| 0 <= j < t.len() && f(t[j]) == k;
                assert(f(s[j]) == f(s[i]));
            }
        }
        assert(distinct_by(t, f)) by {
            assert forall|a: int, b: int| 0 <= a < b < t.len() implies f(#[trigger] t[a]) != f(
                #[trigger] t[b],
            ) by {
                assert(t[a] == s[a] && t[b] == s[b]);
            }
        }
        lemma_drop_key_facts(t, f, k);
        assert(s.remove(i) =~= t);
    } else {
        assert(distinct_by(t, f)) by {
            assert forall|a: int, b: int| 0 <= a < b < t.len() implies f(#[trigger] t[a]) != f(
                #[trigger] t[b],
            ) by {
                assert(t[a] == s[a] && t[b] == s[b]);
            }
        }
        assert(t[i] == s[i]);
        lemma_remove_is_drop_key(t, f, i);
        assert(f(s.last()) != k);
        assert(s.remove(i) =~= t.remove(i).push(s.last()));
    }
}

/// Keys among the first `i + 1` items are those among the first `i` and the
/// key of item `i`.
pub proof fn lemma_has_key_take_step<T>(s: Seq<T>, f: spec_fn(T) -> (int, int), i: int)
    requires
        0 <= i < s.len(),
    ensures
        forall|x: (int, int)|
            has_key(s.take(i + 1), f, x) <==> (has_key(s.take(i), f, x) || x == f(s[i])),
{
    assert forall|x: (int, int)|
        has_key(s.take(i + 1), f, x) <==> (has_key(s.take(i), f, x) || x == f(s[i])) by {
        if has_key(s.take(i + 1), f, x) {
            let a = choose|a: int| 0 <= a < i + 1 && f(#[trigger] s.take(i + 1)[a]) == x;
            if a < i {
                assert(s.take(i)[a] == s.take(i + 1)[a]);
            }
        }
        if has_key(s.take(i), f, x) {
            let a = choose|a: int| 0 <= a < i && f(#[trigger] s.take(i)[a]) == x;
            assert(s.take(i)[a] == s.take(i + 1)[a]);
        }
        if x == f(s[i]) {
            assert(f(s.take(i + 1)[i]) == x);
        }
    }
}

/// An item among the first `i` has a key among the first `i`.
pub proof fn lemma_has_key_take_member<T>(s: Seq<T>, f: spec_fn(T) -> (int, int), i: int, a: int)
    requires
        0 <= a < i <= s.len(),
    ensures
        has_key(s.take(i), f, f(s[a])),
{
    assert(s.take(i)[a] == s[a]);
}

/// The items whose key satisfies `p`, as a test on items.
pub open spec fn by_key<T>(f: spec_fn(T) -> (int, int), p: spec_fn((int, int)) -> bool) -> spec_fn(T) -> bool {
    |x: T| p(f(x))
}

/// Selecting items keeps keys distinct.
pub proof fn lemma_select_distinct<T>(s: Seq<T>, f: spec_fn(T) -> (int, int), p: spec_fn(T) -> bool)
    requires
        distinct_by(s, f),
    ensures
        distinct_by(select(s, p), f),
    decreases s.len(),
{
    if s.len() > 0 {
        let t = s.drop_last();
        assert forall|a: int, b: int| 0 <= a < b < t.len() implies f(#[trigger] t[a]) != f(
            #[trigger] t[b],
        ) by {
            assert(t[a] == s[a] && t[b] == s[b]);
        }
        lemma_select_distinct(t, f, p);
        lemma_select_members(t, p);
        let d = select(t, p);
        if p(s.last()) {
            let e = d.push(s.last());
            assert forall|a: int, b: int| 0 <= a < b < e.len() implies f(#[trigger] e[a]) != f(
                #[trigger] e[b],
            ) by {
                if b == d.len() {
                    assert(e[a] == d[a]);
                    assert(d.contains(d[a]));
                    assert(t.contains(d[a]));
                    let m = choose|m: int| 0 <= m < t.len() && t[m] == d[a];
                    assert(t[m] == s[m]);
                    assert(f(s[m]) != f(s[s.len() - 1]));
                } else {
                    assert(e[a] == d[a] && e[b] == d[b]);
                }
            }
        }
    }
}

/// The keys among the selected items are the keys that pass the test.
pub proof fn lemma_select_has_key<T>(
    s: Seq<T>,
    f: spec_fn(T) -> (int, int),
    p: spec_fn((int, int)) -> bool,
)
    ensures
        forall|k: (int, int)|
            #[trigger] has_key(select(s, by_key(f, p)), f, k) <==> (has_key(s, f, k) && p(k)),
{
    lemma_select_members(s, by_key(f, p));
    let d = select(s, by_key(f, p));
    assert forall|k: (int, int)| has_key(d, f, k) <==> (has_key(s, f, k) && p(k)) by {
        if has_key(d, f, k) {
            let a = choose|a: int| 0 <= a < d.len() && f(#[trigger] d[a]) == k;
            assert(d.contains(d[a]));
            assert(s.contains(d[a]) && by_key(f, p)(d[a]));
            let m = choose|m: int| 0 <= m < s.len() && s[m] == d[a];
            assert(f(s[m]) == k);
        }
        if has_key(s, f, k) && p(k) {
            let m = choose|m: int| 0 <= m < s.len() && f(#[trigger] s[m]) == k;
            assert(s.contains(s[m]));
            assert(by_key(f, p)(s[m]));
            assert(d.contains(s[m]));
            let a = choose|a: int| 0 <= a < d.len() && d[a] == s[m];
            assert(f(d[a]) == k);
        }
    }
}

/// Whether the numbers of the items of `s` increase strictly.
pub open spec fn sorted_by<T>(s: Seq<T>, f: spec_fn(T) -> int) -> bool {
    forall|i: int, j: int| 0 <= i < j < s.len() ==> f(#[trigger] s[i]) < f(#[trigger] s[j])
}

/// The item of `s` numbered `n`, if any.
pub open spec fn find_by<T>(s: Seq<T>, f: spec_fn(T) -> int, n: int) -> Option<T> {
    if exists|i: int| 0 <= i < s.len() && f(#[trigger] s[i]) == n {
        Some(s[choose|i: int| 0 <= i < s.len() && f(#[trigger] s[i]) == n])
    } else {
        None
    }
}

/// In a strictly increasing sequence, the item numbered as item `i` is item `i`.
pub proof fn lemma_find_at<T>(s: Seq<T>, f: spec_fn(T) -> int, i: int)
    requires
        sorted_by(s, f),
        0 <= i < s.len(),
    ensures
        find_by(s, f, f(s[i])) == Some(s[i]),
{
    assert(f(s[i]) == f(s[i]));
    let j = choose|j: int| 0 <= j < s.len() && f(#[trigger] s[j]) == f(s[i]);
    if j < i {
        assert(f(s[j]) < f(s[i]));
    } else if i < j {
        assert(f(s[i]) < f(s[j]));
    }
}

/// No item numbered `n` means nothing is found for `n`.
pub proof fn lemma_find_absent<T>(s: Seq<T>, f: spec_fn(T) -> int, n: int)
    requires
        forall|i: int| 0 <= i < s.len() ==> f(#[trigger] s[i]) != n,
    ensures
        find_by(s, f, n) is None,
{
}

/// What is found for each number, after item `pos` is replaced by an item with
/// the same number.
pub proof fn lemma_update_find<T>(s: Seq<T>, f: spec_fn(T) -> int, pos: int, e: T)
    requires
        sorted_by(s, f),
        0 <= pos < s.len(),
        f(s[pos]) == f(e),
    ensures
        sorted_by(s.update(pos, e), f),
        forall|m: int|
            #[trigger] find_by(s.update(pos, e), f, m) == if m == f(e) {
                Some(e)
            } else {
                find_by(s, f, m)
            },
{
    let t = s.update(pos, e);
    assert forall|i: int, j: int| 0 <= i < j < t.len() implies f(#[trigger] t[i]) < f(
        #[trigger] t[j],
    ) by {
        assert(f(t[i]) == f(s[i]) && f(t[j]) == f(s[j]));
    }
    assert forall|m: int|
        #[trigger] find_by(t, f, m) == if m == f(e) {
            Some(e)
        } else {
            find_by(s, f, m)
        } by {
        if m == f(e) {
            lemma_find_at(t, f, pos);
        } else if exists|i: int| 0 <= i < s.len() && f(#[trigger] s[i]) == m {
            let i = choose|i: int| 0 <= i < s.len() && f(#[trigger] s[i]) == m;
            lemma_find_at(s, f, i);
            assert(t[i] == s[i]);
            lemma_find_at(t, f, i);
        } else {
            assert forall|i: int| 0 <= i < t.len() implies f(#[trigger] t[i]) != m by {
                assert(f(t[i]) == f(s[i]));
            }
            lemma_find_absent(t, f, m);
        }
    }
}

/// What is found for each number, after an item with a new number is put at
/// the place that keeps the numbers increasing.
pub proof fn lemma_insert_find<T>(s: Seq<T>, f: spec_fn(T) -> int, pos: int, e: T)
    requires
        sorted_by(s, f),
        0 <= pos <= s.len(),
        forall|i: int| 0 <= i < pos ==> f(#[trigger] s[i]) < f(e),
        pos < s.len() ==> f(e) < f(s[pos]),
    ensures
        sorted_by(s.insert(pos, e), f),
        forall|m: int|
            #[trigger] find_by(s.insert(pos, e), f, m) == if m == f(e) {
                Some(e)
            } else {
                find_by(s, f, m)
            },
{
    let t = s.insert(pos, e);
    assert forall|i: int| pos <= i < s.len() implies f(e) < f(#[trigger] s[i]) by {
        if pos < i {
            assert(f(s[pos]) < f(s[i]));
        }
    }
    assert forall|i: int, j: int| 0 <= i < j < t.len() implies f(#[trigger] t[i]) < f(
        #[trigger] t[j],
    ) by {
        if j < pos {
            assert(t[i] == s[i] && t[j] == s[j]);
        } else if j == pos {
            assert(t[i] == s[i]);
        } else if i < pos {
            assert(t[i] == s[i] && t[j] == s[j - 1]);
            assert(f(s[i]) < f(e));
        } else if i == pos {
            assert(t[j] == s[j - 1]);
        } else {
            assert(t[i] == s[i - 1] && t[j] == s[j - 1]);
        }
    }
    assert forall|m: int|
        #[trigger] find_by(t, f, m) == if m == f(e) {
            Some(e)
        } else {
            find_by(s, f, m)
        } by {
        if m == f(e) {
            assert(t[pos] == e);
            lemma_find_at(t, f, pos);
        } else if exists|i: int| 0 <= i < s.len() && f(#[trigger] s[i]) == m {
            let i = choose|i: int| 0 <= i < s.len() && f(#[trigger] s[i]) == m;
            lemma_find_at(s, f, i);
            if i < pos {
                assert(t[i] == s[i]);
                lemma_find_at(t, f, i);
            } else {
                assert(t[i + 1] == s[i]);
                lemma_find_at(t, f, i + 1);
            }
        } else {
            assert forall|i: int| 0 <= i < t.len() implies f(#[trigger] t[i]) != m by {
                if i < pos {
                    assert(t[i] == s[i]);
                } else if i > pos {
                    assert(t[i] == s[i - 1]);
                }
            }
            lemma_find_absent(t, f, m);
        }
    }
}

/// What is found for each number, after item `pos` is removed.
pub proof fn lemma_remove_find<T>(s: Seq<T>, f: spec_fn(T) -> int, pos: int)
    requires
        sorted_by(s, f),
        0 <= pos < s.len(),
    ensures
        sorted_by(s.remove(pos), f),
        forall|m: int|
            #[trigger] find_by(s.remove(pos), f, m) == if m == f(s[pos]) {
                None
            } else {
                find_by(s, f, m)
            },
{
    let t = s.remove(pos);
    assert forall|i: int, j: int| 0 <= i < j < t.len() implies f(#[trigger] t[i]) < f(
        #[trigger] t[j],
    ) by {
        let i0 = if i < pos { i } else { i + 1 };
        let j0 = if j < pos { j } else { j + 1 };
        assert(t[i] == s[i0] && t[j] == s[j0]);
    }
    assert forall|m: int|
        #[trigger] find_by(t, f, m) == if m == f(s[pos]) {
            None
        } else {
            find_by(s, f, m)
        } by {
        if m == f(s[pos]) {
            assert forall|i: int| 0 <= i < t.len() implies f(#[trigger] t[i]) != m by {
                let i0 = if i < pos { i } else { i + 1 };
                assert(t[i] == s[i0]);
            }
            lemma_find_absent(t, f, m);
        } else if exists|i: int| 0 <= i < s.len() && f(#[trigger] s[i]) == m {
            let i = choose|i: int| 0 <= i < s.len() && f(#[trigger] s[i]) == m;
            lemma_find_at(s, f, i);
            if i < pos {
                assert(t[i] == s[i]);
                lemma_find_at(t, f, i);
            } else {
                assert(t[i - 1] == s[i]);
                lemma_find_at(t, f, i - 1);
            }
        } else {
            assert forall|i: int| 0 <= i < t.len() implies f(#[trigger] t[i]) != m by {
                let i0 = if i < pos { i } else { i + 1 };
                assert(t[i] == s[i0]);
            }
            lemma_find_absent(t, f, m);
        }
    }
}

/// Changing every item without changing its number keeps the order, and what
/// is found for a number is the changed item.
pub proof fn lemma_map_find<T>(s: Seq<T>, f: spec_fn(T) -> int, g: spec_fn(T) -> T)
    requires
        sorted_by(s, f),
        forall|x: T| f(#[trigger] g(x)) == f(x),
    ensures
        sorted_by(s.map_values(g), f),
        forall|m: int|
            #[trigger] find_by(s.map_values(g), f, m) == match find_by(s, f, m) {
                Some(x) => Some(g(x)),
                None => None,
            },
{
    let t = s.map_values(g);
    assert forall|i: int, j: int| 0 <= i < j < t.len() implies f(#[trigger] t[i]) < f(
        #[trigger] t[j],
    ) by {
        assert(f(g(s[i])) == f(s[i]) && f(g(s[j])) == f(s[j]));
    }
    assert forall|m: int|
        #[trigger] find_by(t, f, m) == match find_by(s, f, m) {
            Some(x) => Some(g(x)),
            None => None,
        } by {
        if exists|i: int| 0 <= i < s.len() && f(#[trigger] s[i]) == m {
            let i = choose|i: int| 0 <= i < s.len() && f(#[trigger] s[i]) == m;
            lemma_find_at(s, f, i);
            assert(f(t[i]) == f(s[i]));
            lemma_find_at(t, f, i);
        } else {
            assert forall|i: int| 0 <= i < t.len() implies f(#[trigger] t[i]) != m by {
                assert(f(g(s[i])) == f(s[i]));
            }
            lemma_find_absent(t, f, m);
        }
    }
}

} // verus!
