//! Stable sorting of the small lists that the panels show.
use vstd::prelude::*;

verus! {

/// A sorted list with one more item, put after every item that it does not
/// come before.
pub open spec fn inserted<T>(s: Seq<T>, x: T, lt: spec_fn(T, T) -> bool) -> Seq<T>
    decreases s.len(),
{
    if s.len() == 0 || !lt(x, s.last()) {
        s.push(x)
    } else {
        inserted(s.drop_last(), x, lt).push(s.last())
    }
}

/// The items of a list in order, equal ones as they stood.
pub open spec fn stable_sort<T>(s: Seq<T>, lt: spec_fn(T, T) -> bool) -> Seq<T>
    decreases s.len(),
{
    if s.len() == 0 {
        s
    } else {
        inserted(stable_sort(s.drop_last(), lt), s.last(), lt)
    }
}

/// Whether `lt` orders items by some key: no item comes before itself, and
/// coming before carries over to whatever does not come before.
pub open spec fn orders<T>(lt: spec_fn(T, T) -> bool) -> bool {
    &&& forall|a: T| !#[trigger] lt(a, a)
    &&& forall|a: T, b: T, c: T|
        #![trigger lt(a, b), lt(b, c)]
        lt(a, b) && lt(b, c) ==> lt(a, c)
    &&& forall|a: T, b: T, c: T|
        #![trigger lt(a, b), lt(b, c)]
        !lt(a, b) && !lt(b, c) ==> !lt(a, c)
}

/// Whether no item comes before one that stands ahead of it.
pub open spec fn in_order<T>(s: Seq<T>, lt: spec_fn(T, T) -> bool) -> bool {
    forall|i: int, j: int| 0 <= i < j < s.len() ==> !lt(#[trigger] s[j], #[trigger] s[i])
}

proof fn lemma_inserted_items<T>(s: Seq<T>, x: T, lt: spec_fn(T, T) -> bool, i: int)
    requires
        0 <= i < inserted(s, x, lt).len(),
    ensures
        inserted(s, x, lt)[i] == x || s.contains(inserted(s, x, lt)[i]),
    decreases s.len(),
{
    if s.len() == 0 || !lt(x, s.last()) {
        if i < s.len() {
            assert(s.contains(s[i]));
        }
    } else {
        let t = s.drop_last();
        if i < inserted(t, x, lt).len() {
            lemma_inserted_items(t, x, lt, i);
            if t.contains(inserted(t, x, lt)[i]) {
                let k = choose|k: int| 0 <= k < t.len() && t[k] == inserted(t, x, lt)[i];
                assert(s[k] == t[k]);
            }
        } else {
            assert(s.contains(s[s.len() - 1]));
        }
    }
}

proof fn lemma_inserted_in_order<T>(s: Seq<T>, x: T, lt: spec_fn(T, T) -> bool)
    requires
        orders(lt),
        in_order(s, lt),
    ensures
        in_order(inserted(s, x, lt), lt),
    decreases s.len(),
{
    let r = inserted(s, x, lt);
    if s.len() == 0 || !lt(x, s.last()) {
        assert forall|i: int, j: int| 0 <= i < j < r.len() implies !lt(
            #[trigger] r[j],
            #[trigger] r[i],
        ) by {
            if j == s.len() {
                assert(!lt(x, s.last()));
                if i < s.len() - 1 {
                    assert(!lt(s.last(), s[i]));
                }
            }
        }
    } else {
        let t = s.drop_last();
        lemma_inserted_in_order(t, x, lt);
        let y = s.last();
        let u = inserted(t, x, lt);
        assert(lt(x, y));
        assert(!lt(y, x)) by {
            if lt(y, x) {
                assert(lt(x, x));
            }
        }
        assert forall|i: int, j: int| 0 <= i < j < r.len() implies !lt(
            #[trigger] r[j],
            #[trigger] r[i],
        ) by {
            if j == u.len() {
                lemma_inserted_items(t, x, lt, i);
                if t.contains(u[i]) {
                    let k = choose|k: int| 0 <= k < t.len() && t[k] == u[i];
                    assert(!lt(s[s.len() - 1], s[k]));
                }
            } else {
                assert(!lt(u[j], u[i]));
            }
        }
    }
}

/// A sorted list is in order.
pub proof fn law_stable_sort_in_order<T>(s: Seq<T>, lt: spec_fn(T, T) -> bool)
    requires
        orders(lt),
    ensures
        in_order(stable_sort(s, lt), lt),
    decreases s.len(),
{
    if s.len() > 0 {
        law_stable_sort_in_order(s.drop_last(), lt);
        lemma_inserted_in_order(stable_sort(s.drop_last(), lt), s.last(), lt);
    }
}

proof fn lemma_inserted_multiset<T>(s: Seq<T>, x: T, lt: spec_fn(T, T) -> bool)
    ensures
        inserted(s, x, lt).to_multiset() == s.to_multiset().insert(x),
        inserted(s, x, lt).len() == s.len() + 1,
    decreases s.len(),
{
    broadcast use vstd::seq_lib::group_to_multiset_ensures;

    if s.len() == 0 || !lt(x, s.last()) {
    } else {
        lemma_inserted_multiset(s.drop_last(), x, lt);
        assert(s =~= s.drop_last().push(s.last()));
        assert(inserted(s, x, lt).to_multiset() =~= s.to_multiset().insert(x));
    }
}

/// Sorting keeps every item, as often as it occurs.
pub proof fn law_stable_sort_keeps_items<T>(s: Seq<T>, lt: spec_fn(T, T) -> bool)
    ensures
        stable_sort(s, lt).to_multiset() == s.to_multiset(),
        stable_sort(s, lt).len() == s.len(),
    decreases s.len(),
{
    broadcast use vstd::seq_lib::group_to_multiset_ensures;

    if s.len() > 0 {
        law_stable_sort_keeps_items(s.drop_last(), lt);
        lemma_inserted_multiset(stable_sort(s.drop_last(), lt), s.last(), lt);
        assert(s =~= s.drop_last().push(s.last()));
    }
}

/// The items of a list that come neither before nor after `x`.
pub open spec fn ties<T>(s: Seq<T>, x: T, lt: spec_fn(T, T) -> bool) -> Seq<T>
    decreases s.len(),
{
    if s.len() == 0 {
        s
    } else {
        let rest = ties(s.drop_last(), x, lt);
        if !lt(x, s.last()) && !lt(s.last(), x) {
            rest.push(s.last())
        } else {
            rest
        }
    }
}

proof fn lemma_inserted_ties<T>(s: Seq<T>, x: T, y: T, lt: spec_fn(T, T) -> bool)
    requires
        orders(lt),
    ensures
        ties(inserted(s, x, lt), y, lt) == ties(s.push(x), y, lt),
    decreases s.len(),
{
    if s.len() == 0 || !lt(x, s.last()) {
    } else {
        let t = s.drop_last();
        let z = s.last();
        reveal_with_fuel(ties, 3);
        lemma_inserted_ties(t, x, y, lt);
        assert(inserted(s, x, lt).drop_last() =~= inserted(t, x, lt));
        assert(t.push(x).drop_last() =~= t);
        assert(s.push(x).drop_last() =~= s);
        // `x` comes before `z`, so at most one of them ties with `y`.
        assert(lt(x, z));
        if !lt(y, x) && !lt(x, y) && !lt(y, z) && !lt(z, y) {
            assert(!lt(x, y) && !lt(y, z) ==> !lt(x, z));
        }
    }
}

/// Sorting leaves items that tie in the order in which they stood.
pub proof fn law_stable_sort_keeps_ties<T>(s: Seq<T>, y: T, lt: spec_fn(T, T) -> bool)
    requires
        orders(lt),
    ensures
        ties(stable_sort(s, lt), y, lt) == ties(s, y, lt),
    decreases s.len(),
{
    if s.len() > 0 {
        let t = stable_sort(s.drop_last(), lt);
        law_stable_sort_keeps_ties(s.drop_last(), y, lt);
        lemma_inserted_ties(t, s.last(), y, lt);
        assert(t.push(s.last()).drop_last() =~= t);
    }
}

/// Sorting what is in order already changes nothing.
pub proof fn law_sorted_stays<T>(s: Seq<T>, lt: spec_fn(T, T) -> bool)
    requires
        in_order(s, lt),
    ensures
        stable_sort(s, lt) == s,
    decreases s.len(),
{
    if s.len() > 0 {
        let t = s.drop_last();
        assert forall|i: int, j: int| 0 <= i < j < t.len() implies !lt(
            #[trigger] t[j],
            #[trigger] t[i],
        ) by {
            assert(!lt(s[j], s[i]));
        }
        law_sorted_stays(t, lt);
        if t.len() > 0 {
            assert(!lt(s[s.len() - 1], s[t.len() - 1]));
        }
        assert(t.push(s.last()) =~= s);
    }
}

/// The place of an item that is inserted.
proof fn lemma_inserted_at<T>(s: Seq<T>, x: T, lt: spec_fn(T, T) -> bool, p: int)
    requires
        0 <= p <= s.len(),
        forall|i: int| p <= i < s.len() ==> lt(x, #[trigger] s[i]),
        p > 0 ==> !lt(x, s[p - 1]),
    ensures
        inserted(s, x, lt) == s.insert(p, x),
    decreases s.len(),
{
    if p == s.len() {
        assert(s.insert(p, x) =~= s.push(x));
    } else {
        assert(lt(x, s[s.len() - 1]));
        lemma_inserted_at(s.drop_last(), x, lt, p);
        assert(s.insert(p, x) =~= s.drop_last().insert(p, x).push(s.last()));
    }
}

/// Sort a list in place, equal items as they stood.
pub fn sort<T, F: Fn(&T, &T) -> bool>(
    v: &mut Vec<T>,
    before: F,
    Ghost(lt): Ghost<spec_fn(T, T) -> bool>,
)
    requires
        forall|a: &T, b: &T| #[trigger] call_requires(before, (a, b)),
        forall|a: &T, b: &T, r: bool| #[trigger]
            call_ensures(before, (a, b), r) ==> r == lt(*a, *b),
    ensures
        final(v)@ == stable_sort(old(v)@, lt),
{
    let n: usize = v.len();
    let mut i: usize = 0;
    let ghost start = v@;
    assert(start.take(0) =~= Seq::<T>::empty());
    assert(v@ =~= stable_sort(start.take(0), lt) + start.skip(0));
    while i < n
        invariant
            i <= n,
            n == start.len(),
            v@.len() == n,
            stable_sort(start.take(i as int), lt).len() == i,
            v@ == stable_sort(start.take(i as int), lt) + start.skip(i as int),
            forall|a: &T, b: &T| #[trigger] call_requires(before, (a, b)),
            forall|a: &T, b: &T, r: bool| #[trigger]
                call_ensures(before, (a, b), r) ==> r == lt(*a, *b),
        decreases n - i,
    {
        let ghost sorted = stable_sort(start.take(i as int), lt);
        let ghost cur = v@;
        let mut p: usize = i;
        while p > 0 && before(&v[i], &v[p - 1])
            invariant
                p <= i < n,
                v@ == cur,
                v@.len() == n,
                forall|k: int| p <= k < i ==> lt(cur[i as int], #[trigger] cur[k]),
                forall|a: &T, b: &T| #[trigger] call_requires(before, (a, b)),
                forall|a: &T, b: &T, r: bool| #[trigger]
                    call_ensures(before, (a, b), r) ==> r == lt(*a, *b),
            ensures
                p <= i < n,
                v@ == cur,
                forall|k: int| p <= k < i ==> lt(cur[i as int], #[trigger] cur[k]),
                p > 0 ==> !lt(cur[i as int], cur[p - 1]),
            decreases p,
        {
            p = p - 1;
        }
        let ghost x = cur[i as int];
        if p < i {
            let moved = v.remove(i);
            v.insert(p, moved);
        }
        proof {
            assert(sorted =~= cur.take(i as int));
            assert(x == start[i as int]);
            lemma_inserted_at(sorted, x, lt, p as int);
            assert(start.take(i + 1).drop_last() =~= start.take(i as int));
            assert(stable_sort(start.take(i + 1), lt) == sorted.insert(p as int, x));
            assert(v@ =~= sorted.insert(p as int, x) + start.skip(i + 1));
        }
        i = i + 1;
    }
    assert(start.take(n as int) =~= start);
    assert(start.skip(n as int) =~= Seq::<T>::empty());
    assert(v@ =~= stable_sort(start, lt));
}

/// What is left of a sequence by a filter are the items that it lets through.
pub proof fn lemma_filtered<T>(s: Seq<T>, keep: spec_fn(T) -> bool, x: T)
    ensures
        s.filter(keep).contains(x) <==> s.contains(x) && keep(x),
    decreases s.len(),
{
    reveal(Seq::filter);
    if s.len() > 0 {
        let t = s.drop_last();
        lemma_filtered(t, keep, x);
        assert(s == t.push(s.last()));
        let kept = t.filter(keep);
        if t.contains(x) {
            let i = choose|i: int| 0 <= i < t.len() && t[i] == x;
            assert(s[i] == x);
        }
        if s.contains(x) && x != s.last() {
            let i = choose|i: int| 0 <= i < s.len() && s[i] == x;
            assert(t[i] == x);
        }
        assert(s[s.len() - 1] == s.last());
        if keep(s.last()) {
            assert(s.filter(keep) == kept.push(s.last()));
            if kept.contains(x) {
                let i = choose|i: int| 0 <= i < kept.len() && kept[i] == x;
                assert(kept.push(s.last())[i] == x);
            }
            assert(kept.push(s.last())[kept.len() as int] == s.last());
            if kept.push(s.last()).contains(x) && x != s.last() {
                let i = choose|i: int|
                    0 <= i < kept.push(s.last()).len() && kept.push(s.last())[i] == x;
                assert(kept[i] == x);
            }
        }
    }
}

} // verus!
