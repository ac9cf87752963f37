//! Sequences that are gathered piece by piece and cut off at a limit.

use vstd::prelude::*;

verus! {

/// At most the first `n` items of a sequence.
pub open spec fn capped<T>(s: Seq<T>, n: int) -> Seq<T> {
    if s.len() <= n {
        s
    } else if n <= 0 {
        Seq::empty()
    } else {
        s.take(n)
    }
}

/// What `f` gives for the integers below `n`, one after the other.
pub open spec fn flat_below<T>(n: int, f: spec_fn(int) -> Seq<T>) -> Seq<T>
    decreases n,
{
    if n <= 0 {
        Seq::empty()
    } else {
        flat_below(n - 1, f) + f(n - 1)
    }
}

/// A zero- or one-item sequence.
pub open spec fn optional<T>(item: Option<T>) -> Seq<T> {
    match item {
        Some(value) => seq![value],
        None => Seq::empty(),
    }
}

/// How many of the integers below `n` satisfy a predicate.
pub open spec fn count_below(n: int, wanted: spec_fn(int) -> bool) -> nat
    decreases n,
{
    if n <= 0 {
        0
    } else if wanted(n - 1) {
        count_below(n - 1, wanted) + 1
    } else {
        count_below(n - 1, wanted)
    }
}

/// A count is at most the number of what is counted.
pub proof fn lemma_count_bound(n: int, wanted: spec_fn(int) -> bool)
    requires
        0 <= n,
    ensures
        count_below(n, wanted) <= n,
    decreases n,
{
    if n > 0 {
        lemma_count_bound(n - 1, wanted);
    }
}

/// A sequence with an item added, unless it holds the item already.
pub open spec fn with_new<T>(s: Seq<T>, item: T) -> Seq<T> {
    if s.contains(item) {
        s
    } else {
        s.push(item)
    }
}

/// The items of a sequence, each only where it first occurs.
pub open spec fn distinct<T>(s: Seq<T>) -> Seq<T>
    decreases s.len(),
{
    if s.len() == 0 {
        Seq::empty()
    } else {
        with_new(distinct(s.drop_last()), s.last())
    }
}

/// One more item.
pub proof fn lemma_distinct_push<T>(s: Seq<T>, item: T)
    ensures
        distinct(s.push(item)) == with_new(distinct(s), item),
        distinct(s + seq![item]) == with_new(distinct(s), item),
{
    assert(s.push(item).drop_last() =~= s);
    assert(s + seq![item] =~= s.push(item));
}

/// The distinct items are the items, each once.
pub proof fn law_distinct<T>(s: Seq<T>)
    ensures
        distinct(s).no_duplicates(),
        forall|item: T| #[trigger] distinct(s).contains(item) <==> s.contains(item),
    decreases s.len(),
{
    if s.len() > 0 {
        let shorter = s.drop_last();
        law_distinct(shorter);
        let before = distinct(shorter);
        let all = distinct(s);
        assert forall|item: T| #[trigger] all.contains(item) <==> s.contains(item) by {
            if s.contains(item) {
                let i = s.index_of(item);
                if i < shorter.len() {
                    assert(shorter[i] == item);
                    assert(before.contains(item));
                    let k = before.index_of(item);
                    assert(all[k] == item);
                } else if before.contains(item) {
                    let k = before.index_of(item);
                    assert(all[k] == item);
                } else {
                    assert(all.last() == item);
                }
            }
            if all.contains(item) {
                let k = all.index_of(item);
                if k < before.len() {
                    assert(before.contains(before[k]));
                    assert(shorter.contains(item));
                    let i = shorter.index_of(item);
                    assert(s[i] == item);
                } else {
                    assert(s.last() == item);
                }
            }
        }
    } else {
        assert forall|item: T| #[trigger] distinct(s).contains(item) <==> s.contains(item) by {}
    }
}

/// The first index from `from` on whose item satisfies a predicate.
pub open spec fn first_from<T>(s: Seq<T>, from: int, wanted: spec_fn(T) -> bool) -> Option<int>
    decreases s.len() - from,
{
    if from >= s.len() {
        None
    } else if wanted(s[from]) {
        Some(from)
    } else {
        first_from(s, from + 1, wanted)
    }
}

/// What is found is the least index whose item is wanted, and nothing is found
/// only where no item is wanted.
pub proof fn lemma_first_from<T>(s: Seq<T>, from: int, wanted: spec_fn(T) -> bool)
    requires
        0 <= from,
    ensures
        match first_from(s, from, wanted) {
            Some(i) => from <= i < s.len() && wanted(s[i]) && forall|j: int|
                from <= j < i ==> !wanted(s[j]),
            None => forall|j: int| from <= j < s.len() ==> !wanted(s[j]),
        },
    decreases s.len() - from,
{
    if from < s.len() && !wanted(s[from]) {
        lemma_first_from(s, from + 1, wanted);
    }
}

/// A sequence that has reached its limit stays as it is when more follows.
pub proof fn lemma_capped_full<T>(front: Seq<T>, whole: Seq<T>, n: int)
    requires
        front.is_prefix_of(whole),
        capped(front, n).len() >= n,
    ensures
        capped(whole, n) == capped(front, n),
{
    assert(capped(whole, n) =~= capped(front, n));
}

/// Appending one item to a sequence that is below its limit appends it to the
/// capped sequence.
pub proof fn lemma_capped_push<T>(a: Seq<T>, x: T, n: int)
    requires
        capped(a, n).len() < n,
    ensures
        capped(a, n) == a,
        capped(a + seq![x], n) == a.push(x),
        a + seq![x] == a.push(x),
{
    assert(a + seq![x] =~= a.push(x));
}

/// Capping after an append needs only what is left of the limit.
pub proof fn lemma_capped_append<T>(a: Seq<T>, b: Seq<T>, n: int)
    requires
        a.len() <= n,
    ensures
        capped(a + b, n) == a + capped(b, n - a.len()),
{
    assert(capped(a + b, n) =~= a + capped(b, n - a.len()));
}

/// Capping the front first changes nothing.
pub proof fn lemma_capped_front<T>(a: Seq<T>, b: Seq<T>, n: int)
    ensures
        capped(a + b, n) == capped(capped(a, n) + b, n),
{
    assert(capped(a + b, n) =~= capped(capped(a, n) + b, n));
}

/// Capping and mapping may change places.
pub proof fn lemma_capped_map<A, B>(s: Seq<A>, f: spec_fn(A) -> B, n: int)
    ensures
        capped(s.map_values(f), n) == capped(s, n).map_values(f),
{
    assert(capped(s.map_values(f), n) =~= capped(s, n).map_values(f));
}

/// A longer run of integers starts with the shorter run.
pub proof fn lemma_flat_below_prefix<T>(m: int, n: int, f: spec_fn(int) -> Seq<T>)
    requires
        0 <= m <= n,
    ensures
        flat_below(m, f).is_prefix_of(flat_below(n, f)),
    decreases n,
{
    if m < n {
        lemma_flat_below_prefix(m, n - 1, f);
    }
}

/// Once the items for the integers below `m` reach the limit, those of the
/// integers from `m` on change nothing.
pub proof fn lemma_flat_below_full<T>(
    front: Seq<T>,
    m: int,
    n: int,
    f: spec_fn(int) -> Seq<T>,
    cap: int,
)
    requires
        0 <= m <= n,
        capped(front + flat_below(m, f), cap).len() >= cap,
    ensures
        capped(front + flat_below(n, f), cap) == capped(front + flat_below(m, f), cap),
{
    lemma_flat_below_prefix(m, n, f);
    lemma_capped_full(front + flat_below(m, f), front + flat_below(n, f), cap);
}

/// What the first `k + 1` items give is what the first `k` give, and then what
/// item `k` gives.
pub proof fn lemma_flat_map_step<A, B>(s: Seq<A>, k: int, f: spec_fn(A) -> Seq<B>)
    requires
        0 <= k < s.len(),
    ensures
        s.take(k + 1).flat_map(f) == s.take(k).flat_map(f) + f(s[k]),
{
    s.lemma_flat_map_take_append(f, k);
}

/// What the whole sequence gives starts with what a prefix gives.
pub proof fn lemma_flat_map_prefix<A, B>(s: Seq<A>, k: int, f: spec_fn(A) -> Seq<B>)
    requires
        0 <= k <= s.len(),
    ensures
        s.take(k).flat_map(f).is_prefix_of(s.flat_map(f)),
    decreases s.len() - k,
{
    if k == s.len() {
        assert(s.take(k) =~= s);
    } else {
        lemma_flat_map_prefix(s, k + 1, f);
        lemma_flat_map_step(s, k, f);
    }
}

/// Once a prefix has reached the limit, the rest of the sequence changes nothing.
pub proof fn lemma_flat_map_full<A, B>(s: Seq<A>, k: int, f: spec_fn(A) -> Seq<B>, cap: int)
    requires
        0 <= k <= s.len(),
        capped(s.take(k).flat_map(f), cap).len() >= cap,
    ensures
        capped(s.flat_map(f), cap) == capped(s.take(k).flat_map(f), cap),
{
    lemma_flat_map_prefix(s, k, f);
    lemma_capped_full(s.take(k).flat_map(f), s.flat_map(f), cap);
}

/// Nothing comes of the empty sequence, and everything of the whole one.
pub proof fn lemma_flat_map_ends<A, B>(s: Seq<A>, f: spec_fn(A) -> Seq<B>)
    ensures
        s.take(0).flat_map(f) == Seq::<B>::empty(),
        s.take(s.len() as int).flat_map(f) == s.flat_map(f),
{
    assert(s.take(s.len() as int) =~= s);
    assert(s.take(0).map_values(f) =~= Seq::empty());
    assert(s.take(0).flat_map(f) =~= Seq::<B>::empty());
}

/// Whether item `i` of the sequence gives `item`.
pub open spec fn gives<A, B>(s: Seq<A>, f: spec_fn(A) -> Seq<B>, i: int, item: B) -> bool {
    0 <= i < s.len() && f(s[i]).contains(item)
}

/// What the sequence gives is what one of its items gives.
pub proof fn lemma_flat_map_contains<A, B>(s: Seq<A>, f: spec_fn(A) -> Seq<B>, item: B)
    ensures
        s.flat_map(f).contains(item) <==> exists|i: int| gives(s, f, i, item),
    decreases s.len(),
{
    lemma_flat_map_ends(s, f);
    if s.len() > 0 {
        let front = s.drop_last();
        let k = s.len() - 1;
        lemma_flat_map_contains(front, f, item);
        lemma_flat_map_step(s, k, f);
        assert(s.take(k) =~= front);
        let head = front.flat_map(f);
        let tail = f(s[k]);
        assert(s.flat_map(f) == head + tail);
        if s.flat_map(f).contains(item) {
            let at = s.flat_map(f).index_of(item);
            if at < head.len() {
                assert(head[at] == item);
                let i = choose|i: int| gives(front, f, i, item);
                assert(gives(s, f, i, item));
            } else {
                assert(tail[at - head.len()] == item);
                assert(gives(s, f, k, item));
            }
        }
        if exists|i: int| gives(s, f, i, item) {
            let i = choose|i: int| gives(s, f, i, item);
            if i < k {
                assert(gives(front, f, i, item));
                let at = head.index_of(item);
                assert((head + tail)[at] == item);
            } else {
                let at = tail.index_of(item);
                assert((head + tail)[head.len() + at] == item);
            }
        }
    } else {
        assert(s.take(0) =~= s);
    }
}

/// What the integers below `n` give is what one of them gives.
pub proof fn lemma_flat_below_contains<T>(n: int, f: spec_fn(int) -> Seq<T>, item: T)
    ensures
        flat_below(n, f).contains(item) <==> exists|i: int|
            0 <= i < n && (#[trigger] f(i)).contains(item),
    decreases n,
{
    if n > 0 {
        lemma_flat_below_contains(n - 1, f, item);
        let head = flat_below(n - 1, f);
        let tail = f(n - 1);
        assert(flat_below(n, f) == head + tail);
        if flat_below(n, f).contains(item) {
            let at = flat_below(n, f).index_of(item);
            if at < head.len() {
                assert(head[at] == item);
            } else {
                assert(tail[at - head.len()] == item);
            }
        }
        if exists|i: int| 0 <= i < n && (#[trigger] f(i)).contains(item) {
            let i = choose|i: int| 0 <= i < n && (#[trigger] f(i)).contains(item);
            if i < n - 1 {
                let at = head.index_of(item);
                assert((head + tail)[at] == item);
            } else {
                let at = tail.index_of(item);
                assert((head + tail)[head.len() + at] == item);
            }
        }
    }
}

/// A limit cuts off the end of a sequence and nothing else: what is left is a prefix,
/// as long as the sequence and the limit allow.
pub proof fn law_capped<T>(s: Seq<T>, n: int)
    requires
        0 <= n,
    ensures
        capped(s, n).is_prefix_of(s),
        capped(s, n).len() == if s.len() < n {
            s.len() as int
        } else {
            n
        },
{
}

/// A count of integers is the size of the set of those that are counted.
pub proof fn law_count_below(n: int, wanted: spec_fn(int) -> bool)
    requires
        0 <= n,
    ensures
        Set::new(|i: int| 0 <= i < n && wanted(i)).finite(),
        count_below(n, wanted) == Set::new(|i: int| 0 <= i < n && wanted(i)).len(),
    decreases n,
{
    let all = Set::new(|i: int| 0 <= i < n && wanted(i));
    if n == 0 {
        assert(all =~= Set::empty());
    } else {
        law_count_below(n - 1, wanted);
        let fewer = Set::new(|i: int| 0 <= i < n - 1 && wanted(i));
        if wanted(n - 1) {
            assert(all =~= fewer.insert(n - 1));
        } else {
            assert(all =~= fewer);
        }
    }
}

/// Items that come from different integers come in the order of these.
pub proof fn lemma_flat_below_order<T>(n: int, f: spec_fn(int) -> Seq<T>, a: int, b: int)
    requires
        0 <= a <= b < flat_below(n, f).len(),
    ensures
        exists|i: int, j: int|
            0 <= i <= j < n && (#[trigger] f(i)).contains(flat_below(n, f)[a])
                && (#[trigger] f(j)).contains(flat_below(n, f)[b]),
    decreases n,
{
    if n > 0 {
        let head = flat_below(n - 1, f);
        let tail = f(n - 1);
        let all = flat_below(n, f);
        assert(all == head + tail);
        if b < head.len() {
            lemma_flat_below_order(n - 1, f, a, b);
        } else {
            assert(tail[b - head.len()] == all[b]);
            assert(f(n - 1).contains(all[b]));
            if a < head.len() {
                assert(head.contains(head[a]));
                lemma_flat_below_contains(n - 1, f, head[a]);
            } else {
                assert(tail[a - head.len()] == all[a]);
                assert(f(n - 1).contains(all[a]));
            }
        }
    }
}

/// Items that a predicate wants, each turned into another: what gives one item where it is
/// wanted and none where it is not gives these.
pub proof fn lemma_flat_map_filters<A, B>(
    s: Seq<A>,
    f: spec_fn(A) -> Seq<B>,
    wanted: spec_fn(A) -> bool,
    turned: spec_fn(A) -> B,
)
    requires
        forall|a: A| #[trigger]
            f(a) == if wanted(a) {
                seq![turned(a)]
            } else {
                Seq::empty()
            },
    ensures
        s.flat_map(f) == s.filter(wanted).map_values(turned),
    decreases s.len(),
{
    reveal(Seq::filter);
    lemma_flat_map_ends(s, f);
    if s.len() > 0 {
        let front = s.drop_last();
        let k = s.len() - 1;
        lemma_flat_map_filters(front, f, wanted, turned);
        lemma_flat_map_step(s, k, f);
        assert(s.take(k) =~= front);
        assert(f(s[k]) == if wanted(s[k]) {
            seq![turned(s[k])]
        } else {
            Seq::empty()
        });
        assert(s.flat_map(f) =~= s.filter(wanted).map_values(turned));
    } else {
        assert(s.take(0) =~= s);
        assert(s.flat_map(f) =~= s.filter(wanted).map_values(turned));
    }
}

/// The first item from an index on that is wanted: none before it is.
pub proof fn law_first_from<T>(s: Seq<T>, from: int, wanted: spec_fn(T) -> bool)
    requires
        0 <= from <= s.len(),
    ensures
        match first_from(s, from, wanted) {
            Some(i) => from <= i < s.len() && wanted(s[i]) && forall|j: int|
                from <= j < i ==> !wanted(#[trigger] s[j]),
            None => forall|j: int| from <= j < s.len() ==> !wanted(#[trigger] s[j]),
        },
{
    lemma_first_from(s, from, wanted);
}

/// An item that is already there is not added again.
pub proof fn law_with_new<T>(s: Seq<T>, item: T)
    ensures
        with_new(s, item).contains(item),
        s.is_prefix_of(with_new(s, item)),
        s.contains(item) ==> with_new(s, item) == s,
        !s.contains(item) ==> with_new(s, item) == s.push(item),
{
    if !s.contains(item) {
        assert(s.push(item)[s.len() as int] == item);
        assert(s =~= s.push(item).subrange(0, s.len() as int));
    } else {
        assert(s =~= s.subrange(0, s.len() as int));
    }
}

} // verus!
