//! How often each text occurs.

use vstd::prelude::*;

use crate::json;
use crate::json::{Fields, Json, JsonView};
use crate::text;

verus! {

/// Whether one text comes before another: by their first different characters, and
/// the shorter one where there is no difference.
pub open spec fn before(a: Seq<char>, b: Seq<char>) -> bool
    decreases a.len(),
{
    if b.len() == 0 {
        false
    } else if a.len() == 0 {
        true
    } else if a[0] != b[0] {
        (a[0] as int) < (b[0] as int)
    } else {
        before(a.skip(1), b.skip(1))
    }
}

/// Of two different texts one comes before the other.
pub proof fn lemma_before_total(a: Seq<char>, b: Seq<char>)
    ensures
        before(a, b) || before(b, a) || a == b,
        !(before(a, b) && before(b, a)),
        !before(a, a),
    decreases a.len(),
{
    if a.len() > 0 && b.len() > 0 && a[0] == b[0] {
        lemma_before_total(a.skip(1), b.skip(1));
        if a.skip(1) == b.skip(1) {
            assert(a =~= seq![a[0]] + a.skip(1));
            assert(b =~= seq![b[0]] + b.skip(1));
        }
    } else if a.len() == 0 && b.len() == 0 {
        assert(a =~= b);
    }
    lemma_before_irreflexive(a);
}

proof fn lemma_before_irreflexive(a: Seq<char>)
    ensures
        !before(a, a),
    decreases a.len(),
{
    if a.len() > 0 {
        lemma_before_irreflexive(a.skip(1));
    }
}

/// What comes before a text comes before what that comes before.
pub proof fn lemma_before_transitive(a: Seq<char>, b: Seq<char>, c: Seq<char>)
    requires
        before(a, b),
        before(b, c),
    ensures
        before(a, c),
    decreases a.len(),
{
    if a.len() > 0 && b.len() > 0 && c.len() > 0 && a[0] == b[0] && b[0] == c[0] {
        lemma_before_transitive(a.skip(1), b.skip(1), c.skip(1));
    }
}

fn char_before(a: char, b: char) -> (result: bool)
    ensures
        result == ((a as int) < (b as int)),
{
    (a as u32) < (b as u32)
}

/// Whether one text comes before another.
pub fn is_before(a: &str, b: &str) -> (result: bool)
    ensures
        result == before(a@, b@),
{
    let left = text::chars_of(a);
    let right = text::chars_of(b);
    let mut i: usize = 0;
    proof {
        assert(a@.skip(0) =~= a@);
        assert(b@.skip(0) =~= b@);
    }
    while i < left.len() && i < right.len()
        invariant
            i <= left.len(),
            i <= right.len(),
            left@ == a@,
            right@ == b@,
            before(a@, b@) == before(a@.skip(i as int), b@.skip(i as int)),
        decreases left.len() - i,
    {
        proof {
            assert(a@.skip(i as int)[0] == a@[i as int]);
            assert(b@.skip(i as int)[0] == b@[i as int]);
            assert(a@.skip(i as int).skip(1) =~= a@.skip(i + 1));
            assert(b@.skip(i as int).skip(1) =~= b@.skip(i + 1));
        }
        if left[i] != right[i] {
            return char_before(left[i], right[i]);
        }
        i += 1;
    }
    i < right.len()
}

/// How often some texts occur, in ascending order, with one more occurrence.
pub open spec fn counted(counts: Seq<(Seq<char>, u64)>, key: Seq<char>) -> Seq<(Seq<char>, u64)>
    decreases counts.len(),
{
    if counts.len() == 0 {
        seq![(key, 1u64)]
    } else if counts.last().0 == key {
        counts.drop_last().push((key, (counts.last().1 + 1) as u64))
    } else if before(counts.last().0, key) {
        counts.push((key, 1u64))
    } else {
        counted(counts.drop_last(), key).push(counts.last())
    }
}

/// How often each text occurs, in ascending order.
pub open spec fn tally(keys: Seq<Seq<char>>) -> Seq<(Seq<char>, u64)>
    decreases keys.len(),
{
    if keys.len() == 0 {
        Seq::empty()
    } else {
        counted(tally(keys.drop_last()), keys.last())
    }
}

/// How often a text occurs among others.
pub open spec fn occurrences(keys: Seq<Seq<char>>, key: Seq<char>) -> nat
    decreases keys.len(),
{
    if keys.len() == 0 {
        0
    } else {
        occurrences(keys.drop_last(), key) + (if keys.last() == key {
            1nat
        } else {
            0nat
        })
    }
}

/// Whether texts ascend.
pub open spec fn ascending(counts: Seq<(Seq<char>, u64)>) -> bool {
    forall|i: int, j: int|
        0 <= i < j < counts.len() ==> before(#[trigger] counts[i].0, #[trigger] counts[j].0)
}

/// What is counted for a text.
pub open spec fn count_of(counts: Seq<(Seq<char>, u64)>, key: Seq<char>) -> nat
    decreases counts.len(),
{
    if counts.len() == 0 {
        0
    } else if counts.last().0 == key {
        counts.last().1 as nat
    } else {
        count_of(counts.drop_last(), key)
    }
}

/// Whether all texts come before another.
pub open spec fn all_before(counts: Seq<(Seq<char>, u64)>, key: Seq<char>) -> bool {
    forall|i: int| 0 <= i < counts.len() ==> before(#[trigger] counts[i].0, key)
}

proof fn lemma_absent(counts: Seq<(Seq<char>, u64)>, key: Seq<char>)
    requires
        all_before(counts, key),
    ensures
        count_of(counts, key) == 0,
    decreases counts.len(),
{
    if counts.len() > 0 {
        lemma_before_total(counts.last().0, key);
        assert(before(counts[counts.len() - 1].0, key));
        lemma_absent(counts.drop_last(), key);
    }
}

proof fn lemma_counted(
    counts: Seq<(Seq<char>, u64)>,
    key: Seq<char>,
    other: Seq<char>,
    bound: Seq<char>,
    most: int,
)
    requires
        ascending(counts),
        forall|i: int| 0 <= i < counts.len() ==> (#[trigger] counts[i]).1 < most,
        most <= u64::MAX,
        0 < most,
    ensures
        ascending(counted(counts, key)),
        count_of(counted(counts, key), other) == count_of(counts, other) + (if other == key {
            1int
        } else {
            0
        }),
        forall|i: int|
            0 <= i < counted(counts, key).len() ==> (#[trigger] counted(counts, key)[i]).1 <= most,
        all_before(counts, bound) && before(key, bound) ==> all_before(counted(counts, key), bound),
    decreases counts.len(),
{
    let next = counted(counts, key);
    if counts.len() == 0 {
        reveal_with_fuel(count_of, 2);
        assert(next.drop_last() =~= Seq::<(Seq<char>, u64)>::empty());
    } else {
        let last = counts.last();
        let front = counts.drop_last();
        assert(counts[counts.len() - 1] == last);
        assert forall|i: int| 0 <= i < front.len() implies (#[trigger] front[i]).1 < most by {
            assert(front[i] == counts[i]);
        }
        if last.0 == key {
            assert(next.drop_last() =~= front);
            assert(all_before(front, key)) by {
                assert forall|i: int| 0 <= i < front.len() implies before(
                    #[trigger] front[i].0,
                    key,
                ) by {
                    assert(before(counts[i].0, counts[counts.len() - 1].0));
                }
            }
            lemma_before_total(key, key);
        } else if before(last.0, key) {
            assert(next.drop_last() =~= counts);
            assert(all_before(counts, key)) by {
                assert forall|i: int| 0 <= i < counts.len() implies before(
                    #[trigger] counts[i].0,
                    key,
                ) by {
                    if i < counts.len() - 1 {
                        assert(before(counts[i].0, counts[counts.len() - 1].0));
                        lemma_before_transitive(counts[i].0, last.0, key);
                    }
                }
            }
            lemma_absent(counts, key);
        } else {
            lemma_before_total(last.0, key);
            assert(before(key, last.0));
            assert(all_before(front, last.0)) by {
                assert forall|i: int| 0 <= i < front.len() implies before(
                    #[trigger] front[i].0,
                    last.0,
                ) by {
                    assert(before(counts[i].0, counts[counts.len() - 1].0));
                }
            }
            lemma_counted(front, key, other, last.0, most);
            lemma_counted(front, key, other, bound, most);
            assert(next.drop_last() =~= counted(front, key));
        }
    }
}

/// Each text is listed once, in ascending order, with how often it occurs.
pub proof fn law_tally_counts(keys: Seq<Seq<char>>, key: Seq<char>)
    requires
        keys.len() < u64::MAX,
    ensures
        ascending(tally(keys)),
        count_of(tally(keys), key) == occurrences(keys, key),
        forall|i: int| 0 <= i < tally(keys).len() ==> (#[trigger] tally(keys)[i]).1 <= keys.len(),
    decreases keys.len(),
{
    if keys.len() > 0 {
        law_tally_counts(keys.drop_last(), key);
        lemma_counted(
            tally(keys.drop_last()),
            keys.last(),
            key,
            keys.last(),
            keys.len() as int,
        );
    }
}

/// Counts one more occurrence of a text.
fn count_key(counts: &mut Vec<(String, u64)>, key: &str)
    requires
        forall|i: int| 0 <= i < old(counts)@.len() ==> (#[trigger] old(counts)@[i]).1 < u64::MAX,
    ensures
        final(counts).deep_view() == counted(old(counts).deep_view(), key@),
{
    let ghost start = counts.deep_view();
    let mut i: usize = counts.len();
    proof {
        assert(start.len() == counts@.len());
        assert(start.take(i as int) =~= start);
        assert(counted(start, key@) =~= counted(start.take(i as int), key@) + start.skip(i as int));
    }
    while i > 0
        invariant
            i <= counts.len(),
            start == old(counts).deep_view(),
            start == counts.deep_view(),
            start.len() == counts@.len(),
            forall|k: int| 0 <= k < counts@.len() ==> (#[trigger] counts@[k]).1 < u64::MAX,
            counted(start, key@) == counted(start.take(i as int), key@) + start.skip(i as int),
        decreases i,
    {
        let ghost front = start.take(i as int);
        proof {
            assert(front.last() == (counts@[i - 1].0@, counts@[i - 1].1));
            assert(front.drop_last() =~= start.take(i - 1));
            assert(start.skip(i - 1) =~= seq![front.last()] + start.skip(i as int));
        }
        if text::same_text(&counts[i - 1].0, key) {
            let n: u64 = counts[i - 1].1 + 1;
            counts.remove(i - 1);
            counts.insert(i - 1, (key.to_string(), n));
            proof {
                assert(counts.deep_view() =~= start.take(i - 1).push((key@, n)) + start.skip(
                    i as int,
                ));
            }
            return;
        }
        if is_before(&counts[i - 1].0, key) {
            proof {
                assert(counted(front, key@) == front.push((key@, 1u64)));
            }
            counts.insert(i, (key.to_string(), 1));
            proof {
                assert(counts.deep_view() =~= front.push((key@, 1u64)) + start.skip(i as int));
            }
            return;
        }
        proof {
            assert(counted(front, key@) == counted(start.take(i - 1), key@).push(front.last()));
            assert(counted(front, key@) + start.skip(i as int) =~= counted(
                start.take(i - 1),
                key@,
            ) + start.skip(i - 1));
        }
        i -= 1;
    }
    counts.insert(0, (key.to_string(), 1));
    proof {
        assert(start.take(0) =~= Seq::<(Seq<char>, u64)>::empty());
        assert(counts.deep_view() =~= seq![(key@, 1u64)] + start.skip(0));
    }
}

/// How often each text occurs, in ascending order.
pub fn count_texts(keys: &Vec<String>) -> (counts: Vec<(String, u64)>)
    ensures
        counts.deep_view() == tally(keys.deep_view()),
{
    let ghost all = keys.deep_view();
    let mut counts: Vec<(String, u64)> = Vec::new();
    let mut i: usize = 0;
    proof {
        assert(all.len() == keys@.len());
        assert(keys.len() == keys@.len());
        assert(counts.deep_view() =~= tally(all.take(0)));
    }
    while i < keys.len()
        invariant
            i <= keys.len(),
            all == keys.deep_view(),
            all.len() == keys@.len(),
            counts.deep_view() == tally(all.take(i as int)),
        decreases keys.len() - i,
    {
        proof {
            assert(all.take(i + 1).drop_last() =~= all.take(i as int));
            assert(all.take(i + 1).last() == keys@[i as int]@);
            assert(keys.len() <= u64::MAX);
            law_tally_counts(all.take(i as int), keys@[i as int]@);
            assert forall|k: int| 0 <= k < counts@.len() implies (#[trigger] counts@[k]).1
                < u64::MAX by {
                assert(counts.deep_view()[k] == (counts@[k].0@, counts@[k].1));
            }
        }
        count_key(&mut counts, &keys[i]);
        i += 1;
    }
    proof {
        assert(all.take(all.len() as int) =~= all);
    }
    counts
}

/// What is counted for a text.
pub fn count_for(counts: &Vec<(String, u64)>, key: &str) -> (count: u64)
    ensures
        count == count_of(counts.deep_view(), key@),
{
    let ghost all = counts.deep_view();
    let mut i: usize = counts.len();
    proof {
        assert(all.len() == counts@.len());
        assert(all.take(i as int) =~= all);
    }
    while i > 0
        invariant
            i <= counts.len(),
            all == counts.deep_view(),
            all.len() == counts@.len(),
            count_of(all, key@) == count_of(all.take(i as int), key@),
        decreases i,
    {
        proof {
            assert(all.take(i as int).last() == (counts@[i - 1].0@, counts@[i - 1].1));
            assert(all.take(i as int).drop_last() =~= all.take(i - 1));
        }
        if text::same_text(&counts[i - 1].0, key) {
            return counts[i - 1].1;
        }
        i -= 1;
    }
    0
}

/// Counts as an object: a field for each text.
pub open spec fn counts_json(counts: Seq<(Seq<char>, u64)>) -> JsonView {
    JsonView::Object(
        counts.map_values(|entry: (Seq<char>, u64)| (entry.0, JsonView::Unsigned(entry.1))),
    )
}

/// Counts as an object.
pub fn counts_to_json(counts: &Vec<(String, u64)>) -> (json: Json)
    ensures
        json.deep_view() == counts_json(counts.deep_view()),
{
    let ghost all = counts.deep_view();
    let ghost f = |entry: (Seq<char>, u64)| (entry.0, JsonView::Unsigned(entry.1));
    let mut fields = Fields::new();
    let mut i: usize = 0;
    proof {
        assert(fields.deep_view() =~= all.take(0).map_values(f));
    }
    while i < counts.len()
        invariant
            i <= counts.len(),
            all == counts.deep_view(),
            all.len() == counts@.len(),
            f == (|entry: (Seq<char>, u64)| (entry.0, JsonView::Unsigned(entry.1))),
            fields.deep_view() == all.take(i as int).map_values(f),
        decreases counts.len() - i,
    {
        let ghost before = fields.deep_view();
        fields = fields.with(&counts[i].0, Json::Unsigned(counts[i].1));
        i += 1;
        proof {
            assert(all[i - 1] == (counts@[i - 1].0@, counts@[i - 1].1));
            assert(all.take(i as int).map_values(f) =~= before.push(f(all[i - 1])));
        }
    }
    proof {
        assert(all.take(all.len() as int) =~= all);
    }
    fields.object()
}

} // verus!
