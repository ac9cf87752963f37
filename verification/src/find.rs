//! Where a run of bytes occurs in a longer one.

use vstd::prelude::*;

use crate::seqs;
use crate::text;

verus! {

/// Whether the needle stands at an index.
pub open spec fn occurs_at(data: Seq<u8>, needle: Seq<u8>, i: int) -> bool {
    0 <= i <= data.len() - needle.len() && data.subrange(i, i + needle.len()) == needle
}

/// The first index from `from` on at which the needle stands.
pub open spec fn find_from(data: Seq<u8>, needle: Seq<u8>, from: int) -> Option<int>
    decreases data.len() - needle.len() + 1 - from,
{
    if from > data.len() - needle.len() {
        None
    } else if occurs_at(data, needle, from) {
        Some(from)
    } else {
        find_from(data, needle, from + 1)
    }
}

/// What is found is the least index at which the needle stands, and nothing is
/// found only where it stands nowhere.
pub proof fn law_find_from(data: Seq<u8>, needle: Seq<u8>, from: int)
    requires
        0 <= from,
    ensures
        match find_from(data, needle, from) {
            Some(i) => from <= i && occurs_at(data, needle, i) && forall|j: int|
                from <= j < i ==> !occurs_at(data, needle, j),
            None => forall|j: int| from <= j ==> !occurs_at(data, needle, j),
        },
    decreases data.len() - needle.len() + 1 - from,
{
    if from <= data.len() - needle.len() && !occurs_at(data, needle, from) {
        law_find_from(data, needle, from + 1);
    }
}

/// The leftmost indices from `from` on at which a non-empty needle stands, none
/// overlapping the one before.
pub open spec fn occurrences(data: Seq<u8>, needle: Seq<u8>, from: int) -> Seq<usize>
    decreases data.len() - from,
    when 0 <= from
{
    if needle.len() == 0 {
        Seq::empty()
    } else {
        match find_from(data, needle, from) {
            Some(i) => {
                proof {
                    law_find_from(data, needle, from);
                }
                seq![i as usize] + occurrences(data, needle, i + needle.len())
            },
            None => Seq::empty(),
        }
    }
}

/// The needle stands at each of the occurrences.
pub proof fn lemma_occurrences_stand(data: Seq<u8>, needle: Seq<u8>, from: int)
    requires
        0 <= from,
        data.len() <= usize::MAX,
    ensures
        forall|k: int|
            0 <= k < occurrences(data, needle, from).len() ==> occurs_at(
                data,
                needle,
                #[trigger] occurrences(data, needle, from)[k] as int,
            ),
    decreases data.len() - from,
{
    if needle.len() > 0 {
        law_find_from(data, needle, from);
        if let Some(i) = find_from(data, needle, from) {
            lemma_occurrences_stand(data, needle, i + needle.len());
            let rest = occurrences(data, needle, i + needle.len());
            let all = occurrences(data, needle, from);
            assert forall|k: int| 0 <= k < all.len() implies occurs_at(
                data,
                needle,
                #[trigger] all[k] as int,
            ) by {
                if k > 0 {
                    assert(all[k] == rest[k - 1]);
                }
            }
        }
    }
}

/// The first index from `from` on at which the needle stands.
pub fn find_bytes(data: &[u8], needle: &[u8], from: usize) -> (found: Option<usize>)
    ensures
        match found {
            Some(i) => find_from(data@, needle@, from as int) == Some(i as int),
            None => find_from(data@, needle@, from as int) is None,
        },
{
    if needle.len() > data.len() {
        return None;
    }
    let last: usize = data.len() - needle.len();
    let mut i: usize = from;
    while i <= last
        invariant
            last + needle.len() == data.len(),
            find_from(data@, needle@, from as int) == find_from(data@, needle@, i as int),
        decreases last + 1 - i,
    {
        if text::same_bytes(&data[i..i + needle.len()], needle) {
            return Some(i);
        }
        if i == last {
            proof {
                assert(find_from(data@, needle@, last + 1) is None);
            }
            return None;
        }
        i += 1;
    }
    None
}

/// The first `limit` occurrences that do not overlap.
pub fn find_all(data: &[u8], needle: &[u8], limit: usize) -> (found: Vec<usize>)
    ensures
        found@ == seqs::capped(occurrences(data@, needle@, 0), limit as int),
        forall|k: int|
            0 <= k < found@.len() ==> occurs_at(data@, needle@, #[trigger] found@[k] as int),
{
    let mut found: Vec<usize> = Vec::new();
    if needle.len() == 0 {
        return found;
    }
    let mut from: usize = 0;
    let ghost all = occurrences(data@, needle@, 0);
    proof {
        assert(data.len() == data@.len());
        lemma_occurrences_stand(data@, needle@, 0);
        assert(found@ + all =~= all);
    }
    while found.len() < limit && from <= data.len()
        invariant_except_break
            from <= data.len(),
        invariant
            needle@.len() > 0,
            all == occurrences(data@, needle@, 0),
            found@.len() <= limit,
            found@ + occurrences(data@, needle@, from as int) == all,
            data.len() <= usize::MAX,
        ensures
            found@.len() >= limit || occurrences(data@, needle@, from as int).len() == 0,
        decreases data.len() - from, 1int,
    {
        proof {
            law_find_from(data@, needle@, from as int);
        }
        match find_bytes(data, needle, from) {
            Some(i) => {
                let ghost before = found@;
                let ghost rest = occurrences(data@, needle@, i + needle@.len());
                found.push(i);
                from = i + needle.len();
                proof {
                    assert(found@ + rest =~= before + (seq![i] + rest));
                }
            },
            None => {
                break;
            },
        }
    }
    proof {
        if found@.len() >= limit {
            assert(found@ =~= seqs::capped(all, limit as int));
        } else {
            assert(found@ =~= all);
        }
        assert forall|k: int| 0 <= k < found@.len() implies occurs_at(
            data@,
            needle@,
            #[trigger] found@[k] as int,
        ) by {
            assert(all[k] == found@[k]);
        }
    }
    found
}

/// The last index below or at `from` at which the needle stands.
pub open spec fn find_back(data: Seq<u8>, needle: Seq<u8>, from: int) -> Option<int>
    decreases from + 1,
{
    if from < 0 {
        None
    } else if occurs_at(data, needle, from) {
        Some(from)
    } else {
        find_back(data, needle, from - 1)
    }
}

/// The last index at which the needle stands.
pub open spec fn find_last(data: Seq<u8>, needle: Seq<u8>) -> Option<int> {
    find_back(data, needle, data.len() - needle.len())
}

/// The last index at which the needle stands.
pub fn find_last_bytes(data: &[u8], needle: &[u8]) -> (found: Option<usize>)
    ensures
        match found {
            Some(i) => find_last(data@, needle@) == Some(i as int) && i + needle@.len()
                <= data@.len(),
            None => find_last(data@, needle@) is None,
        },
{
    if needle.len() > data.len() {
        return None;
    }
    let mut i: usize = data.len() - needle.len();
    loop
        invariant
            i + needle.len() <= data.len(),
            find_last(data@, needle@) == find_back(data@, needle@, i as int),
        decreases i,
    {
        if text::same_bytes(&data[i..i + needle.len()], needle) {
            return Some(i);
        }
        if i == 0 {
            proof {
                assert(find_back(data@, needle@, -1) is None);
            }
            return None;
        }
        i -= 1;
    }
}

/// The last place of a needle is one at which it stands, and it stands at no later one.
pub proof fn law_find_last(data: Seq<u8>, needle: Seq<u8>)
    ensures
        match find_last(data, needle) {
            Some(i) => 0 <= i <= data.len() - needle.len() && data.subrange(i, i + needle.len())
                == needle && forall|j: int|
                i < j <= data.len() - needle.len() ==> #[trigger] data.subrange(
                    j,
                    j + needle.len(),
                ) != needle,
            None => forall|j: int|
                0 <= j <= data.len() - needle.len() ==> #[trigger] data.subrange(
                    j,
                    j + needle.len(),
                ) != needle,
        },
{
    lemma_find_back(data, needle, data.len() - needle.len());
    assert forall|j: int| 0 <= j <= data.len() - needle.len() implies (#[trigger] data.subrange(
        j,
        j + needle.len(),
    ) == needle) == occurs_at(data, needle, j) by {}
}

proof fn lemma_find_back(data: Seq<u8>, needle: Seq<u8>, from: int)
    ensures
        match find_back(data, needle, from) {
            Some(i) => 0 <= i <= from && occurs_at(data, needle, i) && forall|j: int|
                i < j <= from ==> !occurs_at(data, needle, j),
            None => forall|j: int| 0 <= j <= from ==> !occurs_at(data, needle, j),
        },
    decreases from + 1,
{
    if from >= 0 && !occurs_at(data, needle, from) {
        lemma_find_back(data, needle, from - 1);
    }
}

/// The occurrences of a needle are places at which it stands, each begins behind the end
/// of the one before it, and there is no place left between them, before the first or
/// behind the last at which it stands too.
pub proof fn law_occurrences(data: Seq<u8>, needle: Seq<u8>, from: int)
    requires
        0 <= from,
        0 < needle.len(),
        data.len() <= usize::MAX,
    ensures
        ({
            let found = occurrences(data, needle, from);
            &&& forall|k: int|
                0 <= k < found.len() ==> from <= (#[trigger] found[k]) <= data.len()
                    - needle.len() && data.subrange(found[k] as int, found[k] + needle.len())
                    == needle
            &&& forall|k: int, l: int|
                0 <= k < l < found.len() ==> (#[trigger] found[k]) + needle.len()
                    <= #[trigger] found[l]
            &&& forall|j: int|
                from <= j <= data.len() - needle.len() && #[trigger] data.subrange(
                    j,
                    j + needle.len(),
                ) == needle ==> exists|k: int|
                    0 <= k < found.len() && (#[trigger] found[k]) <= j < found[k] + needle.len()
        }),
    decreases data.len() - from,
{
    law_find_from(data, needle, from);
    let found = occurrences(data, needle, from);
    match find_from(data, needle, from) {
        Some(i) => {
            let next = i + needle.len();
            law_occurrences(data, needle, next);
            let rest = occurrences(data, needle, next);
            assert(found =~= seq![i as usize] + rest);
            assert forall|k: int| 0 <= k < found.len() implies from <= (#[trigger] found[k])
                <= data.len() - needle.len() && data.subrange(
                found[k] as int,
                found[k] + needle.len(),
            ) == needle by {
                if k > 0 {
                    assert(found[k] == rest[k - 1]);
                }
            }
            assert forall|k: int, l: int| 0 <= k < l < found.len() implies (#[trigger] found[k])
                + needle.len() <= #[trigger] found[l] by {
                assert(found[l] == rest[l - 1]);
                if k > 0 {
                    assert(found[k] == rest[k - 1]);
                }
            }
            assert forall|j: int|
                from <= j <= data.len() - needle.len() && #[trigger] data.subrange(
                    j,
                    j + needle.len(),
                ) == needle implies exists|k: int|
                0 <= k < found.len() && (#[trigger] found[k]) <= j < found[k] + needle.len() by {
                assert(occurs_at(data, needle, j));
                if j < next {
                    assert(found[0] <= j < found[0] + needle.len());
                } else {
                    let k = choose|k: int|
                        0 <= k < rest.len() && (#[trigger] rest[k]) <= j < rest[k] + needle.len();
                    assert(found[k + 1] == rest[k]);
                }
            }
        },
        None => {
            assert forall|j: int|
                from <= j <= data.len() - needle.len() && #[trigger] data.subrange(
                    j,
                    j + needle.len(),
                ) == needle implies false by {
                assert(occurs_at(data, needle, j));
            }
        },
    }
}

} // verus!
