//! Ordering of positioned items by their start offset.
//!
//! Items found by several searches are collected in the order in which they
//! were found and then put in order of their start offset. The order is given
//! by selection: the item with the smallest start comes first, the earliest
//! found among equal starts.
use vstd::prelude::*;

verus! {

/// The position, within `rem`, of the first index whose key is smallest.
pub open spec fn first_min_pos(keys: Seq<usize>, rem: Seq<usize>) -> int
    decreases rem.len(),
{
    if rem.len() <= 1 {
        0
    } else {
        let j = first_min_pos(keys, rem.drop_last());
        if keys[rem.last() as int] < keys[rem[j] as int] {
            rem.len() - 1
        } else {
            j
        }
    }
}

/// The indices of `rem` in order of their keys: repeatedly the first index
/// with the smallest key among those left.
pub open spec fn selection_order(keys: Seq<usize>, rem: Seq<usize>) -> Seq<usize>
    decreases rem.len(),
{
    if rem.len() == 0 {
        Seq::empty()
    } else {
        let p = first_min_pos(keys, rem);
        proof {
            lemma_first_min_pos_bounds(keys, rem);
        }
        seq![rem[p]] + selection_order(keys, rem.remove(p))
    }
}

/// The indices `0..n`.
pub open spec fn indices(n: nat) -> Seq<usize> {
    Seq::new(n, |i: int| i as usize)
}

/// Items in order of their start offset.
pub open spec fn ordered_by_start<T>(items: Seq<(usize, usize, T)>) -> Seq<(usize, usize, T)> {
    selection_order(items.map_values(|e: (usize, usize, T)| e.0), indices(items.len())).map_values(
        |i: usize| items[i as int],
    )
}

pub proof fn lemma_first_min_pos_bounds(keys: Seq<usize>, rem: Seq<usize>)
    ensures
        rem.len() > 0 ==> 0 <= first_min_pos(keys, rem) < rem.len(),
        forall|k: int|
            0 <= k < rem.len() ==> keys[rem[first_min_pos(keys, rem)] as int] <= keys[#[trigger] rem[k] as int],
    decreases rem.len(),
{
    if rem.len() > 1 {
        lemma_first_min_pos_bounds(keys, rem.drop_last());
        let j = first_min_pos(keys, rem.drop_last());
        assert forall|k: int| 0 <= k < rem.len() implies keys[rem[first_min_pos(keys, rem)] as int]
            <= keys[#[trigger] rem[k] as int] by {
            if k < rem.len() - 1 {
                assert(rem[k] == rem.drop_last()[k]);
            }
        }
    }
}

/// Every index that the selection yields is one of those it selects from.
pub proof fn lemma_selection_members(keys: Seq<usize>, rem: Seq<usize>)
    ensures
        selection_order(keys, rem).len() == rem.len(),
        forall|i: int|
            0 <= i < rem.len() ==> rem.contains(#[trigger] selection_order(keys, rem)[i]),
    decreases rem.len(),
{
    if rem.len() > 0 {
        lemma_first_min_pos_bounds(keys, rem);
        let p = first_min_pos(keys, rem);
        let rest = rem.remove(p);
        lemma_selection_members(keys, rest);
        let s = selection_order(keys, rem);
        assert forall|i: int| 0 <= i < rem.len() implies rem.contains(#[trigger] s[i]) by {
            if i == 0 {
                assert(s[0] == rem[p]);
            } else {
                assert(s[i] == selection_order(keys, rest)[i - 1]);
                let x = s[i];
                assert(rest.contains(x));
                let q = choose|q: int| 0 <= q < rest.len() && rest[q] == x;
                if q < p {
                    assert(rem[q] == x);
                } else {
                    assert(rem[q + 1] == x);
                }
            }
        }
    }
}

/// The selection yields keys in non-decreasing order, and, from indices
/// without repetition, indices without repetition.
pub proof fn lemma_selection_sorted(keys: Seq<usize>, rem: Seq<usize>)
    ensures
        forall|i: int, j: int|
            #![trigger selection_order(keys, rem)[i], selection_order(keys, rem)[j]]
            0 <= i < j < rem.len() ==> keys[selection_order(keys, rem)[i] as int]
                <= keys[selection_order(keys, rem)[j] as int],
        rem.no_duplicates() ==> selection_order(keys, rem).no_duplicates(),
    decreases rem.len(),
{
    if rem.len() > 0 {
        lemma_first_min_pos_bounds(keys, rem);
        let p = first_min_pos(keys, rem);
        let rest = rem.remove(p);
        lemma_selection_sorted(keys, rest);
        lemma_selection_members(keys, rest);
        let s = selection_order(keys, rem);
        let t = selection_order(keys, rest);
        assert(s == seq![rem[p]] + t);
        assert forall|i: int, j: int|
            #![trigger s[i], s[j]]
            0 <= i < j < rem.len() implies keys[s[i] as int] <= keys[s[j] as int] by {
            assert(s[j] == t[j - 1]);
            assert(rest.contains(t[j - 1]));
            let q = choose|q: int| 0 <= q < rest.len() && rest[q] == t[j - 1];
            if q < p {
                assert(rem[q] == t[j - 1]);
            } else {
                assert(rem[q + 1] == t[j - 1]);
            }
            if i > 0 {
                assert(s[i] == t[i - 1]);
            }
        }
        if rem.no_duplicates() {
            assert(rest.no_duplicates()) by {
                assert forall|a: int, b: int| 0 <= a < rest.len() && 0 <= b < rest.len() && a != b
                    implies rest[a] != rest[b] by {
                    let a2 = if a < p { a } else { a + 1 };
                    let b2 = if b < p { b } else { b + 1 };
                    assert(rest[a] == rem[a2] && rest[b] == rem[b2]);
                }
            }
            assert forall|a: int, b: int| 0 <= a < s.len() && 0 <= b < s.len() && a != b
                implies s[a] != s[b] by {
                if a > 0 && b > 0 {
                    assert(s[a] == t[a - 1] && s[b] == t[b - 1]);
                } else {
                    let o = if a == 0 { b } else { a };
                    assert(s[o] == t[o - 1]);
                    assert(rest.contains(t[o - 1]));
                    let q = choose|q: int| 0 <= q < rest.len() && rest[q] == t[o - 1];
                    let q2 = if q < p { q } else { q + 1 };
                    assert(rem[q2] == t[o - 1]);
                    assert(q2 != p);
                }
            }
        }
    }
}

/// Items that each span a range and share no offset follow one another, once
/// in order of start: each ends before the next one starts.
pub proof fn lemma_ordered_follow<T>(items: Seq<(usize, usize, T)>)
    requires
        items.len() <= usize::MAX,
        forall|i: int| 0 <= i < items.len() ==> (#[trigger] items[i]).0 <= items[i].1,
        forall|i: int, j: int|
            #![trigger items[i], items[j]]
            0 <= i < j < items.len() ==> items[i].1 < items[j].0 || items[j].1 < items[i].0,
    ensures
        ordered_by_start(items).len() == items.len(),
        forall|i: int| 0 <= i < items.len() ==> items.contains(#[trigger] ordered_by_start(items)[i]),
        forall|i: int, j: int|
            #![trigger ordered_by_start(items)[i], ordered_by_start(items)[j]]
            0 <= i < j < items.len() ==> ordered_by_start(items)[i].1 < ordered_by_start(items)[j].0,
{
    let keys = items.map_values(|e: (usize, usize, T)| e.0);
    let rem = indices(items.len());
    let s = selection_order(keys, rem);
    lemma_selection_members(keys, rem);
    lemma_selection_sorted(keys, rem);
    assert forall|a: int, b: int| 0 <= a < rem.len() && 0 <= b < rem.len() && a != b implies rem[a]
        != rem[b] by {
        assert(rem[a] == a as usize && rem[b] == b as usize);
    }
    assert(rem.no_duplicates());
    let o = ordered_by_start(items);
    assert forall|i: int| 0 <= i < items.len() implies items.contains(#[trigger] o[i]) by {
        assert(rem.contains(s[i]));
        assert(o[i] == items[s[i] as int]);
    }
    assert forall|i: int, j: int|
        #![trigger o[i], o[j]]
        0 <= i < j < items.len() implies o[i].1 < o[j].0 by {
        assert(rem.contains(s[i]));
        assert(rem.contains(s[j]));
        let a = s[i] as int;
        let b = s[j] as int;
        assert(o[i] == items[a] && o[j] == items[b]);
        assert(keys[a] <= keys[b]);
        assert(a != b);
        if a < b {
            assert(items[a].1 < items[b].0 || items[b].1 < items[a].0);
        } else {
            assert(items[b].1 < items[a].0 || items[a].1 < items[b].0);
        }
    }
}

/// The position of the first smallest key among the indices of `rem`.
fn find_first_min(keys: &Vec<usize>, rem: &Vec<usize>) -> (p: usize)
    requires
        rem@.len() > 0,
        forall|k: int| 0 <= k < rem@.len() ==> (#[trigger] rem@[k]) < keys@.len(),
    ensures
        p == first_min_pos(keys@, rem@),
        p < rem@.len(),
{
    let mut j: usize = 0;
    let mut i: usize = 1;
    proof {
        assert(rem@.take(1).len() == 1);
    }
    while i < rem.len()
        invariant
            1 <= i <= rem@.len(),
            forall|k: int| 0 <= k < rem@.len() ==> (#[trigger] rem@[k]) < keys@.len(),
            j < i,
            j == first_min_pos(keys@, rem@.take(i as int)),
        decreases rem@.len() - i,
    {
        proof {
            let t = rem@.take(i + 1);
            assert(t.drop_last() =~= rem@.take(i as int));
            assert(t.last() == rem@[i as int]);
            assert(t[j as int] == rem@[j as int]);
        }
        if keys[rem[i]] < keys[rem[j]] {
            j = i;
        }
        i = i + 1;
    }
    proof {
        assert(rem@.take(i as int) =~= rem@);
    }
    j
}

/// The indices `0..keys.len()` in order of their keys (smallest first, the
/// lower index first among equal keys).
pub fn order_by_key(keys: &Vec<usize>) -> (r: Vec<usize>)
    ensures
        r@ == selection_order(keys@, indices(keys@.len())),
{
    let mut rem: Vec<usize> = Vec::new();
    let mut i: usize = 0;
    while i < keys.len()
        invariant
            i <= keys@.len(),
            rem@ == indices(i as nat),
        decreases keys@.len() - i,
    {
        rem.push(i);
        proof {
            assert(rem@ =~= indices((i + 1) as nat));
        }
        i = i + 1;
    }
    let mut out: Vec<usize> = Vec::new();
    while rem.len() > 0
        invariant
            forall|k: int| 0 <= k < rem@.len() ==> (#[trigger] rem@[k]) < keys@.len(),
            out@ + selection_order(keys@, rem@) == selection_order(keys@, indices(keys@.len())),
        decreases rem@.len(),
    {
        let p = find_first_min(keys, &rem);
        let ghost before = rem@;
        let x = rem.remove(p);
        proof {
            assert(selection_order(keys@, before) == seq![x] + selection_order(keys@, rem@));
            assert(out@.push(x) + selection_order(keys@, rem@) =~= out@ + (seq![x]
                + selection_order(keys@, rem@)));
            assert forall|k: int| 0 <= k < rem@.len() implies (#[trigger] rem@[k]) < keys@.len() by {
                if k < p {
                    assert(rem@[k] == before[k]);
                } else {
                    assert(rem@[k] == before[k + 1]);
                }
            }
        }
        out.push(x);
    }
    proof {
        assert(out@ + selection_order(keys@, rem@) =~= out@);
    }
    out
}

} // verus!
