//! Grouping rows by a text key and ordering rows by a key, stably. Rows are
//! referred to by their index, so the callers keep their own rows.

use vstd::prelude::*;
use crate::text::{str_eq, str_less, text_less, lemma_text_less_transitive, lemma_text_less_total};

verus! {

/// The character views of a sequence of strings.
pub open spec fn views(v: Seq<String>) -> Seq<Seq<char>> {
    v.map_values(|s: String| s@)
}

pub open spec fn strictly_increasing(s: Seq<usize>) -> bool {
    forall|a: int, b: int| 0 <= a < b < s.len() ==> s[a] < s[b]
}

/// `i` is the first index whose key is `keys[i]`.
pub open spec fn first_occurrence(keys: Seq<Seq<char>>, i: int) -> bool {
    0 <= i < keys.len() && forall|j: int| 0 <= j < i ==> keys[j] != keys[i]
}

/// `gs` splits the indices of `keys` by key: each group is non-empty, lists in
/// increasing order exactly the indices that hold its key, and starts where
/// its key first occurs. `owner[i]` is the group that holds index `i`.
pub open spec fn is_partition_by_key(keys: Seq<Seq<char>>, gs: Seq<Seq<usize>>, owner: Seq<usize>) -> bool {
    &&& forall|g: int| 0 <= g < gs.len() ==> {
        &&& (#[trigger] gs[g]).len() > 0
        &&& strictly_increasing(gs[g])
        &&& first_occurrence(keys, gs[g][0] as int)
        &&& forall|m: int| 0 <= m < gs[g].len() ==> #[trigger] gs[g][m] < keys.len() && keys[gs[g][m] as int] == keys[gs[g][0] as int]
        &&& forall|i: usize| i < keys.len() && keys[i as int] == keys[gs[g][0] as int] ==> #[trigger] gs[g].contains(i)
    }
    &&& forall|g: int, h: int| 0 <= g < h < gs.len() ==> #[trigger] gs[g][0] != #[trigger] gs[h][0]
    &&& owner.len() == keys.len()
    &&& forall|i: int| 0 <= i < keys.len() ==> (#[trigger] owner[i]) < gs.len() && gs[owner[i] as int].contains(i as usize)
}

/// `gs` groups the indices of `keys` by key (see `is_partition_by_key`), one
/// group per distinct key, in the order in which the keys first occur.
pub open spec fn is_grouping(keys: Seq<Seq<char>>, gs: Seq<Seq<usize>>, owner: Seq<usize>) -> bool {
    &&& is_partition_by_key(keys, gs, owner)
    &&& forall|g: int, h: int| 0 <= g < h < gs.len() ==> #[trigger] gs[g][0] < #[trigger] gs[h][0]
}

/// Law: a grouping is a partition: every index lies in exactly one group, and
/// no two groups share a key.
pub proof fn lemma_grouping_partition(keys: Seq<Seq<char>>, gs: Seq<Seq<usize>>, owner: Seq<usize>)
    requires
        is_partition_by_key(keys, gs, owner),
    ensures
        forall|g: int, h: int| 0 <= g < gs.len() && 0 <= h < gs.len() && g != h ==> keys[gs[g][0] as int] != keys[gs[h][0] as int],
        forall|i: usize, g: int, h: int| 0 <= g < gs.len() && 0 <= h < gs.len() && #[trigger] gs[g].contains(i) && #[trigger] gs[h].contains(i) ==> g == h,
{
    assert forall|g: int, h: int| 0 <= g < gs.len() && 0 <= h < gs.len() && g != h implies keys[gs[g][0] as int] != keys[gs[h][0] as int] by {
        assert(gs[g].len() > 0 && gs[h].len() > 0);
        assert(first_occurrence(keys, gs[g][0] as int));
        assert(first_occurrence(keys, gs[h][0] as int));
        if g < h {
            assert(gs[g][0] != gs[h][0]);
        } else {
            assert(gs[h][0] != gs[g][0]);
        }
    }
    assert forall|i: usize, g: int, h: int| 0 <= g < gs.len() && 0 <= h < gs.len() && #[trigger] gs[g].contains(i) && #[trigger] gs[h].contains(i) implies g == h by {
        assert(gs[g].len() > 0 && gs[h].len() > 0);
        let a = choose|a: int| 0 <= a < gs[g].len() && gs[g][a] == i;
        let b = choose|b: int| 0 <= b < gs[h].len() && gs[h][b] == i;
        assert(keys[i as int] == keys[gs[g][0] as int]);
        assert(keys[i as int] == keys[gs[h][0] as int]);
    }
}

/// The index `r` in `reps` whose key equals `keys[i]`, if any.
fn find_key(keys: &Vec<String>, reps: &Vec<usize>, i: usize) -> (r: Option<usize>)
    requires
        i < keys.len(),
        forall|k: int| 0 <= k < reps.len() ==> reps[k] < keys.len(),
    ensures
        match r {
            Some(k) => k < reps.len() && keys@[reps@[k as int] as int]@ == keys@[i as int]@,
            None => forall|k: int| 0 <= k < reps.len() ==> keys@[reps@[k] as int]@ != keys@[i as int]@,
        },
{
    let mut k: usize = 0;
    while k < reps.len()
        invariant
            i < keys.len(),
            k <= reps.len(),
            forall|m: int| 0 <= m < reps.len() ==> reps[m] < keys.len(),
            forall|m: int| 0 <= m < k ==> keys@[reps@[m] as int]@ != keys@[i as int]@,
        decreases reps.len() - k,
    {
        if str_eq(keys[reps[k]].as_str(), keys[i].as_str()) {
            return Some(k);
        }
        k = k + 1;
    }
    None
}

/// The index where each distinct key first occurs, in increasing order, and
/// for each row the position in that list of its key.
pub fn first_occurrences(keys: &Vec<String>) -> (r: (Vec<usize>, Vec<usize>))
    ensures
        strictly_increasing(r.0@),
        forall|k: int| 0 <= k < r.0.len() ==> first_occurrence(views(keys@), #[trigger] r.0@[k] as int),
        r.1.len() == keys.len(),
        forall|i: int| 0 <= i < keys.len() ==> (#[trigger] r.1@[i]) < r.0.len() && views(keys@)[r.0@[r.1@[i] as int] as int] == views(keys@)[i],
{
    let ghost kv = views(keys@);
    assert forall|j: int| 0 <= j < keys.len() implies #[trigger] kv[j] == keys@[j]@ by {}
    let mut reps: Vec<usize> = Vec::new();
    let mut owner: Vec<usize> = Vec::new();
    let mut i: usize = 0;
    while i < keys.len()
        invariant
            kv == views(keys@),
            kv.len() == keys.len(),
            forall|j: int| 0 <= j < keys.len() ==> #[trigger] kv[j] == keys@[j]@,
            i <= keys.len(),
            owner.len() == i,
            strictly_increasing(reps@),
            forall|k: int| 0 <= k < reps.len() ==> reps[k] < i,
            forall|k: int| 0 <= k < reps.len() ==> first_occurrence(kv, #[trigger] reps@[k] as int),
            forall|j: int| 0 <= j < i ==> (#[trigger] owner@[j]) < reps.len() && kv[reps@[owner@[j] as int] as int] == kv[j],
        decreases keys.len() - i,
    {
        match find_key(keys, &reps, i) {
            Some(k) => {
                owner.push(k);
            },
            None => {
                assert forall|j: int| 0 <= j < i implies kv[j] != kv[i as int] by {
                    let k = owner@[j] as int;
                    assert(keys@[reps@[k] as int]@ != keys@[i as int]@);
                }
                let ghost old_reps = reps@;
                owner.push(reps.len());
                reps.push(i);
                assert forall|k: int| 0 <= k < reps.len() implies first_occurrence(kv, #[trigger] reps@[k] as int) by {
                    if k < old_reps.len() {
                        assert(reps@[k] == old_reps[k]);
                    }
                }
            },
        }
        i = i + 1;
    }
    (reps, owner)
}

/// The indices whose key equals `keys[rep]`, in increasing order.
fn indices_with_key(keys: &Vec<String>, rep: usize) -> (r: Vec<usize>)
    requires
        rep < keys.len(),
    ensures
        strictly_increasing(r@),
        forall|m: int| 0 <= m < r.len() ==> r@[m] < keys.len() && views(keys@)[#[trigger] r@[m] as int] == views(keys@)[rep as int],
        forall|i: usize| i < keys.len() && views(keys@)[i as int] == views(keys@)[rep as int] ==> #[trigger] r@.contains(i),
{
    let ghost kv = views(keys@);
    assert forall|j: int| 0 <= j < keys.len() implies #[trigger] kv[j] == keys@[j]@ by {}
    let mut r: Vec<usize> = Vec::new();
    let mut i: usize = 0;
    while i < keys.len()
        invariant
            kv == views(keys@),
            kv.len() == keys.len(),
            forall|j: int| 0 <= j < keys.len() ==> #[trigger] kv[j] == keys@[j]@,
            rep < keys.len(),
            i <= keys.len(),
            strictly_increasing(r@),
            forall|m: int| 0 <= m < r.len() ==> r@[m] < i && kv[#[trigger] r@[m] as int] == kv[rep as int],
            forall|j: usize| j < i && kv[j as int] == kv[rep as int] ==> #[trigger] r@.contains(j),
        decreases keys.len() - i,
    {
        if str_eq(keys[i].as_str(), keys[rep].as_str()) {
            let ghost old_r = r@;
            r.push(i);
            assert forall|j: usize| j < i + 1 && kv[j as int] == kv[rep as int] implies #[trigger] r@.contains(j) by {
                if j < i {
                    assert(old_r.contains(j));
                    let m = choose|m: int| 0 <= m < old_r.len() && old_r[m] == j;
                    assert(r@[m] == old_r[m]);
                } else {
                    assert(r@[old_r.len() as int] == i);
                }
            }
        }
        i = i + 1;
    }
    r
}

/// Groups the indices of `keys` by key (see `is_grouping`).
pub fn group_by_key(keys: &Vec<String>) -> (r: (Vec<Vec<usize>>, Vec<usize>))
    ensures
        is_grouping(views(keys@), r.0@.map_values(|g: Vec<usize>| g@), r.1@),
{
    let ghost kv = views(keys@);
    let (reps, owner) = first_occurrences(keys);
    assert(kv.len() == keys.len());
    let mut gs: Vec<Vec<usize>> = Vec::new();
    let mut k: usize = 0;
    while k < reps.len()
        invariant
            kv == views(keys@),
            kv.len() == keys.len(),
            k <= reps.len(),
            gs.len() == k,
            strictly_increasing(reps@),
            forall|q: int| 0 <= q < reps.len() ==> first_occurrence(kv, #[trigger] reps@[q] as int),
            forall|g: int| 0 <= g < k ==> {
                &&& (#[trigger] gs@[g]@).len() > 0
                &&& gs@[g]@[0] == reps@[g]
                &&& strictly_increasing(gs@[g]@)
                &&& forall|m: int| 0 <= m < gs@[g]@.len() ==> #[trigger] gs@[g]@[m] < keys.len() && kv[gs@[g]@[m] as int] == kv[reps@[g] as int]
                &&& forall|i: usize| i < keys.len() && kv[i as int] == kv[reps@[g] as int] ==> #[trigger] gs@[g]@.contains(i)
            },
        decreases reps.len() - k,
    {
        let rep = reps[k];
        assert(first_occurrence(kv, reps@[k as int] as int));
        let members = indices_with_key(keys, rep);
        proof {
            assert(kv[rep as int] == kv[rep as int]);
            assert(members@.contains(rep));
            let p = choose|p: int| 0 <= p < members@.len() && members@[p] == rep;
            if members@[0] != rep {
                assert(members@[0] < members@[p]);
                assert(kv[members@[0] as int] == kv[rep as int]);
            }
        }
        gs.push(members);
        k = k + 1;
    }
    let ghost gv = gs@.map_values(|g: Vec<usize>| g@);
    assert forall|g: int| 0 <= g < gv.len() implies {
        &&& (#[trigger] gv[g]).len() > 0
        &&& strictly_increasing(gv[g])
        &&& first_occurrence(kv, gv[g][0] as int)
        &&& forall|m: int| 0 <= m < gv[g].len() ==> #[trigger] gv[g][m] < keys.len() && kv[gv[g][m] as int] == kv[gv[g][0] as int]
        &&& forall|i: usize| i < keys.len() && kv[i as int] == kv[gv[g][0] as int] ==> #[trigger] gv[g].contains(i)
    } by {
        assert(gv[g] == gs@[g]@);
        assert(gs@[g]@.len() > 0);
        assert(first_occurrence(kv, reps@[g] as int));
        assert forall|i: usize| i < keys.len() && kv[i as int] == kv[gv[g][0] as int] implies #[trigger] gv[g].contains(i) by {
            assert(gs@[g]@.contains(i));
        }
    }
    assert forall|i: int| 0 <= i < kv.len() implies (#[trigger] owner@[i]) < gv.len() && gv[owner@[i] as int].contains(i as usize) by {
        let q = owner@[i] as int;
        assert(kv[reps@[q] as int] == kv[i]);
        assert(gs@[q]@.contains(i as usize));
    }
    assert forall|g: int, h: int| 0 <= g < h < gv.len() implies #[trigger] gv[g][0] < #[trigger] gv[h][0] by {
        assert(gv[g][0] == reps@[g]);
        assert(gv[h][0] == reps@[h]);
    }
    assert(gv.len() == gs.len());
    assert(kv == views(keys@));
    assert forall|g: int, h: int| 0 <= g < h < gv.len() implies #[trigger] gv[g][0] != #[trigger] gv[h][0] by {
        assert(gv[g][0] == reps@[g]);
        assert(gv[h][0] == reps@[h]);
    }
    assert(is_grouping(kv, gv, owner@));
    (gs, owner)
}

// ---------------------------------------------------------------------------
// Stable ordering
// ---------------------------------------------------------------------------

/// `order` lists every index below `n` exactly once.
pub open spec fn is_permutation(order: Seq<usize>, n: nat) -> bool {
    &&& order.len() == n
    &&& forall|a: int| 0 <= a < order.len() ==> order[a] < n
    &&& forall|a: int, b: int| 0 <= a < b < order.len() ==> order[a] != order[b]
    &&& forall|j: usize| j < n ==> #[trigger] order.contains(j)
}

/// `order` sorts the rows by `keys`, keeping rows with equal keys in the
/// order of their indices (what a stable sort such as `sort_by` does).
pub open spec fn stably_sorted_by_int(keys: Seq<i64>, order: Seq<usize>) -> bool {
    forall|a: int, b: int| 0 <= a < b < order.len() ==>
        keys[order[a] as int] < keys[order[b] as int]
        || (keys[order[a] as int] == keys[order[b] as int] && order[a] < order[b])
}

/// The same, with text keys in the order of `<` on strings.
pub open spec fn stably_sorted_by_text(keys: Seq<Seq<char>>, order: Seq<usize>) -> bool {
    forall|a: int, b: int| 0 <= a < b < order.len() ==>
        text_less(keys[order[a] as int], keys[order[b] as int])
        || (keys[order[a] as int] == keys[order[b] as int] && order[a] < order[b])
}

/// The order in which a stable sort by `keys` puts the rows.
pub fn stable_order_by_int(keys: &Vec<i64>) -> (order: Vec<usize>)
    ensures
        is_permutation(order@, keys.len() as nat),
        stably_sorted_by_int(keys@, order@),
{
    let mut order: Vec<usize> = Vec::new();
    let mut i: usize = 0;
    while i < keys.len()
        invariant
            i <= keys.len(),
            is_permutation(order@, i as nat),
            stably_sorted_by_int(keys@, order@),
        decreases keys.len() - i,
    {
        let ki = keys[i];
        let mut p: usize = 0;
        while p < order.len() && keys[order[p]] <= ki
            invariant
                p <= order.len(),
                order.len() == i,
                i < keys.len(),
                ki == keys@[i as int],
                forall|a: int| 0 <= a < order.len() ==> order@[a] < i,
                forall|q: int| 0 <= q < p ==> keys@[order@[q] as int] <= ki,
            decreases order.len() - p,
        {
            p = p + 1;
        }
        let ghost old_order = order@;
        order.insert(p, i);
        assert(order@ == old_order.insert(p as int, i));
        assert forall|a: int, b: int| 0 <= a < b < order@.len() implies
            keys@[order@[a] as int] < keys@[order@[b] as int]
            || (keys@[order@[a] as int] == keys@[order@[b] as int] && order@[a] < order@[b]) by {
            if a < p && b < p {
                assert(order@[a] == old_order[a] && order@[b] == old_order[b]);
            } else if a < p && b == p {
                assert(order@[a] == old_order[a]);
            } else if a < p && b > p {
                assert(order@[a] == old_order[a] && order@[b] == old_order[b - 1]);
            } else if a == p {
                assert(order@[b] == old_order[b - 1]);
                assert(keys@[old_order[p as int] as int] > ki);
                assert(p <= b - 1);
                if p < b - 1 {
                    assert(keys@[old_order[p as int] as int] <= keys@[old_order[b - 1] as int]);
                }
            } else {
                assert(order@[a] == old_order[a - 1] && order@[b] == old_order[b - 1]);
            }
        }
        assert forall|j: usize| j < i + 1 implies #[trigger] order@.contains(j) by {
            if j < i {
                assert(old_order.contains(j));
                let a = choose|a: int| 0 <= a < old_order.len() && old_order[a] == j;
                if a < p {
                    assert(order@[a] == old_order[a]);
                } else {
                    assert(order@[a + 1] == old_order[a]);
                }
            } else {
                assert(order@[p as int] == i);
            }
        }
        assert forall|a: int, b: int| 0 <= a < b < order@.len() implies order@[a] != order@[b] by {
            if a < p && b < p {
            } else if a < p && b == p {
            } else if a < p && b > p {
                assert(order@[b] == old_order[b - 1]);
            } else if a == p {
                assert(order@[b] == old_order[b - 1]);
            } else {
                assert(order@[a] == old_order[a - 1] && order@[b] == old_order[b - 1]);
            }
        }
        i = i + 1;
    }
    order
}

/// The order in which a stable sort by the text `keys` puts the rows.
pub fn stable_order_by_text(keys: &Vec<String>) -> (order: Vec<usize>)
    ensures
        is_permutation(order@, keys.len() as nat),
        stably_sorted_by_text(views(keys@), order@),
{
    let ghost kv = views(keys@);
    let mut order: Vec<usize> = Vec::new();
    let mut i: usize = 0;
    while i < keys.len()
        invariant
            kv == views(keys@),
            i <= keys.len(),
            is_permutation(order@, i as nat),
            stably_sorted_by_text(kv, order@),
        decreases keys.len() - i,
    {
        let mut p: usize = 0;
        while p < order.len() && !str_less(keys[i].as_str(), keys[order[p]].as_str())
            invariant
                kv == views(keys@),
                p <= order.len(),
                order.len() == i,
                i < keys.len(),
                forall|a: int| 0 <= a < order.len() ==> order@[a] < i,
                forall|q: int| 0 <= q < p ==> !text_less(kv[i as int], kv[order@[q] as int]),
            decreases order.len() - p,
        {
            p = p + 1;
        }
        let ghost old_order = order@;
        order.insert(p, i);
        assert(order@ == old_order.insert(p as int, i));
        assert forall|a: int, b: int| 0 <= a < b < order@.len() implies
            text_less(kv[order@[a] as int], kv[order@[b] as int])
            || (kv[order@[a] as int] == kv[order@[b] as int] && order@[a] < order@[b]) by {
            if a < p && b < p {
                assert(order@[a] == old_order[a] && order@[b] == old_order[b]);
            } else if a < p && b == p {
                assert(order@[a] == old_order[a]);
                lemma_text_less_total(kv[old_order[a] as int], kv[i as int]);
            } else if a < p && b > p {
                assert(order@[a] == old_order[a] && order@[b] == old_order[b - 1]);
            } else if a == p {
                assert(order@[b] == old_order[b - 1]);
                let kp = kv[old_order[p as int] as int];
                assert(text_less(kv[i as int], kp));
                if p < b - 1 {
                    let kb = kv[old_order[b - 1] as int];
                    assert(text_less(kp, kb) || kp == kb);
                    if text_less(kp, kb) {
                        lemma_text_less_transitive(kv[i as int], kp, kb);
                    }
                }
            } else {
                assert(order@[a] == old_order[a - 1] && order@[b] == old_order[b - 1]);
            }
        }
        assert forall|j: usize| j < i + 1 implies #[trigger] order@.contains(j) by {
            if j < i {
                assert(old_order.contains(j));
                let a = choose|a: int| 0 <= a < old_order.len() && old_order[a] == j;
                if a < p {
                    assert(order@[a] == old_order[a]);
                } else {
                    assert(order@[a + 1] == old_order[a]);
                }
            } else {
                assert(order@[p as int] == i);
            }
        }
        assert forall|a: int, b: int| 0 <= a < b < order@.len() implies order@[a] != order@[b] by {
            if a < p && b < p {
            } else if a < p && b == p {
            } else if a < p && b > p {
                assert(order@[b] == old_order[b - 1]);
            } else if a == p {
                assert(order@[b] == old_order[b - 1]);
            } else {
                assert(order@[a] == old_order[a - 1] && order@[b] == old_order[b - 1]);
            }
        }
        i = i + 1;
    }
    order
}

/// Groups the indices of `keys` by key (see `is_partition_by_key`) and orders
/// the groups by the rank of their key; groups of equal rank keep the order
/// in which their keys first occur, as a stable sort of the groups would.
pub fn group_by_key_ranked(keys: &Vec<String>, rank: &Vec<i64>) -> (r: (Vec<Vec<usize>>, Vec<usize>))
    requires
        rank.len() == keys.len(),
    ensures
        is_partition_by_key(views(keys@), r.0@.map_values(|g: Vec<usize>| g@), r.1@),
        forall|g: int, h: int| 0 <= g < h < r.0.len() ==>
            rank@[r.0@[g]@[0] as int] < rank@[r.0@[h]@[0] as int]
            || (rank@[r.0@[g]@[0] as int] == rank@[r.0@[h]@[0] as int] && r.0@[g]@[0] < r.0@[h]@[0]),
{
    let ghost kv = views(keys@);
    let (gs, owner) = group_by_key(keys);
    let ghost gv = gs@.map_values(|g: Vec<usize>| g@);
    assert(is_grouping(kv, gv, owner@));
    let n = gs.len();
    let mut rr: Vec<i64> = Vec::new();
    let mut k: usize = 0;
    while k < n
        invariant
            n == gs.len(),
            gv == gs@.map_values(|g: Vec<usize>| g@),
            is_grouping(kv, gv, owner@),
            kv.len() == keys.len(),
            rank.len() == keys.len(),
            k <= n,
            rr.len() == k,
            forall|q: int| 0 <= q < k ==> rr@[q] == rank@[gv[q][0] as int],
        decreases n - k,
    {
        assert(gv[k as int] == gs@[k as int]@);
        assert(gv[k as int].len() > 0);
        assert(gv[k as int][0] < keys.len());
        let first = gs[k][0];
        rr.push(rank[first]);
        k = k + 1;
    }
    let order = stable_order_by_int(&rr);
    let mut pos: Vec<usize> = Vec::new();
    let mut j: usize = 0;
    while j < n
        invariant
            j <= n,
            pos.len() == j,
        decreases n - j,
    {
        pos.push(0);
        j = j + 1;
    }
    let mut sorted: Vec<Vec<usize>> = Vec::new();
    k = 0;
    while k < n
        invariant
            n == gs.len(),
            gv == gs@.map_values(|g: Vec<usize>| g@),
            is_permutation(order@, n as nat),
            k <= n,
            pos.len() == n,
            sorted.len() == k,
            forall|q: int| 0 <= q < k ==> (#[trigger] sorted@[q])@ == gv[order@[q] as int],
            forall|q: int| 0 <= q < k ==> pos@[#[trigger] order@[q] as int] == q,
        decreases n - k,
    {
        let g = order[k];
        let copy = gs[g].clone();
        assert(copy@ =~= gs@[g as int]@);
        sorted.push(copy);
        let ghost old_pos = pos@;
        pos.set(g, k);
        assert forall|q: int| 0 <= q < k + 1 implies pos@[#[trigger] order@[q] as int] == q by {
            if q < k {
                assert(order@[q] != order@[k as int]);
                assert(pos@[order@[q] as int] == old_pos[order@[q] as int]);
            }
        }
        k = k + 1;
    }
    let mut new_owner: Vec<usize> = Vec::new();
    let mut i: usize = 0;
    while i < owner.len()
        invariant
            owner.len() == keys.len(),
            n == gs.len(),
            gv == gs@.map_values(|g: Vec<usize>| g@),
            is_grouping(kv, gv, owner@),
            is_permutation(order@, n as nat),
            pos.len() == n,
            forall|q: int| 0 <= q < n ==> pos@[#[trigger] order@[q] as int] == q,
            i <= owner.len(),
            new_owner.len() == i,
            forall|m: int| 0 <= m < i ==> (#[trigger] new_owner@[m]) < n && order@[new_owner@[m] as int] == owner@[m],
        decreases owner.len() - i,
    {
        let o = owner[i];
        assert(order@.contains(o));
        let ghost q = choose|q: int| 0 <= q < order@.len() && order@[q] == o;
        assert(pos@[order@[q] as int] == q);
        new_owner.push(pos[o]);
        i = i + 1;
    }
    let ghost sv = sorted@.map_values(|g: Vec<usize>| g@);
    assert forall|g: int| 0 <= g < sv.len() implies sv[g] == gv[order@[g] as int] by {}
    assert forall|g: int| 0 <= g < sv.len() implies {
        &&& (#[trigger] sv[g]).len() > 0
        &&& strictly_increasing(sv[g])
        &&& first_occurrence(kv, sv[g][0] as int)
        &&& forall|m: int| 0 <= m < sv[g].len() ==> #[trigger] sv[g][m] < keys.len() && kv[sv[g][m] as int] == kv[sv[g][0] as int]
        &&& forall|i: usize| i < keys.len() && kv[i as int] == kv[sv[g][0] as int] ==> #[trigger] sv[g].contains(i)
    } by {
        assert(sv[g] == gv[order@[g] as int]);
    }
    assert forall|g: int, h: int| 0 <= g < h < sv.len() implies #[trigger] sv[g][0] != #[trigger] sv[h][0] by {
        let a = order@[g] as int;
        let b = order@[h] as int;
        assert(a != b);
        assert(sv[g] == gv[a] && sv[h] == gv[b]);
        if a < b {
            assert(gv[a][0] < gv[b][0]);
        } else {
            assert(gv[b][0] < gv[a][0]);
        }
    }
    assert forall|m: int| 0 <= m < keys.len() implies (#[trigger] new_owner@[m]) < sv.len() && sv[new_owner@[m] as int].contains(m as usize) by {
        assert(sv[new_owner@[m] as int] == gv[owner@[m] as int]);
    }
    assert forall|g: int, h: int| 0 <= g < h < sorted.len() implies
            rank@[sorted@[g]@[0] as int] < rank@[sorted@[h]@[0] as int]
            || (rank@[sorted@[g]@[0] as int] == rank@[sorted@[h]@[0] as int] && sorted@[g]@[0] < sorted@[h]@[0]) by {
        let a = order@[g] as int;
        let b = order@[h] as int;
        assert(sorted@[g]@ == gv[a] && sorted@[h]@ == gv[b]);
        assert(rr@[a] == rank@[gv[a][0] as int]);
        assert(rr@[b] == rank@[gv[b][0] as int]);
        if rr@[a] == rr@[b] {
            assert(a < b);
            assert(gv[a][0] < gv[b][0]);
        }
    }
    assert(is_partition_by_key(kv, sv, new_owner@));
    (sorted, new_owner)
}

// ---------------------------------------------------------------------------
// Counting by key
// ---------------------------------------------------------------------------

/// How many of `keys` equal `k`.
pub open spec fn count_of(keys: Seq<Seq<char>>, k: Seq<char>) -> nat
    decreases keys.len(),
{
    if keys.len() == 0 {
        0
    } else {
        count_of(keys.drop_last(), k) + if keys.last() == k { 1nat } else { 0nat }
    }
}

pub proof fn lemma_count_positive(keys: Seq<Seq<char>>, j: int)
    requires
        0 <= j < keys.len(),
    ensures
        count_of(keys, keys[j]) > 0,
    decreases keys.len(),
{
    if j < keys.len() - 1 {
        assert(keys.drop_last()[j] == keys[j]);
        lemma_count_positive(keys.drop_last(), j);
    }
}

/// The keys of a list of counts.
pub open spec fn keys_of(r: Seq<KeyCount>) -> Seq<Seq<char>> {
    r.map_values(|kc: KeyCount| kc.key@)
}

/// A key and how many rows hold it.
pub struct KeyCount {
    pub key: String,
    pub count: usize,
}

/// How many of `keys` equal `keys[rep]`.
fn count_matching(keys: &Vec<String>, rep: usize) -> (c: usize)
    requires
        rep < keys.len(),
    ensures
        c == count_of(views(keys@), views(keys@)[rep as int]),
{
    let ghost kv = views(keys@);
    assert forall|j: int| 0 <= j < keys.len() implies #[trigger] kv[j] == keys@[j]@ by {}
    let mut c: usize = 0;
    let mut i: usize = 0;
    assert(kv.take(0) =~= Seq::<Seq<char>>::empty());
    while i < keys.len()
        invariant
            kv == views(keys@),
            kv.len() == keys.len(),
            forall|j: int| 0 <= j < keys.len() ==> #[trigger] kv[j] == keys@[j]@,
            rep < keys.len(),
            i <= keys.len(),
            c == count_of(kv.take(i as int), kv[rep as int]),
            c <= i,
        decreases keys.len() - i,
    {
        assert(kv.take(i + 1).drop_last() =~= kv.take(i as int));
        if str_eq(keys[i].as_str(), keys[rep].as_str()) {
            c = c + 1;
        }
        i = i + 1;
    }
    assert(kv.take(keys.len() as int) =~= kv);
    c
}

/// Each distinct key with the number of rows that hold it (a `HashMap` from
/// key to count, as a list), and for each row the entry of its key; the keys
/// are listed in the order in which they first occur.
pub fn counts_by_key(keys: &Vec<String>) -> (res: (Vec<KeyCount>, Vec<usize>))
    ensures
        forall|a: int, b: int| 0 <= a < b < res.0.len() ==> res.0@[a].key@ != res.0@[b].key@,
        forall|a: int| 0 <= a < res.0.len() ==> (#[trigger] res.0@[a]).count == count_of(views(keys@), res.0@[a].key@) && res.0@[a].count > 0,
        res.1.len() == keys.len(),
        forall|i: int| 0 <= i < keys.len() ==> (#[trigger] res.1@[i]) < res.0.len() && res.0@[res.1@[i] as int].key@ == keys@[i]@,
        forall|i: int, j: int| 0 <= i < j < keys.len() && first_occurrence(views(keys@), i) && first_occurrence(views(keys@), j)
            ==> #[trigger] res.1@[i] < #[trigger] res.1@[j],
{
    let ghost kv = views(keys@);
    let (reps, owner) = first_occurrences(keys);
    assert(kv.len() == keys.len());
    let mut r: Vec<KeyCount> = Vec::new();
    let mut k: usize = 0;
    while k < reps.len()
        invariant
            kv == views(keys@),
            kv.len() == keys.len(),
            k <= reps.len(),
            r.len() == k,
            strictly_increasing(reps@),
            forall|q: int| 0 <= q < reps.len() ==> first_occurrence(kv, #[trigger] reps@[q] as int),
            forall|a: int| 0 <= a < k ==> (#[trigger] r@[a]).key@ == kv[reps@[a] as int],
            forall|a: int| 0 <= a < k ==> (#[trigger] r@[a]).count == count_of(kv, r@[a].key@) && r@[a].count > 0,
        decreases reps.len() - k,
    {
        let rep = reps[k];
        assert(first_occurrence(kv, reps@[k as int] as int));
        let c = count_matching(keys, rep);
        proof {
            lemma_count_positive(kv, rep as int);
        }
        let key = crate::text::owned(keys[rep].as_str());
        assert(key@ == kv[rep as int]);
        r.push(KeyCount { key, count: c });
        k = k + 1;
    }
    assert forall|a: int, b: int| 0 <= a < b < r.len() implies r@[a].key@ != r@[b].key@ by {
        assert(reps@[a] < reps@[b]);
        assert(first_occurrence(kv, reps@[b] as int));
    }
    assert forall|i: int| 0 <= i < keys.len() implies (#[trigger] owner@[i]) < r.len() && r@[owner@[i] as int].key@ == keys@[i]@ by {
        let q = owner@[i] as int;
        assert(r@[q].key@ == kv[reps@[q] as int]);
        assert(kv[reps@[q] as int] == kv[i]);
        assert(kv[i] == keys@[i]@);
    }
    assert forall|i: int, j: int| 0 <= i < j < keys.len() && first_occurrence(kv, i) && first_occurrence(kv, j)
        implies #[trigger] owner@[i] < #[trigger] owner@[j] by {
        let qi = owner@[i] as int;
        let qj = owner@[j] as int;
        assert(first_occurrence(kv, reps@[qi] as int));
        assert(first_occurrence(kv, reps@[qj] as int));
        assert(reps@[qi] == i) by {
            if (reps@[qi] as int) < i {
                assert(kv[reps@[qi] as int] == kv[i]);
            } else if (reps@[qi] as int) > i {
                assert(kv[i] == kv[reps@[qi] as int]);
            }
        }
        assert(reps@[qj] == j) by {
            if (reps@[qj] as int) < j {
                assert(kv[reps@[qj] as int] == kv[j]);
            } else if (reps@[qj] as int) > j {
                assert(kv[j] == kv[reps@[qj] as int]);
            }
        }
        if qi >= qj {
            if qi > qj {
                assert(reps@[qj] < reps@[qi]);
            }
        }
    }
    (r, owner)
}

// ---------------------------------------------------------------------------
// Selecting rows
// ---------------------------------------------------------------------------

/// `r` lists, in increasing order, exactly the indices whose flag is set.
pub open spec fn selects(r: Seq<usize>, flags: Seq<bool>) -> bool {
    &&& forall|a: int, b: int| 0 <= a < b < r.len() ==> r[a] < r[b]
    &&& forall|a: int| 0 <= a < r.len() ==> (#[trigger] r[a]) < flags.len()
    &&& forall|i: int| 0 <= i < flags.len() ==> (r.contains(i as usize) <==> #[trigger] flags[i])
}

/// The indices whose flag is set, in increasing order.
pub fn indices_where(flags: &Vec<bool>) -> (r: Vec<usize>)
    ensures
        selects(r@, flags@),
{
    let mut r: Vec<usize> = Vec::new();
    let mut i: usize = 0;
    while i < flags.len()
        invariant
            i <= flags.len(),
            forall|a: int, b: int| 0 <= a < b < r.len() ==> r@[a] < r@[b],
            forall|a: int| 0 <= a < r.len() ==> (#[trigger] r@[a]) < i,
            forall|j: int| 0 <= j < i ==> (r@.contains(j as usize) <==> #[trigger] flags@[j]),
        decreases flags.len() - i,
    {
        let ghost old_r = r@;
        if flags[i] {
            r.push(i);
        }
        assert forall|j: int| 0 <= j < i + 1 implies (r@.contains(j as usize) <==> #[trigger] flags@[j]) by {
            if j < i {
                if r@.contains(j as usize) && !old_r.contains(j as usize) {
                    let a = choose|a: int| 0 <= a < r@.len() && r@[a] == j as usize;
                    assert(a == old_r.len());
                }
                if old_r.contains(j as usize) {
                    let a = choose|a: int| 0 <= a < old_r.len() && old_r[a] == j as usize;
                    assert(r@[a] == old_r[a]);
                }
            } else {
                if flags@[i as int] {
                    assert(r@[old_r.len() as int] == i);
                } else {
                    assert(r@ == old_r);
                }
            }
        }
        i = i + 1;
    }
    r
}

} // verus!
