//! The stable order of feed items by their commit time.
use vstd::prelude::*;

verus! {

/// Item `a` comes before item `b`: an earlier time, or the same time and an
/// earlier position in the walk.
pub open spec fn goes_before(t: Seq<i64>, a: int, b: int) -> bool {
    t[a] < t[b] || (t[a] == t[b] && a < b)
}

/// `ord` lists every position of `t` once, ordered by time, with equal times
/// in the order in which they came.
pub open spec fn is_stable_order(t: Seq<i64>, ord: Seq<usize>) -> bool {
    &&& ord.len() == t.len()
    &&& forall|k: int| 0 <= k < ord.len() ==> ord[k] < t.len()
    &&& forall|k: int, l: int|
        0 <= k < l < ord.len() ==> #[trigger] goes_before(t, ord[k] as int, ord[l] as int)
    &&& forall|j: usize| j < t.len() ==> #[trigger] ord.contains(j)
}

/// The positions of `times`, in the order in which their items are published.
pub fn stable_order(times: &Vec<i64>) -> (r: Vec<usize>)
    ensures
        is_stable_order(times@, r@),
{
    let n = times.len();
    let mut ord: Vec<usize> = Vec::new();
    let mut i: usize = 0;
    while i < n
        invariant
            n == times@.len(),
            i <= n,
            ord@.len() == i,
            forall|k: int| 0 <= k < ord@.len() ==> ord@[k] < i,
            forall|k: int, l: int|
                0 <= k < l < ord@.len() ==> #[trigger] goes_before(
                    times@,
                    ord@[k] as int,
                    ord@[l] as int,
                ),
            forall|j: usize| j < i ==> #[trigger] ord@.contains(j),
        decreases n - i,
    {
        let t = times[i];
        let mut pos: usize = 0;
        while pos < ord.len() && times[ord[pos]] <= t
            invariant
                n == times@.len(),
                i < n,
                t == times@[i as int],
                pos <= ord@.len(),
                forall|k: int| 0 <= k < ord@.len() ==> ord@[k] < i,
                forall|k: int| 0 <= k < pos ==> times@[ord@[k] as int] <= t,
            decreases ord@.len() - pos,
        {
            pos = pos + 1;
        }
        let ghost before = ord@;
        proof {
            assert forall|k: int| pos <= k < before.len() implies t < times@[before[k] as int] by {
                if k > pos {
                    assert(goes_before(times@, before[pos as int] as int, before[k] as int));
                }
            }
        }
        ord.insert(pos, i);
        proof {
            let after = ord@;
            assert(after == before.insert(pos as int, i));
            assert forall|k: int, l: int| 0 <= k < l < after.len() implies #[trigger] goes_before(
                times@,
                after[k] as int,
                after[l] as int,
            ) by {
                if l < pos {
                    assert(goes_before(times@, before[k] as int, before[l] as int));
                } else if l == pos {
                } else if k < pos {
                    assert(goes_before(times@, before[k] as int, before[l - 1] as int));
                } else if k == pos {
                } else {
                    assert(goes_before(times@, before[k - 1] as int, before[l - 1] as int));
                }
            }
            assert forall|j: usize| j < i + 1 implies #[trigger] after.contains(j) by {
                if j == i {
                    assert(after[pos as int] == j);
                } else {
                    assert(before.contains(j));
                    let k = choose|k: int| 0 <= k < before.len() && before[k] == j;
                    if k < pos {
                        assert(after[k] == j);
                    } else {
                        assert(after[k + 1] == j);
                    }
                }
            }
        }
        i = i + 1;
    }
    ord
}

} // verus!
