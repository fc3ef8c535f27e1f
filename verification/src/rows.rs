//! Facts about sequences of rows: what stays when rows are filtered out.

use vstd::prelude::*;

verus! {

/// No two rows of `rows` have the same key.
pub open spec fn distinct_keys<A>(rows: Seq<A>, key: spec_fn(A) -> u128) -> bool {
    forall|i: int, j: int|
        0 <= i < j < rows.len() ==> key(#[trigger] rows[i]) != key(#[trigger] rows[j])
}

/// Some row of `rows` has the key `wanted`.
pub open spec fn has_key<A>(rows: Seq<A>, key: spec_fn(A) -> u128, wanted: u128) -> bool {
    exists|i: int| 0 <= i < rows.len() && key(#[trigger] rows[i]) == wanted
}

/// Filtering one row more: the row is appended where it passes the filter.
pub proof fn lemma_filter_step<A>(rows: Seq<A>, keep: spec_fn(A) -> bool, n: int)
    requires
        0 <= n < rows.len(),
    ensures
        rows.take(n + 1).filter(keep) == if keep(rows[n]) {
            rows.take(n).filter(keep).push(rows[n])
        } else {
            rows.take(n).filter(keep)
        },
{
    reveal(Seq::filter);
    assert(rows.take(n + 1).drop_last() == rows.take(n));
}

/// A filter that every row passes leaves the sequence as it is.
pub proof fn lemma_filter_all<A>(rows: Seq<A>, keep: spec_fn(A) -> bool)
    requires
        forall|i: int| 0 <= i < rows.len() ==> keep(#[trigger] rows[i]),
    ensures
        rows.filter(keep) == rows,
    decreases rows.len(),
{
    reveal(Seq::filter);
    if rows.len() > 0 {
        let front = rows.drop_last();
        assert forall|i: int| 0 <= i < front.len() implies keep(#[trigger] front[i]) by {
            assert(front[i] == rows[i]);
        }
        lemma_filter_all(front, keep);
        assert(front.push(rows.last()) =~= rows);
    }
}

/// A row is in the filtered sequence exactly when it is in the sequence and
/// passes the filter.
pub proof fn lemma_filter_contains<A>(rows: Seq<A>, keep: spec_fn(A) -> bool)
    ensures
        forall|row: A| #[trigger]
            rows.filter(keep).contains(row) <==> rows.contains(row) && keep(row),
    decreases rows.len(),
{
    reveal(Seq::filter);
    if rows.len() > 0 {
        let front = rows.drop_last();
        lemma_filter_contains(front, keep);
        assert forall|row: A| #[trigger]
            rows.filter(keep).contains(row) <==> rows.contains(row) && keep(row) by {
            if rows.contains(row) {
                let i = choose|i: int| 0 <= i < rows.len() && rows[i] == row;
                if i < rows.len() - 1 {
                    assert(front[i] == row);
                    assert(front.contains(row));
                }
            }
            if front.contains(row) {
                let i = choose|i: int| 0 <= i < front.len() && front[i] == row;
                assert(rows[i] == row);
            }
            if keep(rows.last()) {
                let kept = front.filter(keep);
                assert(rows.filter(keep) == kept.push(rows.last()));
                if kept.push(rows.last()).contains(row) {
                    let i = choose|i: int|
                        0 <= i < kept.push(rows.last()).len() && kept.push(rows.last())[i] == row;
                    if i < kept.len() {
                        assert(kept[i] == row);
                    }
                }
                if kept.contains(row) {
                    let i = choose|i: int| 0 <= i < kept.len() && kept[i] == row;
                    assert(kept.push(rows.last())[i] == row);
                }
                if row == rows.last() {
                    assert(kept.push(rows.last())[kept.len() as int] == row);
                    assert(rows[rows.len() - 1] == row);
                }
            }
        }
    }
}

/// Filtering keeps keys distinct.
pub proof fn lemma_filter_distinct<A>(
    rows: Seq<A>,
    keep: spec_fn(A) -> bool,
    key: spec_fn(A) -> u128,
)
    requires
        distinct_keys(rows, key),
    ensures
        distinct_keys(rows.filter(keep), key),
    decreases rows.len(),
{
    reveal(Seq::filter);
    if rows.len() > 0 {
        let front = rows.drop_last();
        assert forall|i: int, j: int| 0 <= i < j < front.len() implies key(#[trigger] front[i])
            != key(#[trigger] front[j]) by {
            assert(front[i] == rows[i] && front[j] == rows[j]);
        }
        lemma_filter_distinct(front, keep, key);
        lemma_filter_contains(front, keep);
        let kept = front.filter(keep);
        if keep(rows.last()) {
            let all = kept.push(rows.last());
            assert forall|i: int, j: int| 0 <= i < j < all.len() implies key(#[trigger] all[i])
                != key(#[trigger] all[j]) by {
                if j < kept.len() {
                    assert(all[i] == kept[i] && all[j] == kept[j]);
                } else {
                    assert(all[i] == kept[i]);
                    assert(kept.contains(kept[i]));
                    assert(front.contains(kept[i]));
                    let k = choose|k: int| 0 <= k < front.len() && front[k] == kept[i];
                    assert(rows[k] == kept[i]);
                    assert(all[j] == rows[rows.len() - 1]);
                }
            }
        }
    }
}

/// After filtering, a key is present exactly when a row with that key that
/// passes the filter was present before.
pub proof fn lemma_filter_has_key<A>(
    rows: Seq<A>,
    keep: spec_fn(A) -> bool,
    key: spec_fn(A) -> u128,
    wanted: u128,
)
    ensures
        has_key(rows.filter(keep), key, wanted) <==> exists|i: int|
            0 <= i < rows.len() && key(#[trigger] rows[i]) == wanted && keep(rows[i]),
{
    lemma_filter_contains(rows, keep);
    let kept = rows.filter(keep);
    if has_key(kept, key, wanted) {
        let i = choose|i: int| 0 <= i < kept.len() && key(#[trigger] kept[i]) == wanted;
        assert(kept.contains(kept[i]));
        assert(rows.contains(kept[i]));
        let k = choose|k: int| 0 <= k < rows.len() && rows[k] == kept[i];
        assert(key(rows[k]) == wanted && keep(rows[k]));
    }
    if exists|i: int| 0 <= i < rows.len() && key(#[trigger] rows[i]) == wanted && keep(rows[i]) {
        let i = choose|i: int|
            0 <= i < rows.len() && key(#[trigger] rows[i]) == wanted && keep(rows[i]);
        assert(rows.contains(rows[i]));
        assert(kept.contains(rows[i]));
        let k = choose|k: int| 0 <= k < kept.len() && kept[k] == rows[i];
        assert(key(kept[k]) == wanted);
    }
}

} // verus!
