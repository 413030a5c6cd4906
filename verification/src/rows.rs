//! Choosing and ordering rows of a table.
use vstd::prelude::*;

verus! {

/// The position of the row that comes first among those that satisfy `wanted`;
/// -1 where none does. Of rows that neither precedes the other, the earlier in
/// the table is taken.
pub open spec fn pick<T>(
    rows: Seq<T>,
    wanted: spec_fn(T) -> bool,
    before: spec_fn(T, T) -> bool,
) -> int
    decreases rows.len(),
{
    if rows.len() == 0 {
        -1
    } else {
        let k = pick(rows.drop_last(), wanted, before);
        if wanted(rows.last()) && (k < 0 || before(rows.last(), rows[k])) {
            rows.len() - 1
        } else {
            k
        }
    }
}

/// Whether a relation can order rows: no row precedes itself, precedence
/// carries over, and of a row and one that it precedes every third row is
/// preceded by the first or precedes the second.
pub open spec fn is_order<T>(before: spec_fn(T, T) -> bool) -> bool {
    &&& forall|a: T| !#[trigger] before(a, a)
    &&& forall|a: T, b: T, c: T| #[trigger]
        before(a, b) && #[trigger] before(b, c) ==> before(a, c)
    &&& forall|a: T, b: T, c: T| #[trigger]
        before(a, b) && !(#[trigger] before(a, c)) ==> before(c, b)
}

/// The row that `pick` gives is wanted, and no wanted row precedes it; it gives
/// none only where no row is wanted.
pub proof fn lemma_pick<T>(
    rows: Seq<T>,
    wanted: spec_fn(T) -> bool,
    before: spec_fn(T, T) -> bool,
)
    requires
        is_order(before),
    ensures
        -1 <= pick(rows, wanted, before) < rows.len(),
        pick(rows, wanted, before) >= 0 ==> wanted(rows[pick(rows, wanted, before)]),
        pick(rows, wanted, before) >= 0 ==> forall|j: int|
            0 <= j < rows.len() && wanted(#[trigger] rows[j]) ==> !before(
                rows[j],
                rows[pick(rows, wanted, before)],
            ),
        pick(rows, wanted, before) < 0 ==> forall|j: int|
            0 <= j < rows.len() ==> !wanted(#[trigger] rows[j]),
    decreases rows.len(),
{
    if rows.len() > 0 {
        let front = rows.drop_last();
        lemma_pick(front, wanted, before);
        let k = pick(front, wanted, before);
        let best = pick(rows, wanted, before);
        if best >= 0 {
            assert forall|j: int| 0 <= j < rows.len() && wanted(
                #[trigger] rows[j],
            ) implies !before(rows[j], rows[best]) by {
                if j < rows.len() - 1 {
                    assert(front[j] == rows[j]);
                    if k >= 0 {
                        assert(front[k] == rows[k]);
                        if before(rows[j], rows.last()) && before(rows.last(), rows[k]) {
                            assert(before(rows[j], rows[k]));
                        }
                    }
                }
            }
        } else {
            assert forall|j: int| 0 <= j < rows.len() implies !wanted(#[trigger] rows[j]) by {
                if j < rows.len() - 1 {
                    assert(front[j] == rows[j]);
                }
            }
        }
    }
}

/// A row put into an ordered list, behind those that it does not precede.
pub open spec fn put_in_order<T>(sorted: Seq<T>, row: T, before: spec_fn(T, T) -> bool) -> Seq<T>
    decreases sorted.len(),
{
    if sorted.len() > 0 && before(row, sorted.last()) {
        put_in_order(sorted.drop_last(), row, before).push(sorted.last())
    } else {
        sorted.push(row)
    }
}

/// The rows in order; rows that neither precedes the other stay as they stood.
pub open spec fn in_order<T>(rows: Seq<T>, before: spec_fn(T, T) -> bool) -> Seq<T>
    decreases rows.len(),
{
    if rows.len() == 0 {
        Seq::empty()
    } else {
        put_in_order(in_order(rows.drop_last(), before), rows.last(), before)
    }
}

/// No row is preceded by one that stands behind it.
pub open spec fn is_in_order<T>(rows: Seq<T>, before: spec_fn(T, T) -> bool) -> bool {
    forall|i: int, j: int|
        0 <= i < j < rows.len() ==> !before(#[trigger] rows[j], #[trigger] rows[i])
}

proof fn lemma_put_in_order<T>(sorted: Seq<T>, row: T, before: spec_fn(T, T) -> bool)
    requires
        is_order(before),
        is_in_order(sorted, before),
    ensures
        is_in_order(put_in_order(sorted, row, before), before),
        put_in_order(sorted, row, before).to_multiset() == sorted.to_multiset().insert(row),
        put_in_order(sorted, row, before).len() == sorted.len() + 1,
        forall|i: int|
            0 <= i < sorted.len() + 1 ==> (#[trigger] put_in_order(sorted, row, before)[i]) == row
                || sorted.contains(put_in_order(sorted, row, before)[i]),
    decreases sorted.len(),
{
    broadcast use vstd::seq_lib::group_to_multiset_ensures;

    let out = put_in_order(sorted, row, before);
    if sorted.len() > 0 && before(row, sorted.last()) {
        let front = sorted.drop_last();
        lemma_put_in_order(front, row, before);
        let rest = put_in_order(front, row, before);
        assert(out == rest.push(sorted.last()));
        assert(sorted == front.push(sorted.last()));
        assert(out.to_multiset() =~= sorted.to_multiset().insert(row));
        assert forall|i: int| 0 <= i < out.len() implies (#[trigger] out[i]) == row
            || sorted.contains(out[i]) by {
            if i < rest.len() {
                assert(out[i] == rest[i]);
                if rest[i] != row {
                    let k = choose|k: int| 0 <= k < front.len() && front[k] == rest[i];
                    assert(sorted[k] == rest[i]);
                }
            } else {
                assert(sorted[sorted.len() - 1] == out[i]);
            }
        }
        assert forall|i: int, j: int| 0 <= i < j < out.len() implies !before(
            #[trigger] out[j],
            #[trigger] out[i],
        ) by {
            if j == rest.len() {
                assert(out[i] == rest[i]);
                if rest[i] == row {
                    if before(sorted.last(), row) {
                        assert(before(row, row));
                    }
                } else {
                    let k = choose|k: int| 0 <= k < front.len() && front[k] == rest[i];
                    assert(sorted[k] == rest[i]);
                    assert(!before(sorted[sorted.len() - 1], sorted[k]));
                }
            } else {
                assert(out[i] == rest[i] && out[j] == rest[j]);
            }
        }
    } else {
        assert forall|i: int, j: int| 0 <= i < j < out.len() implies !before(
            #[trigger] out[j],
            #[trigger] out[i],
        ) by {
            if j == sorted.len() {
                if before(row, sorted[i]) {
                    assert(!before(row, sorted.last()));
                    assert(before(sorted.last(), sorted[i]));
                }
            }
        }
        assert forall|i: int| 0 <= i < out.len() implies (#[trigger] out[i]) == row
            || sorted.contains(out[i]) by {
            if i < sorted.len() {
                assert(sorted[i] == out[i]);
            }
        }
    }
}

/// `in_order` keeps every row, as often as it stood, and puts them in order.
pub proof fn lemma_in_order<T>(rows: Seq<T>, before: spec_fn(T, T) -> bool)
    requires
        is_order(before),
    ensures
        is_in_order(in_order(rows, before), before),
        in_order(rows, before).to_multiset() == rows.to_multiset(),
        in_order(rows, before).len() == rows.len(),
    decreases rows.len(),
{
    broadcast use vstd::seq_lib::group_to_multiset_ensures;

    if rows.len() > 0 {
        let front = in_order(rows.drop_last(), before);
        lemma_in_order(rows.drop_last(), before);
        lemma_put_in_order(front, rows.last(), before);
        assert(rows == rows.drop_last().push(rows.last()));
    }
}

/// Rows that come in an order of their own.
pub trait Ordered: View + Sized {
    /// Whether a row comes before another.
    spec fn before() -> spec_fn(Self::V, Self::V) -> bool;

    /// Whether the row comes before another.
    fn precedes(&self, other: &Self) -> (out: bool)
        ensures
            out == Self::before()(self@, other@),
    ;
}

/// The contents of a list of rows.
pub open spec fn contents<T: View>(list: Seq<T>) -> Seq<T::V> {
    list.map_values(|t: T| t@)
}

fn put<T: Ordered>(sorted: &mut Vec<T>, row: T)
    ensures
        contents(final(sorted)@) == put_in_order(contents(old(sorted)@), row@, T::before()),
{
    let ghost all = contents(old(sorted)@);
    let mut at: usize = sorted.len();
    assert(all.take(at as int) =~= all);
    assert(put_in_order(all, row@, T::before()) =~= put_in_order(
        all.take(at as int),
        row@,
        T::before(),
    ) + all.skip(at as int));
    while at > 0 && row.precedes(&sorted[at - 1])
        invariant
            at <= sorted@.len(),
            *sorted == *old(sorted),
            all == contents(old(sorted)@),
            put_in_order(all, row@, T::before()) == put_in_order(
                all.take(at as int),
                row@,
                T::before(),
            ) + all.skip(at as int),
        decreases at,
    {
        let ghost head = all.take(at as int);
        assert(head.drop_last() =~= all.take(at - 1));
        assert(head.last() == sorted@[at - 1]@);
        assert(put_in_order(head, row@, T::before()) == put_in_order(
            all.take(at - 1),
            row@,
            T::before(),
        ).push(head.last()));
        assert(put_in_order(head, row@, T::before()) + all.skip(at as int) =~= put_in_order(
            all.take(at - 1),
            row@,
            T::before(),
        ) + all.skip(at - 1));
        at = at - 1;
    }
    assert(at > 0 ==> all.take(at as int).last() == sorted@[at - 1]@);
    sorted.insert(at, row);
    assert(contents(sorted@) =~= all.take(at as int).push(row@) + all.skip(at as int));
}

/// The rows in their order.
pub fn sort<T: Ordered>(list: Vec<T>) -> (out: Vec<T>)
    ensures
        contents(out@) == in_order(contents(list@), T::before()),
{
    let ghost all = list@;
    let mut out: Vec<T> = Vec::new();
    assert(contents(out@) =~= in_order(contents(all.take(0)), T::before()));
    for row in it: list
        invariant
            it.seq() == all,
            contents(out@) == in_order(contents(all.take(it.index())), T::before()),
    {
        let ghost head = contents(all.take(it.index()));
        let ghost more = contents(all.take(it.index() + 1));
        assert(more.drop_last() =~= head);
        assert(more.last() == row@);
        put(&mut out, row);
    }
    assert(all.take(all.len() as int) =~= all);
    out
}

/// What is kept of a list is what stands in it and is wanted.
pub proof fn lemma_kept<T>(list: Seq<T>, wanted: spec_fn(T) -> bool, row: T)
    ensures
        list.filter(wanted).contains(row) <==> list.contains(row) && wanted(row),
    decreases list.len(),
{
    reveal(Seq::filter);
    if list.len() > 0 {
        let front = list.drop_last();
        let kept = list.filter(wanted);
        let before = front.filter(wanted);
        lemma_kept(front, wanted, row);
        if before.contains(row) {
            let i = choose|i: int| 0 <= i < before.len() && before[i] == row;
            assert(kept[i] == row);
        }
        if front.contains(row) {
            let i = choose|i: int| 0 <= i < front.len() && front[i] == row;
            assert(list[i] == row);
        }
        if wanted(list.last()) {
            assert(kept[kept.len() - 1] == list.last());
        }
        assert(list[list.len() - 1] == list.last());
        if kept.contains(row) {
            let i = choose|i: int| 0 <= i < kept.len() && kept[i] == row;
            if i < before.len() {
                assert(before[i] == row);
            }
        }
        if list.contains(row) {
            let i = choose|i: int| 0 <= i < list.len() && list[i] == row;
            if i < front.len() {
                assert(front[i] == row);
            }
        }
    }
}

/// Rows that are put in order are the rows that were there.
pub proof fn lemma_in_order_contains<T>(rows: Seq<T>, before: spec_fn(T, T) -> bool, row: T)
    requires
        is_order(before),
    ensures
        in_order(rows, before).contains(row) <==> rows.contains(row),
{
    broadcast use vstd::seq_lib::group_to_multiset_ensures;

    lemma_in_order(rows, before);
    assert(in_order(rows, before).to_multiset().count(row) == rows.to_multiset().count(row));
    rows.to_multiset_ensures();
    in_order(rows, before).to_multiset_ensures();
}

} // verus!
