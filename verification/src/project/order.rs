//! The orders in which the tables are read, and the row that comes first.
use vstd::prelude::*;

use crate::project::RunRecord;
use crate::project::RunView;
use crate::project::TaskRecord;
use crate::project::TaskView;
use crate::rows;
use crate::text;

verus! {

/// Tasks by id.
pub open spec fn by_id() -> spec_fn(TaskView, TaskView) -> bool {
    |a: TaskView, b: TaskView| text::text_lt(a.id, b.id)
}

/// Tasks with the lease that was written last first, then those without a
/// lease; equal ones by id.
pub open spec fn by_lease() -> spec_fn(TaskView, TaskView) -> bool {
    |a: TaskView, b: TaskView| lease_precedes(a, b)
}

/// Whether a task comes before another in the order of leases.
pub open spec fn lease_precedes(a: TaskView, b: TaskView) -> bool {
    match (a.lease_until, b.lease_until) {
        (Some(x), Some(y)) => text::text_lt(y, x) || (x == y && text::text_lt(a.id, b.id)),
        (Some(_), None) => true,
        (None, Some(_)) => false,
        (None, None) => text::text_lt(a.id, b.id),
    }
}

/// Runs with the one that changed last first; then the one that started last;
/// then by id, the greatest first.
pub open spec fn by_recency() -> spec_fn(RunView, RunView) -> bool {
    |a: RunView, b: RunView| run_precedes(a, b)
}

/// Whether a run comes before another in the order of recency.
pub open spec fn run_precedes(a: RunView, b: RunView) -> bool {
    text::text_lt(b.updated_at, a.updated_at) || (a.updated_at == b.updated_at && (text::text_lt(
        b.started_at,
        a.started_at,
    ) || (a.started_at == b.started_at && text::text_lt(b.id, a.id))))
}

/// Runs with the one that started last first; then by id, the greatest first.
pub open spec fn by_start() -> spec_fn(RunView, RunView) -> bool {
    |a: RunView, b: RunView|
        text::text_lt(b.started_at, a.started_at) || (a.started_at == b.started_at
            && text::text_lt(b.id, a.id))
}

/// Tasks by id, behind the task of a project without task artifacts.
pub open spec fn by_listing() -> spec_fn(TaskView, TaskView) -> bool {
    |a: TaskView, b: TaskView|
        {
            let x = a.id == "current"@;
            let y = b.id == "current"@;
            (x && !y) || (x == y && text::text_lt(a.id, b.id))
        }
}

pub proof fn lemma_text_order(a: Seq<char>, b: Seq<char>, c: Seq<char>)
    ensures
        !text::text_lt(a, a),
        text::text_lt(a, b) && text::text_lt(b, c) ==> text::text_lt(a, c),
        text::text_lt(a, b) && !text::text_lt(a, c) ==> text::text_lt(c, b),
        text::text_lt(a, b) ==> !text::text_lt(b, a) && a != b,
        !text::text_lt(a, b) && !text::text_lt(b, a) ==> a == b,
{
    text::lemma_text_order_total(a, a);
    text::lemma_text_order_total(a, b);
    text::lemma_text_order_total(b, c);
    text::lemma_text_order_total(a, c);
    text::lemma_text_order_transitive(a, b, c);
    text::lemma_text_order_transitive(c, a, b);
}

/// The order by id is one.
pub proof fn lemma_by_id()
    ensures
        rows::is_order(by_id()),
{
    let f = by_id();
    assert forall|a: TaskView| !#[trigger] f(a, a) by {
        lemma_text_order(a.id, a.id, a.id);
    }
    assert forall|a: TaskView, b: TaskView, c: TaskView| #[trigger] f(a, b) && #[trigger] f(
        b,
        c,
    ) implies f(a, c) by {
        lemma_text_order(a.id, b.id, c.id);
    }
    assert forall|a: TaskView, b: TaskView, c: TaskView| #[trigger] f(a, b) && !(#[trigger] f(
        a,
        c,
    )) implies f(c, b) by {
        lemma_text_order(a.id, b.id, c.id);
    }
}

/// The order of a listing is one.
pub proof fn lemma_by_listing()
    ensures
        rows::is_order(by_listing()),
{
    let f = by_listing();
    assert forall|a: TaskView| !#[trigger] f(a, a) by {
        lemma_text_order(a.id, a.id, a.id);
    }
    assert forall|a: TaskView, b: TaskView, c: TaskView| #[trigger] f(a, b) && #[trigger] f(
        b,
        c,
    ) implies f(a, c) by {
        lemma_text_order(a.id, b.id, c.id);
    }
    assert forall|a: TaskView, b: TaskView, c: TaskView| #[trigger] f(a, b) && !(#[trigger] f(
        a,
        c,
    )) implies f(c, b) by {
        lemma_text_order(a.id, b.id, c.id);
    }
}

proof fn lemma_lease_precedes(a: TaskView, b: TaskView, c: TaskView)
    ensures
        !lease_precedes(a, a),
        lease_precedes(a, b) && lease_precedes(b, c) ==> lease_precedes(a, c),
        lease_precedes(a, b) && !lease_precedes(a, c) ==> lease_precedes(c, b),
{
    lemma_text_order(a.id, b.id, c.id);
    lemma_text_order(a.id, c.id, b.id);
    if a.lease_until is Some {
        lemma_text_order(a.lease_until->0, a.lease_until->0, a.lease_until->0);
    }
    if a.lease_until is Some && b.lease_until is Some {
        lemma_text_order(b.lease_until->0, a.lease_until->0, a.lease_until->0);
        lemma_text_order(a.lease_until->0, b.lease_until->0, a.lease_until->0);
    }
    if a.lease_until is Some && c.lease_until is Some {
        lemma_text_order(c.lease_until->0, a.lease_until->0, a.lease_until->0);
        lemma_text_order(a.lease_until->0, c.lease_until->0, a.lease_until->0);
    }
    if b.lease_until is Some && c.lease_until is Some {
        lemma_text_order(c.lease_until->0, b.lease_until->0, b.lease_until->0);
        lemma_text_order(b.lease_until->0, c.lease_until->0, b.lease_until->0);
    }
    if a.lease_until is Some && b.lease_until is Some && c.lease_until is Some {
        let x = a.lease_until->0;
        let y = b.lease_until->0;
        let z = c.lease_until->0;
        lemma_text_order(z, y, x);
        lemma_text_order(y, x, z);
        lemma_text_order(x, y, z);
    }
}

/// The order of leases is one.
pub proof fn lemma_by_lease()
    ensures
        rows::is_order(by_lease()),
{
    let f = by_lease();
    assert forall|a: TaskView| !#[trigger] f(a, a) by {
        lemma_lease_precedes(a, a, a);
    }
    assert forall|a: TaskView, b: TaskView, c: TaskView| #[trigger] f(a, b) && #[trigger] f(
        b,
        c,
    ) implies f(a, c) by {
        lemma_lease_precedes(a, b, c);
    }
    assert forall|a: TaskView, b: TaskView, c: TaskView| #[trigger] f(a, b) && !(#[trigger] f(
        a,
        c,
    )) implies f(c, b) by {
        lemma_lease_precedes(a, b, c);
    }
}

proof fn lemma_run_precedes(a: RunView, b: RunView, c: RunView)
    ensures
        !run_precedes(a, a),
        run_precedes(a, b) && run_precedes(b, c) ==> run_precedes(a, c),
        run_precedes(a, b) && !run_precedes(a, c) ==> run_precedes(c, b),
{
    lemma_text_order(c.id, b.id, a.id);
    lemma_text_order(b.id, a.id, c.id);
    lemma_text_order(a.id, a.id, a.id);
    lemma_text_order(c.id, a.id, b.id);
    lemma_text_order(c.started_at, b.started_at, a.started_at);
    lemma_text_order(b.started_at, a.started_at, c.started_at);
    lemma_text_order(a.started_at, a.started_at, a.started_at);
    lemma_text_order(c.started_at, a.started_at, b.started_at);
    lemma_text_order(c.updated_at, b.updated_at, a.updated_at);
    lemma_text_order(b.updated_at, a.updated_at, c.updated_at);
    lemma_text_order(a.updated_at, a.updated_at, a.updated_at);
    lemma_text_order(c.updated_at, a.updated_at, b.updated_at);
}

/// The order of recency is one.
pub proof fn lemma_by_recency()
    ensures
        rows::is_order(by_recency()),
{
    let f = by_recency();
    assert forall|a: RunView| !#[trigger] f(a, a) by {
        lemma_run_precedes(a, a, a);
    }
    assert forall|a: RunView, b: RunView, c: RunView| #[trigger] f(a, b) && #[trigger] f(
        b,
        c,
    ) implies f(a, c) by {
        lemma_run_precedes(a, b, c);
    }
    assert forall|a: RunView, b: RunView, c: RunView| #[trigger] f(a, b) && !(#[trigger] f(
        a,
        c,
    )) implies f(c, b) by {
        lemma_run_precedes(a, b, c);
    }
}

/// Whether a task comes before another in the order of leases.
pub fn lease_before(a: &TaskRecord, b: &TaskRecord) -> (out: bool)
    ensures
        out == by_lease()(a@, b@),
{
    match (&a.lease_until, &b.lease_until) {
        (Some(x), Some(y)) => text::text_less(y.as_str(), x.as_str()) || (text::same(
            x.as_str(),
            y.as_str(),
        ) && text::text_less(a.id.as_str(), b.id.as_str())),
        (Some(_), None) => true,
        (None, Some(_)) => false,
        (None, None) => text::text_less(a.id.as_str(), b.id.as_str()),
    }
}

/// Whether a task comes before another in a listing.
pub fn listed_before(a: &TaskRecord, b: &TaskRecord) -> (out: bool)
    ensures
        out == by_listing()(a@, b@),
{
    let x: bool = text::same(a.id.as_str(), "current");
    let y: bool = text::same(b.id.as_str(), "current");
    (x && !y) || (x == y && text::text_less(a.id.as_str(), b.id.as_str()))
}

/// Whether a run comes before another in the order of recency.
pub fn more_recent(a: &RunRecord, b: &RunRecord) -> (out: bool)
    ensures
        out == by_recency()(a@, b@),
{
    text::text_less(b.updated_at.as_str(), a.updated_at.as_str()) || (text::same(
        a.updated_at.as_str(),
        b.updated_at.as_str(),
    ) && (text::text_less(b.started_at.as_str(), a.started_at.as_str()) || (text::same(
        a.started_at.as_str(),
        b.started_at.as_str(),
    ) && text::text_less(b.id.as_str(), a.id.as_str()))))
}

/// Whether a run comes before another in the order by start.
pub fn started_later(a: &RunRecord, b: &RunRecord) -> (out: bool)
    ensures
        out == by_start()(a@, b@),
{
    text::text_less(b.started_at.as_str(), a.started_at.as_str()) || (text::same(
        a.started_at.as_str(),
        b.started_at.as_str(),
    ) && text::text_less(b.id.as_str(), a.id.as_str()))
}

/// The position that an optional position stands for; -1 for none.
pub open spec fn at_or_none(position: Option<usize>) -> int {
    match position {
        Some(i) => i as int,
        None => -1,
    }
}

/// Taking one more row into account.
pub proof fn lemma_pick_next<T>(
    all: Seq<T>,
    i: int,
    wanted: spec_fn(T) -> bool,
    before: spec_fn(T, T) -> bool,
)
    requires
        0 <= i < all.len(),
        -1 <= rows::pick(all.take(i), wanted, before) < i,
    ensures
        ({
            let k = rows::pick(all.take(i), wanted, before);
            rows::pick(all.take(i + 1), wanted, before) == if wanted(all[i]) && (k < 0 || before(
                all[i],
                all[k],
            )) {
                i
            } else {
                k
            }
        }),
{
    assert(all.take(i + 1).drop_last() =~= all.take(i));
    assert(all.take(i + 1).last() == all[i]);
    let k = rows::pick(all.take(i), wanted, before);
    if k >= 0 {
        assert(all.take(i + 1)[k] == all[k]);
    }
}

} // verus!
