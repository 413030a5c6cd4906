//! Claiming tasks and keeping the claim.
//!
//! A claim is a lease: it holds until its end, only its owner may renew it, and
//! only before it has run out.
use vstd::prelude::*;
use vstd::string::*;

use crate::clock;
use crate::clock::Instant;
use crate::project::order;
use crate::project::store;
use crate::project::store::Store;
use crate::project::store::StoreView;
use crate::project::tasks;
use crate::project::ContextView;
use crate::project::LeaseRenewal;
use crate::project::LeaseView;
use crate::project::ReadyClaimView;
use crate::project::ReadyTaskClaim;
use crate::project::RenewalView;
use crate::project::RunRecord;
use crate::project::RunView;
use crate::project::RuntimeTaskContext;
use crate::project::TaskClaim;
use crate::project::TaskClaimView;
use crate::project::TaskLease;
use crate::project::TaskRecord;
use crate::project::TaskView;
use crate::rows;
use crate::state::StateData;
use crate::text;

verus! {

// -------------------------------------------------------------------- model

/// Somebody's lease on the task still runs.
pub open spec fn leased(t: TaskView, now: Instant) -> bool {
    clock::lease_runs(t.lease_until, now)
}

/// The task is noted as claimed by the agent.
pub open spec fn owned_by(t: TaskView, agent: Seq<char>) -> bool {
    t.claimed_by == Some(agent)
}

/// What a claim does to a task's row.
pub open spec fn claimed(agent: Seq<char>, now: Instant, ttl_secs: u64) -> spec_fn(
    TaskView,
) -> TaskView {
    |t: TaskView|
        TaskView {
            claimed_by: Some(agent),
            lease_until: Some(clock::stamp(clock::lease_end(now, ttl_secs))),
            last_heartbeat: Some(clock::stamp(now)),
            ..t
        }
}

/// What a renewal does to a task's row.
pub open spec fn renewed(now: Instant, ttl_secs: u64) -> spec_fn(TaskView) -> TaskView {
    |t: TaskView|
        TaskView {
            lease_until: Some(clock::stamp(clock::lease_end(now, ttl_secs))),
            last_heartbeat: Some(clock::stamp(now)),
            ..t
        }
}

/// The end of a lease as an event tells it.
pub open spec fn exact_text(at: Instant) -> Seq<char> {
    clock::rfc3339_text(at.secs, at.nanos, false)
}

/// The payload of an event about a lease.
pub open spec fn lease_payload(id: Seq<char>, agent: Seq<char>, until: Instant) -> Seq<
    (Seq<char>, store::PayloadView),
> {
    seq![
        store::text_item("task_id"@, id),
        store::text_item("claimed_by"@, agent),
        store::text_item("lease_until"@, exact_text(until)),
    ]
}

/// The tables after a claim.
pub open spec fn claim_recorded(
    s: StoreView,
    id: Seq<char>,
    agent: Seq<char>,
    now: Instant,
    ttl_secs: u64,
) -> StoreView {
    store::with_event(
        tasks::row_changed(s, id, claimed(agent, now, ttl_secs)),
        store::draft(
            None,
            "task_claimed"@,
            lease_payload(id, agent, clock::lease_end(now, ttl_secs)),
            now,
        ),
    )
}

/// The tables after a renewal.
pub open spec fn renewal_recorded(
    s: StoreView,
    id: Seq<char>,
    agent: Seq<char>,
    now: Instant,
    ttl_secs: u64,
) -> StoreView {
    store::with_event(
        tasks::row_changed(s, id, renewed(now, ttl_secs)),
        store::draft(
            None,
            "task_lease_renewed"@,
            lease_payload(id, agent, clock::lease_end(now, ttl_secs)),
            now,
        ),
    )
}

/// The tables with a row for the task, which they may have had already.
pub open spec fn task_ensured(s: StoreView, id: Seq<char>, path: Seq<char>) -> StoreView {
    if store::find_task(s.tasks, id) is Some {
        s
    } else {
        StoreView { tasks: s.tasks.push(store::fresh_task(id, path, "unknown"@)), ..s }
    }
}

/// A task together with the lease on it.
pub open spec fn lease_on(t: TaskView, agent: Seq<char>, until: Instant) -> LeaseView {
    LeaseView {
        task_id: t.id,
        task_path: t.path,
        status: t.status,
        paused_status: t.paused_status,
        check_retries: t.check_retries,
        review_cycles: t.review_cycles,
        failure_reason: t.failure_reason,
        claimed_by: agent,
        lease_until: until,
    }
}

/// What an operation leads to: the tables after it and its outcome.
pub struct Outcome<R> {
    pub tables: StoreView,
    pub result: R,
}

/// Claiming one task, whatever its status. A running lease of the agent stands;
/// a running lease of another is respected.
pub open spec fn claim_one(
    s: StoreView,
    id: Seq<char>,
    path: Seq<char>,
    agent: Seq<char>,
    ttl_secs: u64,
    now: Instant,
) -> Outcome<TaskClaimView> {
    let known = task_ensured(s, id, path);
    let t = store::find_task(known.tasks, id)->0;
    if leased(t, now) && owned_by(t, agent) {
        Outcome {
            tables: known,
            result: TaskClaimView::AlreadyClaimed {
                claimed_by: agent,
                lease_until: clock::lease_instant(t.lease_until)->0,
            },
        }
    } else if leased(t, now) {
        Outcome {
            tables: known,
            result: TaskClaimView::ClaimedByOther {
                claimed_by: match t.claimed_by {
                    Some(other) => other,
                    None => "unknown"@,
                },
            },
        }
    } else {
        Outcome {
            tables: claim_recorded(known, id, agent, now, ttl_secs),
            result: TaskClaimView::Claimed {
                claimed_by: agent,
                lease_until: clock::lease_end(now, ttl_secs),
            },
        }
    }
}

/// A pending task is scheduled: it goes to `executing`.
pub open spec fn scheduled() -> spec_fn(TaskView) -> TaskView {
    |t: TaskView| TaskView { status: "executing"@, paused_status: None, ..t }
}

/// The tables after a pending task was scheduled.
pub open spec fn scheduling_recorded(s: StoreView, t: TaskView, now: Instant) -> StoreView {
    store::with_event(
        tasks::row_changed(s, t.id, scheduled()),
        store::draft(
            None,
            "task_scheduled"@,
            seq![
                store::text_item("task_id"@, t.id),
                store::text_item("previous_status"@, t.status),
                store::text_item("status"@, "executing"@),
                store::text_item("scheduled_at"@, clock::stamp(now)),
            ],
            now,
        ),
    )
}

/// Claiming a task whose row is known and may be claimed.
pub open spec fn claim_ready(
    s: StoreView,
    t: TaskView,
    agent: Seq<char>,
    ttl_secs: u64,
    now: Instant,
) -> Outcome<ReadyClaimView> {
    if leased(t, now) && owned_by(t, agent) {
        Outcome {
            tables: s,
            result: ReadyClaimView::AlreadyClaimed(
                lease_on(t, agent, clock::lease_instant(t.lease_until)->0),
            ),
        }
    } else if leased(t, now) {
        Outcome { tables: s, result: ReadyClaimView::NoAvailable }
    } else {
        Outcome {
            tables: claim_recorded(s, t.id, agent, now, ttl_secs),
            result: ReadyClaimView::Claimed(
                lease_on(t, agent, clock::lease_end(now, ttl_secs)),
            ),
        }
    }
}

/// Claiming a task by its id, if its status is among the allowed ones. A pending
/// task may be scheduled on the way.
pub open spec fn claim_by_id(
    s: StoreView,
    id: Seq<char>,
    agent: Seq<char>,
    ttl_secs: u64,
    allowed: Seq<Seq<char>>,
    promote_pending: bool,
    now: Instant,
) -> Outcome<ReadyClaimView> {
    match store::find_task(s.tasks, id) {
        None => Outcome { tables: s, result: ReadyClaimView::NoAvailable },
        Some(t) => if !allowed.contains(t.status) {
            Outcome { tables: s, result: ReadyClaimView::NoAvailable }
        } else if promote_pending && t.status == "pending"@ {
            claim_ready(
                scheduling_recorded(s, t, now),
                scheduled()(t),
                agent,
                ttl_secs,
                now,
            )
        } else {
            claim_ready(s, t, agent, ttl_secs, now)
        },
    }
}

/// Tasks in one of the statuses that the agent holds.
pub open spec fn held(statuses: Seq<Seq<char>>, agent: Seq<char>, now: Instant) -> spec_fn(
    TaskView,
) -> bool {
    |t: TaskView| statuses.contains(t.status) && leased(t, now) && owned_by(t, agent)
}

/// Tasks in one of the statuses that nobody holds.
pub open spec fn free(statuses: Seq<Seq<char>>, now: Instant) -> spec_fn(TaskView) -> bool {
    |t: TaskView| statuses.contains(t.status) && !leased(t, now)
}

/// Claiming the next task in one of the statuses: the first by id that the agent
/// holds already, else the first by id that nobody holds.
pub open spec fn claim_next(
    s: StoreView,
    agent: Seq<char>,
    ttl_secs: u64,
    statuses: Seq<Seq<char>>,
    now: Instant,
) -> Outcome<ReadyClaimView> {
    let mine = rows::pick(s.tasks, held(statuses, agent, now), order::by_id());
    let next = rows::pick(s.tasks, free(statuses, now), order::by_id());
    if mine >= 0 {
        claim_ready(s, s.tasks[mine], agent, ttl_secs, now)
    } else if next >= 0 {
        claim_ready(s, s.tasks[next], agent, ttl_secs, now)
    } else {
        Outcome { tables: s, result: ReadyClaimView::NoAvailable }
    }
}

/// Renewing the lease on a task whose row is known to be the agent's.
pub open spec fn renew_owned(
    s: StoreView,
    id: Seq<char>,
    path: Seq<char>,
    lease_until: Option<Seq<char>>,
    agent: Seq<char>,
    ttl_secs: u64,
    now: Instant,
) -> Outcome<RenewalView> {
    if clock::lease_runs(lease_until, now) {
        Outcome {
            tables: renewal_recorded(s, id, agent, now, ttl_secs),
            result: RenewalView::Renewed {
                task_id: id,
                task_path: path,
                claimed_by: agent,
                lease_until: clock::lease_end(now, ttl_secs),
            },
        }
    } else {
        Outcome { tables: s, result: RenewalView::Expired }
    }
}

/// Renewing the lease on a given task.
pub open spec fn renew_one(
    s: StoreView,
    id: Seq<char>,
    path: Seq<char>,
    agent: Seq<char>,
    ttl_secs: u64,
    now: Instant,
) -> Outcome<RenewalView> {
    match store::find_task(s.tasks, id) {
        None => Outcome { tables: s, result: RenewalView::NotClaimed },
        Some(t) => match t.claimed_by {
            None => Outcome { tables: s, result: RenewalView::NotClaimed },
            Some(owner) => if owner != agent {
                Outcome {
                    tables: s,
                    result: RenewalView::ClaimedByOther { claimed_by: owner },
                }
            } else {
                renew_owned(s, id, path, t.lease_until, agent, ttl_secs, now)
            },
        },
    }
}

/// The tasks that are noted as claimed by the agent.
pub open spec fn of_agent(agent: Seq<char>) -> spec_fn(TaskView) -> bool {
    |t: TaskView| owned_by(t, agent)
}

/// The task that an agent works on: of those noted as claimed by it, the one
/// with the lease that was written last.
pub open spec fn task_of_agent(s: StoreView, agent: Seq<char>) -> int {
    rows::pick(s.tasks, of_agent(agent), order::by_lease())
}

/// Renewing the lease on the task that an agent works on.
pub open spec fn renew_claimed(
    s: StoreView,
    agent: Seq<char>,
    ttl_secs: u64,
    now: Instant,
) -> Outcome<RenewalView> {
    let k = task_of_agent(s, agent);
    if k < 0 {
        Outcome { tables: s, result: RenewalView::NotClaimed }
    } else {
        let t = s.tasks[k];
        renew_owned(s, t.id, t.path, t.lease_until, agent, ttl_secs, now)
    }
}

/// The statuses of a run that is under way.
pub open spec fn run_active(status: Seq<char>) -> bool {
    status == "running"@ || status == "checking"@ || status == "reviewing"@
}

/// The runs of an agent on a task.
pub open spec fn run_of(agent: Seq<char>, task_id: Seq<char>) -> spec_fn(RunView) -> bool {
    |r: RunView| r.agent == agent && r.task_id == task_id
}

/// The runs of an agent that are under way on a task of the table.
pub open spec fn active_run_on_task(agent: Seq<char>, tasks: Seq<TaskView>) -> spec_fn(
    RunView,
) -> bool {
    |r: RunView|
        r.agent == agent && run_active(r.status) && store::find_task(tasks, r.task_id) is Some
}

/// Where the files of a task's run stand.
pub open spec fn run_dir(task_id: Seq<char>) -> Seq<char> {
    ".ferrus/runs/"@ + task_id
}

/// A task and a run as a context.
pub open spec fn context_of(
    t: TaskView,
    run_id: Option<Seq<char>>,
    workspace_path: Option<Seq<char>>,
) -> ContextView {
    ContextView {
        task_id: t.id,
        task_path: t.path,
        run_dir: run_dir(t.id),
        status: t.status,
        paused_status: t.paused_status,
        check_retries: t.check_retries,
        review_cycles: t.review_cycles,
        failure_reason: t.failure_reason,
        run_id,
        workspace_path,
    }
}

/// What an agent works on: its claimed task with its latest run on it, else the
/// task of its latest run under way.
pub open spec fn agent_context(s: StoreView, agent: Seq<char>) -> Option<ContextView> {
    let k = task_of_agent(s, agent);
    if k >= 0 {
        let t = s.tasks[k];
        let r = rows::pick(s.runs, run_of(agent, t.id), order::by_recency());
        if r >= 0 {
            Some(context_of(t, Some(s.runs[r].id), Some(s.runs[r].workspace_path)))
        } else {
            Some(context_of(t, None, None))
        }
    } else {
        let r = rows::pick(s.runs, active_run_on_task(agent, s.tasks), order::by_recency());
        if r >= 0 {
            Some(
                context_of(
                    store::find_task(s.tasks, s.runs[r].task_id)->0,
                    Some(s.runs[r].id),
                    Some(s.runs[r].workspace_path),
                ),
            )
        } else {
            None
        }
    }
}

/// The contents of an optional context.
pub open spec fn opt_context(value: Option<RuntimeTaskContext>) -> Option<ContextView> {
    match value {
        Some(c) => Some(c@),
        None => None,
    }
}

// ---------------------------------------------------------------- execution

fn change_lease(
    tables: &mut Store,
    i: usize,
    owner: Option<&str>,
    event_type: &str,
    agent_id: &str,
    ttl_secs: u64,
    now: Instant,
) -> (out: Instant)
    requires
        clock::lease_fits(now, ttl_secs),
        i < old(tables).tasks@.len(),
        i == store::task_index(old(tables)@.tasks, old(tables)@.tasks[i as int].id),
        owner is Some ==> owner->0@ == agent_id@,
    ensures
        out == clock::lease_end(now, ttl_secs),
        clock::readable(out) ==> clock::reads_back(out),
        ({
            let id = old(tables)@.tasks[i as int].id;
            final(tables)@ == store::with_event(
                tasks::row_changed(
                    old(tables)@,
                    id,
                    if owner is Some {
                        claimed(agent_id@, now, ttl_secs)
                    } else {
                        renewed(now, ttl_secs)
                    },
                ),
                store::draft(None, event_type@, lease_payload(id, agent_id@, out), now),
            )
        }),
{
    let until: Instant = clock::lease_end_at(now, ttl_secs);
    let mut row: TaskRecord = tables.tasks[i].copy();
    let id: String = row.id.clone();
    if let Some(owner) = owner {
        row.claimed_by = Some(owner.to_owned());
    }
    row.lease_until = Some(clock::timestamp(until));
    row.last_heartbeat = Some(clock::timestamp(now));
    tables.put_task(i, row);
    tables.record(
        None,
        event_type,
        store::payload_of_3(
            store::text_entry("task_id", id.as_str()),
            store::text_entry("claimed_by", agent_id),
            store::text_entry("lease_until", clock::format_rfc3339(until, false).as_str()),
        ),
        now,
    );
    until
}

/// Makes sure that the tables have a row for a task.
pub fn ensure_task_exists(tables: &mut Store, task_id: &str, task_path: &str) -> (out: usize)
    ensures
        final(tables)@ == task_ensured(old(tables)@, task_id@, task_path@),
        out < final(tables).tasks@.len(),
        out == store::task_index(final(tables)@.tasks, task_id@),
        final(tables).tasks@[out as int].id@ == task_id@,
{
    match tables.task_position(task_id) {
        Some(i) => i,
        None => {
            let i: usize = tables.tasks.len();
            tables.push_task(store::new_task(task_id, task_path, "unknown"));
            proof {
                let before = store::task_ids(old(tables)@.tasks);
                let after = store::task_ids(tables@.tasks);
                text::lemma_index_of(before, task_id@);
                assert(after =~= before.push(task_id@));
                text::lemma_index_of_unique(after, task_id@, i as int);
            }
            i
        },
    }
}

/// Claims one task, whatever its status.
pub fn claim_task(
    tables: &mut Store,
    task_id: &str,
    task_path: &str,
    agent_id: &str,
    ttl_secs: u64,
    now: Instant,
) -> (out: TaskClaim)
    requires
        clock::lease_fits(now, ttl_secs),
    ensures
        ({
            let expected = claim_one(
                old(tables)@,
                task_id@,
                task_path@,
                agent_id@,
                ttl_secs,
                now,
            );
            final(tables)@ == expected.tables && out@ == expected.result
        }),
        out is Claimed && clock::readable(clock::lease_end(now, ttl_secs)) ==> clock::reads_back(
            clock::lease_end(now, ttl_secs),
        ),
{
    let i: usize = ensure_task_exists(tables, task_id, task_path);
    match clock::running_lease(&tables.tasks[i].lease_until, now) {
        Some(until) => {
            if text::opt_is(&tables.tasks[i].claimed_by, agent_id) {
                return TaskClaim::AlreadyClaimed {
                    claimed_by: agent_id.to_owned(),
                    lease_until: until,
                };
            }
            let claimed_by: String = match &tables.tasks[i].claimed_by {
                Some(other) => other.clone(),
                None => "unknown".to_owned(),
            };
            TaskClaim::ClaimedByOther { claimed_by }
        },
        None => {
            let lease_until: Instant = change_lease(
                tables,
                i,
                Some(agent_id),
                "task_claimed",
                agent_id,
                ttl_secs,
                now,
            );
            TaskClaim::Claimed { claimed_by: agent_id.to_owned(), lease_until }
        },
    }
}

/// Claims the task under way.
pub fn claim_current_task(
    tables: &mut Store,
    known: Option<&StateData>,
    agent_id: &str,
    ttl_secs: u64,
    now: Instant,
) -> (out: TaskClaim)
    requires
        clock::lease_fits(now, ttl_secs),
    ensures
        ({
            let expected = claim_one(
                old(tables)@,
                tasks::current_id(tasks::opt_state(known)),
                tasks::current_path(tasks::opt_state(known)),
                agent_id@,
                ttl_secs,
                now,
            );
            final(tables)@ == expected.tables && out@ == expected.result
        }),
        out is Claimed && clock::readable(clock::lease_end(now, ttl_secs)) ==> clock::reads_back(
            clock::lease_end(now, ttl_secs),
        ),
{
    let (id, path): (String, String) = tasks::current_task_identity(known);
    claim_task(tables, id.as_str(), path.as_str(), agent_id, ttl_secs, now)
}

fn lease_of(t: &TaskRecord, agent_id: &str, lease_until: Instant) -> (out: TaskLease)
    ensures
        out@ == lease_on(t@, agent_id@, lease_until),
{
    TaskLease {
        task_id: t.id.clone(),
        task_path: t.path.clone(),
        status: t.status.clone(),
        paused_status: text::opt_clone(&t.paused_status),
        check_retries: t.check_retries,
        review_cycles: t.review_cycles,
        failure_reason: text::opt_clone(&t.failure_reason),
        claimed_by: agent_id.to_owned(),
        lease_until,
    }
}

fn claim_ready_at(
    tables: &mut Store,
    i: usize,
    agent_id: &str,
    ttl_secs: u64,
    now: Instant,
) -> (out: ReadyTaskClaim)
    requires
        clock::lease_fits(now, ttl_secs),
        i < old(tables).tasks@.len(),
        i == store::task_index(old(tables)@.tasks, old(tables)@.tasks[i as int].id),
    ensures
        ({
            let expected = claim_ready(
                old(tables)@,
                old(tables)@.tasks[i as int],
                agent_id@,
                ttl_secs,
                now,
            );
            final(tables)@ == expected.tables && out@ == expected.result
        }),
        out is Claimed && clock::readable(clock::lease_end(now, ttl_secs)) ==> clock::reads_back(
            clock::lease_end(now, ttl_secs),
        ),
{
    match clock::running_lease(&tables.tasks[i].lease_until, now) {
        Some(until) => {
            if text::opt_is(&tables.tasks[i].claimed_by, agent_id) {
                ReadyTaskClaim::AlreadyClaimed(lease_of(&tables.tasks[i], agent_id, until))
            } else {
                ReadyTaskClaim::NoAvailable
            }
        },
        None => {
            let lease: TaskLease = lease_of(
                &tables.tasks[i],
                agent_id,
                clock::lease_end_at(now, ttl_secs),
            );
            change_lease(tables, i, Some(agent_id), "task_claimed", agent_id, ttl_secs, now);
            ReadyTaskClaim::Claimed(lease)
        },
    }
}

/// Claims a task by its id, if its status is among the allowed ones.
pub fn claim_task_by_id_with_statuses(
    tables: &mut Store,
    task_id: &str,
    agent_id: &str,
    ttl_secs: u64,
    allowed_statuses: &Vec<String>,
    promote_pending: bool,
    now: Instant,
) -> (out: ReadyTaskClaim)
    requires
        clock::lease_fits(now, ttl_secs),
    ensures
        ({
            let expected = claim_by_id(
                old(tables)@,
                task_id@,
                agent_id@,
                ttl_secs,
                text::views(allowed_statuses@),
                promote_pending,
                now,
            );
            final(tables)@ == expected.tables && out@ == expected.result
        }),
        out is Claimed && clock::readable(clock::lease_end(now, ttl_secs)) ==> clock::reads_back(
            clock::lease_end(now, ttl_secs),
        ),
{
    let i: usize = match tables.task_position(task_id) {
        Some(i) => i,
        None => {
            return ReadyTaskClaim::NoAvailable;
        },
    };
    if !text::list_contains(allowed_statuses, tables.tasks[i].status.as_str()) {
        return ReadyTaskClaim::NoAvailable;
    }
    if promote_pending && text::same(tables.tasks[i].status.as_str(), "pending") {
        let mut row: TaskRecord = tables.tasks[i].copy();
        let previous: String = row.status.clone();
        row.status = "executing".to_owned();
        row.paused_status = None;
        tables.put_task(i, row);
        tables.record(
            None,
            "task_scheduled",
            store::payload_of_4(
                store::text_entry("task_id", task_id),
                store::text_entry("previous_status", previous.as_str()),
                store::text_entry("status", "executing"),
                store::text_entry("scheduled_at", clock::timestamp(now).as_str()),
            ),
            now,
        );
        proof {
            let before = old(tables)@.tasks;
            store::lemma_set_task(before, task_id@, scheduled()(before[i as int]));
        }
    }
    claim_ready_at(tables, i, agent_id, ttl_secs, now)
}

/// The position of the first task by id in one of the statuses: one that the
/// agent holds, or one that nobody holds.
fn first_candidate(
    tables: &Store,
    statuses: &Vec<String>,
    holder: Option<&str>,
    now: Instant,
) -> (out: Option<usize>)
    ensures
        order::at_or_none(out) == rows::pick(
            tables@.tasks,
            match holder {
                Some(agent) => held(text::views(statuses@), agent@, now),
                None => free(text::views(statuses@), now),
            },
            order::by_id(),
        ),
        out is Some ==> out->0 < tables.tasks@.len(),
{
    let ghost all = tables@.tasks;
    let ghost wanted = match holder {
        Some(agent) => held(text::views(statuses@), agent@, now),
        None => free(text::views(statuses@), now),
    };
    let mut best: Option<usize> = None;
    let mut i: usize = 0;
    while i < tables.tasks.len()
        invariant
            i <= tables.tasks@.len(),
            all == tables@.tasks,
            wanted == (match holder {
                Some(agent) => held(text::views(statuses@), agent@, now),
                None => free(text::views(statuses@), now),
            }),
            order::at_or_none(best) == rows::pick(all.take(i as int), wanted, order::by_id()),
            best is Some ==> best->0 < i,
        decreases tables.tasks@.len() - i,
    {
        proof {
            order::lemma_pick_next(all, i as int, wanted, order::by_id());
        }
        let t: &TaskRecord = &tables.tasks[i];
        assert(all[i as int] == t@);
        let running: bool = clock::running_lease(&t.lease_until, now).is_some();
        let fits: bool = text::list_contains(statuses, t.status.as_str()) && (match holder {
            Some(agent) => running && text::opt_is(&t.claimed_by, agent),
            None => !running,
        });
        assert(fits == wanted(all[i as int]));
        if fits {
            let better: bool = match best {
                Some(b) => {
                    assert(all[b as int] == tables.tasks@[b as int]@);
                    text::text_less(t.id.as_str(), tables.tasks[b].id.as_str())
                },
                None => true,
            };
            if better {
                best = Some(i);
            }
        }
        i = i + 1;
    }
    assert(all.take(i as int) =~= all);
    best
}

/// Claims the next task in one of the statuses.
pub fn claim_next_task_with_statuses(
    tables: &mut Store,
    agent_id: &str,
    ttl_secs: u64,
    statuses: &Vec<String>,
    now: Instant,
) -> (out: ReadyTaskClaim)
    requires
        clock::lease_fits(now, ttl_secs),
        store::keyed(old(tables)@),
    ensures
        ({
            let expected = claim_next(
                old(tables)@,
                agent_id@,
                ttl_secs,
                text::views(statuses@),
                now,
            );
            final(tables)@ == expected.tables && out@ == expected.result
        }),
        out is Claimed && clock::readable(clock::lease_end(now, ttl_secs)) ==> clock::reads_back(
            clock::lease_end(now, ttl_secs),
        ),
{
    let chosen: Option<usize> = match first_candidate(tables, statuses, Some(agent_id), now) {
        Some(i) => Some(i),
        None => first_candidate(tables, statuses, None, now),
    };
    match chosen {
        Some(i) => {
            proof {
                lemma_keyed_index(tables@, i as int);
            }
            claim_ready_at(tables, i, agent_id, ttl_secs, now)
        },
        None => ReadyTaskClaim::NoAvailable,
    }
}

/// In keyed tables a task is found where it stands.
pub proof fn lemma_keyed_index(s: StoreView, i: int)
    requires
        store::keyed(s),
        0 <= i < s.tasks.len(),
    ensures
        store::task_index(s.tasks, s.tasks[i].id) == i,
{
    let ids = store::task_ids(s.tasks);
    assert(ids[i] == s.tasks[i].id);
    assert forall|k: int| 0 <= k < i implies #[trigger] ids[k] != s.tasks[i].id by {
        assert(ids[k] != ids[i]);
    }
    text::lemma_index_of_unique(ids, s.tasks[i].id, i);
}

fn statuses_of_2(a: &str, b: &str) -> (out: Vec<String>)
    ensures
        text::views(out@) == seq![a@, b@],
{
    let mut out: Vec<String> = Vec::new();
    out.push(a.to_owned());
    out.push(b.to_owned());
    assert(text::views(out@) =~= seq![a@, b@]);
    out
}

fn statuses_of_1(a: &str) -> (out: Vec<String>)
    ensures
        text::views(out@) == seq![a@],
{
    let mut out: Vec<String> = Vec::new();
    out.push(a.to_owned());
    assert(text::views(out@) =~= seq![a@]);
    out
}

/// Claims the next task that waits for an executor.
pub fn claim_next_ready_task(tables: &mut Store, agent_id: &str, ttl_secs: u64, now: Instant) -> (out:
    ReadyTaskClaim)
    requires
        clock::lease_fits(now, ttl_secs),
        store::keyed(old(tables)@),
    ensures
        ({
            let expected = claim_next(
                old(tables)@,
                agent_id@,
                ttl_secs,
                seq!["executing"@, "addressing"@],
                now,
            );
            final(tables)@ == expected.tables && out@ == expected.result
        }),
        out is Claimed && clock::readable(clock::lease_end(now, ttl_secs)) ==> clock::reads_back(
            clock::lease_end(now, ttl_secs),
        ),
{
    claim_next_task_with_statuses(
        tables,
        agent_id,
        ttl_secs,
        &statuses_of_2("executing", "addressing"),
        now,
    )
}

/// Claims the next task that waits for a review.
pub fn claim_next_review_task(tables: &mut Store, agent_id: &str, ttl_secs: u64, now: Instant) -> (out:
    ReadyTaskClaim)
    requires
        clock::lease_fits(now, ttl_secs),
        store::keyed(old(tables)@),
    ensures
        ({
            let expected = claim_next(old(tables)@, agent_id@, ttl_secs, seq!["reviewing"@], now);
            final(tables)@ == expected.tables && out@ == expected.result
        }),
        out is Claimed && clock::readable(clock::lease_end(now, ttl_secs)) ==> clock::reads_back(
            clock::lease_end(now, ttl_secs),
        ),
{
    claim_next_task_with_statuses(tables, agent_id, ttl_secs, &statuses_of_1("reviewing"), now)
}

/// Claims a given task that waits for an executor; a pending one is scheduled.
pub fn claim_ready_task_by_id(
    tables: &mut Store,
    task_id: &str,
    agent_id: &str,
    ttl_secs: u64,
    now: Instant,
) -> (out: ReadyTaskClaim)
    requires
        clock::lease_fits(now, ttl_secs),
    ensures
        ({
            let expected = claim_by_id(
                old(tables)@,
                task_id@,
                agent_id@,
                ttl_secs,
                seq!["pending"@, "executing"@, "addressing"@],
                true,
                now,
            );
            final(tables)@ == expected.tables && out@ == expected.result
        }),
        out is Claimed && clock::readable(clock::lease_end(now, ttl_secs)) ==> clock::reads_back(
            clock::lease_end(now, ttl_secs),
        ),
{
    let mut allowed: Vec<String> = Vec::new();
    allowed.push("pending".to_owned());
    allowed.push("executing".to_owned());
    allowed.push("addressing".to_owned());
    assert(text::views(allowed@) =~= seq!["pending"@, "executing"@, "addressing"@]);
    claim_task_by_id_with_statuses(tables, task_id, agent_id, ttl_secs, &allowed, true, now)
}

/// Claims a given task that waits for a review.
pub fn claim_review_task_by_id(
    tables: &mut Store,
    task_id: &str,
    agent_id: &str,
    ttl_secs: u64,
    now: Instant,
) -> (out: ReadyTaskClaim)
    requires
        clock::lease_fits(now, ttl_secs),
    ensures
        ({
            let expected = claim_by_id(
                old(tables)@,
                task_id@,
                agent_id@,
                ttl_secs,
                seq!["reviewing"@],
                false,
                now,
            );
            final(tables)@ == expected.tables && out@ == expected.result
        }),
        out is Claimed && clock::readable(clock::lease_end(now, ttl_secs)) ==> clock::reads_back(
            clock::lease_end(now, ttl_secs),
        ),
{
    claim_task_by_id_with_statuses(
        tables,
        task_id,
        agent_id,
        ttl_secs,
        &statuses_of_1("reviewing"),
        false,
        now,
    )
}

fn renew_owned_at(
    tables: &mut Store,
    i: usize,
    task_path: &str,
    agent_id: &str,
    ttl_secs: u64,
    now: Instant,
) -> (out: LeaseRenewal)
    requires
        clock::lease_fits(now, ttl_secs),
        i < old(tables).tasks@.len(),
        i == store::task_index(old(tables)@.tasks, old(tables)@.tasks[i as int].id),
    ensures
        ({
            let t = old(tables)@.tasks[i as int];
            let expected = renew_owned(
                old(tables)@,
                t.id,
                task_path@,
                t.lease_until,
                agent_id@,
                ttl_secs,
                now,
            );
            final(tables)@ == expected.tables && out@ == expected.result
        }),
        out is Renewed && clock::readable(clock::lease_end(now, ttl_secs)) ==> clock::reads_back(
            clock::lease_end(now, ttl_secs),
        ),
{
    if clock::running_lease(&tables.tasks[i].lease_until, now).is_none() {
        return LeaseRenewal::Expired;
    }
    let task_id: String = tables.tasks[i].id.clone();
    let lease_until: Instant = change_lease(
        tables,
        i,
        None,
        "task_lease_renewed",
        agent_id,
        ttl_secs,
        now,
    );
    LeaseRenewal::Renewed {
        task_id,
        task_path: task_path.to_owned(),
        claimed_by: agent_id.to_owned(),
        lease_until,
    }
}

/// Renews an agent's lease on the task under way.
pub fn renew_current_task_lease(
    tables: &mut Store,
    known: Option<&StateData>,
    agent_id: &str,
    ttl_secs: u64,
    now: Instant,
) -> (out: LeaseRenewal)
    requires
        clock::lease_fits(now, ttl_secs),
    ensures
        ({
            let expected = renew_one(
                old(tables)@,
                tasks::current_id(tasks::opt_state(known)),
                tasks::current_path(tasks::opt_state(known)),
                agent_id@,
                ttl_secs,
                now,
            );
            final(tables)@ == expected.tables && out@ == expected.result
        }),
        out is Renewed && clock::readable(clock::lease_end(now, ttl_secs)) ==> clock::reads_back(
            clock::lease_end(now, ttl_secs),
        ),
{
    let (id, path): (String, String) = tasks::current_task_identity(known);
    let i: usize = match tables.task_position(id.as_str()) {
        Some(i) => i,
        None => {
            return LeaseRenewal::NotClaimed;
        },
    };
    match &tables.tasks[i].claimed_by {
        None => {
            return LeaseRenewal::NotClaimed;
        },
        Some(owner) => {
            if !text::same(owner.as_str(), agent_id) {
                return LeaseRenewal::ClaimedByOther { claimed_by: owner.clone() };
            }
        },
    }
    renew_owned_at(tables, i, path.as_str(), agent_id, ttl_secs, now)
}

fn position_of_agent(tables: &Store, agent_id: &str) -> (out: Option<usize>)
    ensures
        order::at_or_none(out) == task_of_agent(tables@, agent_id@),
        out is Some ==> out->0 < tables.tasks@.len(),
{
    let ghost all = tables@.tasks;
    let ghost wanted = of_agent(agent_id@);
    let mut best: Option<usize> = None;
    let mut i: usize = 0;
    while i < tables.tasks.len()
        invariant
            i <= tables.tasks@.len(),
            all == tables@.tasks,
            wanted == of_agent(agent_id@),
            order::at_or_none(best) == rows::pick(all.take(i as int), wanted, order::by_lease()),
            best is Some ==> best->0 < i,
        decreases tables.tasks@.len() - i,
    {
        proof {
            order::lemma_pick_next(all, i as int, wanted, order::by_lease());
        }
        assert(all[i as int] == tables.tasks@[i as int]@);
        let fits: bool = text::opt_is(&tables.tasks[i].claimed_by, agent_id);
        assert(fits == wanted(all[i as int]));
        if fits {
            let better: bool = match best {
                Some(b) => order::lease_before(&tables.tasks[i], &tables.tasks[b]),
                None => true,
            };
            if better {
                best = Some(i);
            }
        }
        i = i + 1;
    }
    assert(all.take(i as int) =~= all);
    best
}

/// Renews the lease on the task that an agent works on.
pub fn renew_claimed_task_lease(
    tables: &mut Store,
    agent_id: &str,
    ttl_secs: u64,
    now: Instant,
) -> (out: LeaseRenewal)
    requires
        clock::lease_fits(now, ttl_secs),
        store::keyed(old(tables)@),
    ensures
        ({
            let expected = renew_claimed(old(tables)@, agent_id@, ttl_secs, now);
            final(tables)@ == expected.tables && out@ == expected.result
        }),
        out is Renewed && clock::readable(clock::lease_end(now, ttl_secs)) ==> clock::reads_back(
            clock::lease_end(now, ttl_secs),
        ),
{
    match position_of_agent(tables, agent_id) {
        Some(i) => {
            let path: String = tables.tasks[i].path.clone();
            proof {
                lemma_keyed_index(tables@, i as int);
            }
            renew_owned_at(tables, i, path.as_str(), agent_id, ttl_secs, now)
        },
        None => LeaseRenewal::NotClaimed,
    }
}

/// Whether a run in this status is under way.
pub fn is_run_active(status: &str) -> (out: bool)
    ensures
        out == run_active(status@),
{
    text::same(status, "running") || text::same(status, "checking") || text::same(
        status,
        "reviewing",
    )
}

/// Where the files of a task's run stand.
pub fn run_dir_for_task(task_id: &str) -> (out: String)
    ensures
        out@ == run_dir(task_id@),
{
    let mut out: String = ".ferrus/runs/".to_owned();
    out.append(task_id);
    out
}

/// A task and a run as a context.
pub fn context_for(
    t: &TaskRecord,
    run_id: Option<String>,
    workspace_path: Option<String>,
) -> (out: RuntimeTaskContext)
    ensures
        out@ == context_of(t@, text::opt_view(run_id), text::opt_view(workspace_path)),
{
    RuntimeTaskContext {
        task_id: t.id.clone(),
        task_path: t.path.clone(),
        run_dir: run_dir_for_task(t.id.as_str()),
        status: t.status.clone(),
        paused_status: text::opt_clone(&t.paused_status),
        check_retries: t.check_retries,
        review_cycles: t.review_cycles,
        failure_reason: text::opt_clone(&t.failure_reason),
        run_id,
        workspace_path,
    }
}

fn latest_run_for_agent_task(tables: &Store, agent_id: &str, task_id: &str) -> (out: Option<usize>)
    ensures
        order::at_or_none(out) == rows::pick(
            tables@.runs,
            run_of(agent_id@, task_id@),
            order::by_recency(),
        ),
        out is Some ==> out->0 < tables.runs@.len(),
{
    let ghost all = tables@.runs;
    let ghost wanted = run_of(agent_id@, task_id@);
    let mut best: Option<usize> = None;
    let mut i: usize = 0;
    while i < tables.runs.len()
        invariant
            i <= tables.runs@.len(),
            all == tables@.runs,
            wanted == run_of(agent_id@, task_id@),
            order::at_or_none(best) == rows::pick(all.take(i as int), wanted, order::by_recency()),
            best is Some ==> best->0 < i,
        decreases tables.runs@.len() - i,
    {
        proof {
            order::lemma_pick_next(all, i as int, wanted, order::by_recency());
        }
        assert(all[i as int] == tables.runs@[i as int]@);
        let fits: bool = text::same(tables.runs[i].agent.as_str(), agent_id) && text::same(
            tables.runs[i].task_id.as_str(),
            task_id,
        );
        assert(fits == wanted(all[i as int]));
        if fits {
            let better: bool = match best {
                Some(b) => order::more_recent(&tables.runs[i], &tables.runs[b]),
                None => true,
            };
            if better {
                best = Some(i);
            }
        }
        i = i + 1;
    }
    assert(all.take(i as int) =~= all);
    best
}

fn latest_active_run_on_task(tables: &Store, agent_id: &str) -> (out: Option<usize>)
    ensures
        order::at_or_none(out) == rows::pick(
            tables@.runs,
            active_run_on_task(agent_id@, tables@.tasks),
            order::by_recency(),
        ),
        out is Some ==> out->0 < tables.runs@.len(),
{
    let ghost all = tables@.runs;
    let ghost wanted = active_run_on_task(agent_id@, tables@.tasks);
    let mut best: Option<usize> = None;
    let mut i: usize = 0;
    while i < tables.runs.len()
        invariant
            i <= tables.runs@.len(),
            all == tables@.runs,
            wanted == active_run_on_task(agent_id@, tables@.tasks),
            order::at_or_none(best) == rows::pick(all.take(i as int), wanted, order::by_recency()),
            best is Some ==> best->0 < i,
        decreases tables.runs@.len() - i,
    {
        proof {
            order::lemma_pick_next(all, i as int, wanted, order::by_recency());
        }
        let r: &RunRecord = &tables.runs[i];
        assert(all[i as int] == r@);
        let fits: bool = text::same(r.agent.as_str(), agent_id) && is_run_active(
            r.status.as_str(),
        ) && tables.task_position(r.task_id.as_str()).is_some();
        assert(fits == wanted(all[i as int]));
        if fits {
            let better: bool = match best {
                Some(b) => order::more_recent(&tables.runs[i], &tables.runs[b]),
                None => true,
            };
            if better {
                best = Some(i);
            }
        }
        i = i + 1;
    }
    assert(all.take(i as int) =~= all);
    best
}

/// What an agent works on.
pub fn runtime_task_context_for_agent(tables: &Store, agent_id: &str) -> (out: Option<
    RuntimeTaskContext,
>)
    ensures
        opt_context(out) == agent_context(tables@, agent_id@),
{
    if let Some(i) = position_of_agent(tables, agent_id) {
        let t: &TaskRecord = &tables.tasks[i];
        assert(tables@.tasks[i as int] == t@);
        return match latest_run_for_agent_task(tables, agent_id, t.id.as_str()) {
            Some(r) => Some(
                context_for(
                    t,
                    Some(tables.runs[r].id.clone()),
                    Some(tables.runs[r].workspace_path.clone()),
                ),
            ),
            None => Some(context_for(t, None, None)),
        };
    }
    match latest_active_run_on_task(tables, agent_id) {
        Some(r) => {
            proof {
                order::lemma_by_recency();
                rows::lemma_pick(
                    tables@.runs,
                    active_run_on_task(agent_id@, tables@.tasks),
                    order::by_recency(),
                );
            }
            match tables.task_position(tables.runs[r].task_id.as_str()) {
                Some(i) => Some(
                    context_for(
                        &tables.tasks[i],
                        Some(tables.runs[r].id.clone()),
                        Some(tables.runs[r].workspace_path.clone()),
                    ),
                ),
                None => None,
            }
        },
        None => None,
    }
}

// -------------------------------------------------------------------- laws

proof fn lemma_row_of(s: StoreView, id: Seq<char>)
    ensures
        store::find_task(s.tasks, id) is Some ==> store::find_task(s.tasks, id)->0.id == id,
{
    let ids = store::task_ids(s.tasks);
    text::lemma_index_of(ids, id);
    if store::find_task(s.tasks, id) is Some {
        assert(ids[store::task_index(s.tasks, id)] == s.tasks[store::task_index(s.tasks, id)].id);
    }
}

/// A running lease is never taken over: while another agent's lease on a task
/// runs, a claim of the task is refused, names the other agent, and leaves the
/// tables as they are.
pub proof fn law_running_lease_is_exclusive(
    s: StoreView,
    id: Seq<char>,
    path: Seq<char>,
    agent: Seq<char>,
    ttl_secs: u64,
    now: Instant,
)
    requires
        store::find_task(s.tasks, id) is Some,
        leased(store::find_task(s.tasks, id)->0, now),
        !owned_by(store::find_task(s.tasks, id)->0, agent),
    ensures
        ({
            let outcome = claim_one(s, id, path, agent, ttl_secs, now);
            let t = store::find_task(s.tasks, id)->0;
            &&& outcome.tables == s
            &&& outcome.result is ClaimedByOther
            &&& t.claimed_by is Some ==> outcome.result->ClaimedByOther_claimed_by
                == t.claimed_by->0
        }),
{
}

/// Whatever is claimed as the next task, no running lease of another agent
/// changes.
pub proof fn law_next_claim_respects_leases(
    s: StoreView,
    agent: Seq<char>,
    ttl_secs: u64,
    statuses: Seq<Seq<char>>,
    now: Instant,
    id: Seq<char>,
)
    requires
        store::keyed(s),
        store::find_task(s.tasks, id) is Some,
        leased(store::find_task(s.tasks, id)->0, now),
    ensures
        store::find_task(claim_next(s, agent, ttl_secs, statuses, now).tables.tasks, id)
            == store::find_task(s.tasks, id),
{
    order::lemma_by_id();
    rows::lemma_pick(s.tasks, held(statuses, agent, now), order::by_id());
    rows::lemma_pick(s.tasks, free(statuses, now), order::by_id());
    let mine = rows::pick(s.tasks, held(statuses, agent, now), order::by_id());
    let next = rows::pick(s.tasks, free(statuses, now), order::by_id());
    lemma_row_of(s, id);
    if mine < 0 && next >= 0 {
        let t = s.tasks[next];
        lemma_keyed_index(s, next);
        assert(!leased(t, now));
        assert(t.id != id);
        tasks::law_row_change_is_local(s, t.id, claimed(agent, now, ttl_secs));
    }
}

/// The next task is the first by id: where the agent holds a task in one of the
/// statuses it gets the first of those back, else it gets the first that nobody
/// holds, and nothing only where there is neither.
pub proof fn law_next_claim_is_first(
    s: StoreView,
    agent: Seq<char>,
    ttl_secs: u64,
    statuses: Seq<Seq<char>>,
    now: Instant,
)
    ensures
        ({
            let result = claim_next(s, agent, ttl_secs, statuses, now).result;
            match result {
                ReadyClaimView::AlreadyClaimed(lease) => forall|i: int|
                    0 <= i < s.tasks.len() && held(statuses, agent, now)(#[trigger] s.tasks[i])
                        ==> text::text_le(lease.task_id, s.tasks[i].id),
                ReadyClaimView::Claimed(lease) => {
                    &&& forall|i: int|
                        0 <= i < s.tasks.len() ==> !held(statuses, agent, now)(
                            #[trigger] s.tasks[i],
                        )
                    &&& forall|i: int|
                        0 <= i < s.tasks.len() && free(statuses, now)(#[trigger] s.tasks[i])
                            ==> text::text_le(lease.task_id, s.tasks[i].id)
                },
                ReadyClaimView::NoAvailable => forall|i: int|
                    0 <= i < s.tasks.len() ==> !held(statuses, agent, now)(#[trigger] s.tasks[i])
                        && !free(statuses, now)(s.tasks[i]),
            }
        }),
{
    order::lemma_by_id();
    rows::lemma_pick(s.tasks, held(statuses, agent, now), order::by_id());
    rows::lemma_pick(s.tasks, free(statuses, now), order::by_id());
}

/// A claim holds: the task is the agent's until the lease has run out. In that
/// time the agent that claims again keeps its lease, and any other agent is
/// refused.
pub proof fn law_claim_holds(
    s: StoreView,
    id: Seq<char>,
    path: Seq<char>,
    agent: Seq<char>,
    other: Seq<char>,
    ttl_secs: u64,
    now: Instant,
    later: Instant,
)
    requires
        store::keyed(s),
        claim_one(s, id, path, agent, ttl_secs, now).result is Claimed,
        clock::reads_back(clock::lease_end(now, ttl_secs)),
        later.secs < clock::lease_end(now, ttl_secs).secs,
        other != agent,
    ensures
        ({
            let after = claim_one(s, id, path, agent, ttl_secs, now).tables;
            let t = store::find_task(after.tasks, id)->0;
            &&& owned_by(t, agent) && leased(t, later)
            &&& claim_one(after, id, path, agent, ttl_secs, later).result is AlreadyClaimed
            &&& claim_one(after, id, path, agent, ttl_secs, later).tables == after
            &&& claim_one(after, id, path, other, ttl_secs, later).result
                == TaskClaimView::ClaimedByOther { claimed_by: agent }
            &&& claim_one(after, id, path, other, ttl_secs, later).tables == after
        }),
{
    let known = task_ensured(s, id, path);
    if store::find_task(s.tasks, id) is None {
        store::lemma_push_task(s.tasks, store::fresh_task(id, path, "unknown"@));
    }
    lemma_row_of(known, id);
    tasks::law_row_change_is_local(known, id, claimed(agent, now, ttl_secs));
}

/// Only the owner of a running lease renews it: a renewal of the task under way
/// succeeds exactly if the task is noted as the agent's and its lease still
/// runs; otherwise the tables stay as they are.
pub proof fn law_only_owner_renews(
    s: StoreView,
    id: Seq<char>,
    path: Seq<char>,
    agent: Seq<char>,
    ttl_secs: u64,
    now: Instant,
)
    ensures
        ({
            let outcome = renew_one(s, id, path, agent, ttl_secs, now);
            let row = store::find_task(s.tasks, id);
            &&& outcome.result is Renewed <==> row is Some && owned_by(row->0, agent) && leased(
                row->0,
                now,
            )
            &&& !(outcome.result is Renewed) ==> outcome.tables == s
            &&& outcome.result is Expired <==> row is Some && owned_by(row->0, agent) && !leased(
                row->0,
                now,
            )
            &&& outcome.result is NotClaimed <==> row is None || row->0.claimed_by is None
        }),
{
}

/// A renewed lease runs on: the task stays the agent's until the new end.
pub proof fn law_renewal_extends_lease(
    s: StoreView,
    id: Seq<char>,
    path: Seq<char>,
    agent: Seq<char>,
    ttl_secs: u64,
    now: Instant,
    later: Instant,
)
    requires
        store::keyed(s),
        renew_one(s, id, path, agent, ttl_secs, now).result is Renewed,
        clock::reads_back(clock::lease_end(now, ttl_secs)),
        later.secs < clock::lease_end(now, ttl_secs).secs,
    ensures
        ({
            let after = renew_one(s, id, path, agent, ttl_secs, now).tables;
            let t = store::find_task(after.tasks, id)->0;
            owned_by(t, agent) && leased(t, later)
        }),
{
    lemma_row_of(s, id);
    tasks::law_row_change_is_local(s, id, renewed(now, ttl_secs));
}

/// An agent that starts again finds its work: of the tasks that are noted as its
/// own it gets the one with the lease that was written last, as far as that task
/// has come, and the only one where there is no other.
pub proof fn law_agent_finds_its_task(s: StoreView, agent: Seq<char>, i: int)
    requires
        0 <= i < s.tasks.len(),
        owned_by(s.tasks[i], agent),
    ensures
        ({
            let k = task_of_agent(s, agent);
            let t = s.tasks[k];
            &&& 0 <= k < s.tasks.len() && owned_by(t, agent)
            &&& !order::lease_precedes(s.tasks[i], t)
            &&& agent_context(s, agent) matches Some(found) && found.task_id == t.id
                && found.task_path == t.path && found.status == t.status
                && found.paused_status == t.paused_status && found.check_retries
                == t.check_retries && found.review_cycles == t.review_cycles
                && found.failure_reason == t.failure_reason
            &&& (forall|j: int|
                0 <= j < s.tasks.len() && owned_by(#[trigger] s.tasks[j], agent) ==> j == i)
                ==> k == i
        }),
{
    order::lemma_by_lease();
    rows::lemma_pick(s.tasks, of_agent(agent), order::by_lease());
    assert(of_agent(agent)(s.tasks[i]));
}

/// Claims and renewals keep the tables keyed and every run.
pub proof fn law_claims_keep_tables(
    s: StoreView,
    id: Seq<char>,
    path: Seq<char>,
    agent: Seq<char>,
    ttl_secs: u64,
    statuses: Seq<Seq<char>>,
    promote: bool,
    now: Instant,
)
    requires
        store::keyed(s),
    ensures
        store::keyed(claim_one(s, id, path, agent, ttl_secs, now).tables),
        store::keyed(claim_by_id(s, id, agent, ttl_secs, statuses, promote, now).tables),
        store::keyed(claim_next(s, agent, ttl_secs, statuses, now).tables),
        store::keyed(renew_one(s, id, path, agent, ttl_secs, now).tables),
        claim_one(s, id, path, agent, ttl_secs, now).tables.runs == s.runs,
        claim_by_id(s, id, agent, ttl_secs, statuses, promote, now).tables.runs == s.runs,
        claim_next(s, agent, ttl_secs, statuses, now).tables.runs == s.runs,
        renew_one(s, id, path, agent, ttl_secs, now).tables.runs == s.runs,
{
    let known = task_ensured(s, id, path);
    if store::find_task(s.tasks, id) is None {
        store::lemma_push_task(s.tasks, store::fresh_task(id, path, "unknown"@));
    }
    tasks::law_row_change_is_local(known, id, claimed(agent, now, ttl_secs));
    tasks::law_row_change_is_local(s, id, claimed(agent, now, ttl_secs));
    tasks::law_row_change_is_local(s, id, renewed(now, ttl_secs));
    tasks::law_row_change_is_local(s, id, scheduled());
    lemma_row_of(s, id);
    if let Some(t) = store::find_task(s.tasks, id) {
        let promoted = scheduling_recorded(s, t, now);
        assert(store::keyed(promoted));
        tasks::law_row_change_is_local(promoted, id, claimed(agent, now, ttl_secs));
    }
    let next = rows::pick(s.tasks, free(statuses, now), order::by_id());
    let mine = rows::pick(s.tasks, held(statuses, agent, now), order::by_id());
    if next >= 0 {
        tasks::law_row_change_is_local(s, s.tasks[next].id, claimed(agent, now, ttl_secs));
    }
    if mine >= 0 {
        tasks::law_row_change_is_local(s, s.tasks[mine].id, claimed(agent, now, ttl_secs));
    }
}

/// One row is all that changed in the tables, besides new events.
pub open spec fn row_alone(before: StoreView, after: StoreView, i: int, row: TaskView) -> bool {
    &&& after.tasks == before.tasks.update(i, row)
    &&& after.runs == before.runs
    &&& before.events.is_prefix_of(after.events)
}

/// The row of a task whose lease an agent has had written now.
pub open spec fn written(t: TaskView, agent: Seq<char>, now: Instant, end: Instant) -> TaskView {
    TaskView {
        claimed_by: Some(agent),
        lease_until: Some(clock::rfc3339_text(end.secs, end.nanos, true)),
        last_heartbeat: Some(clock::rfc3339_text(now.secs, now.nanos, true)),
        ..t
    }
}

/// The event that tells of a lease: of which task, of whom and until when.
pub open spec fn lease_event(
    kind: Seq<char>,
    id: Seq<char>,
    agent: Seq<char>,
    end: Instant,
    now: Instant,
) -> store::DraftView {
    store::draft(
        None,
        kind,
        seq![
            store::text_item("task_id"@, id),
            store::text_item("claimed_by"@, agent),
            store::text_item("lease_until"@, clock::rfc3339_text(end.secs, end.nanos, false)),
        ],
        now,
    )
}

/// A lease tells of the task what its row does.
pub open spec fn tells_of(lease: LeaseView, t: TaskView, agent: Seq<char>) -> bool {
    &&& lease.task_id == t.id
    &&& lease.task_path == t.path
    &&& lease.status == t.status
    &&& lease.paused_status == t.paused_status
    &&& lease.check_retries == t.check_retries
    &&& lease.review_cycles == t.review_cycles
    &&& lease.failure_reason == t.failure_reason
    &&& lease.claimed_by == agent
}

/// A change to the row at a position changes that row alone.
pub proof fn lemma_change_at(
    s: StoreView,
    i: int,
    change: spec_fn(TaskView) -> TaskView,
    event: store::DraftView,
)
    requires
        store::keyed(s),
        0 <= i < s.tasks.len(),
        change(s.tasks[i]).id == s.tasks[i].id,
    ensures
        row_alone(
            s,
            store::with_event(tasks::row_changed(s, s.tasks[i].id, change), event),
            i,
            change(s.tasks[i]),
        ),
        store::find_task(s.tasks, s.tasks[i].id) == Some(s.tasks[i]),
{
    lemma_keyed_index(s, i);
    let after = store::with_event(tasks::row_changed(s, s.tasks[i].id, change), event);
    assert(s.events =~= after.events.take(s.events.len() as int));
}

/// A claim of a task by its id never takes a running lease over. Where the task
/// stands in a status that is not allowed, nothing happens. While a lease on it
/// runs, its holder gets it back as it is, and everybody else gets nothing and
/// changes nothing of it. Otherwise the task is the agent's from now on, and it
/// alone changes. A pending task goes to `executing` on the way, where that is
/// asked for.
pub proof fn law_claim_by_id_respects_leases(
    s: StoreView,
    i: int,
    agent: Seq<char>,
    ttl_secs: u64,
    allowed: Seq<Seq<char>>,
    promote: bool,
    now: Instant,
)
    requires
        store::keyed(s),
        0 <= i < s.tasks.len(),
        clock::lease_fits(now, ttl_secs),
        ttl_secs <= i64::MAX,
    ensures
        ({
            let t = s.tasks[i];
            let outcome = claim_by_id(s, t.id, agent, ttl_secs, allowed, promote, now);
            let ahead = clock::lies_ahead(t.lease_until, now);
            let going = if promote && t.status == "pending"@ {
                TaskView { status: "executing"@, paused_status: None, ..t }
            } else {
                t
            };
            let end = Instant { secs: (now.secs + ttl_secs) as i64, nanos: now.nanos };
            if !allowed.contains(t.status) {
                outcome.result is NoAvailable && outcome.tables == s
            } else if ahead && t.claimed_by == Some(agent) {
                &&& outcome.result matches ReadyClaimView::AlreadyClaimed(lease) && tells_of(
                    lease,
                    going,
                    agent,
                ) && Some(lease.lease_until) == clock::rfc3339_instant(t.lease_until->0)
                &&& row_alone(s, outcome.tables, i, going)
            } else if ahead {
                outcome.result is NoAvailable && row_alone(s, outcome.tables, i, going)
            } else {
                &&& outcome.result matches ReadyClaimView::Claimed(lease) && tells_of(
                    lease,
                    going,
                    agent,
                ) && lease.lease_until == end
                &&& row_alone(s, outcome.tables, i, written(going, agent, now, end))
                &&& outcome.tables.events.last() == lease_event(
                    "task_claimed"@,
                    t.id,
                    agent,
                    end,
                    now,
                )
            }
        }),
{
    let t = s.tasks[i];
    lemma_keyed_index(s, i);
    clock::law_leases_run_to_their_end(t.lease_until, now, ttl_secs);
    assert(s.tasks.update(i, t) =~= s.tasks);
    assert(s.events =~= s.events.take(s.events.len() as int));
    let end = clock::lease_end(now, ttl_secs);
    let taken = claimed(agent, now, ttl_secs);
    let event = store::draft(None, "task_claimed"@, lease_payload(t.id, agent, end), now);
    lemma_change_at(s, i, taken, event);
    if promote && t.status == "pending"@ {
        let mid = scheduling_recorded(s, t, now);
        lemma_change_at(s, i, scheduled(), mid.events.last());
        tasks::law_row_change_is_local(s, t.id, scheduled());
        assert(mid.tasks[i] == scheduled()(t));
        lemma_change_at(mid, i, taken, event);
        let after = claim_recorded(mid, t.id, agent, now, ttl_secs);
        assert(after.tasks =~= s.tasks.update(i, taken(scheduled()(t))));
        assert(s.events =~= after.events.take(s.events.len() as int));
    }
}

/// A task that the tables do not have cannot be claimed by its id.
pub proof fn law_unknown_task_is_not_claimed(
    s: StoreView,
    id: Seq<char>,
    agent: Seq<char>,
    ttl_secs: u64,
    allowed: Seq<Seq<char>>,
    promote: bool,
    now: Instant,
)
    requires
        forall|i: int| 0 <= i < s.tasks.len() ==> (#[trigger] s.tasks[i]).id != id,
    ensures
        claim_by_id(s, id, agent, ttl_secs, allowed, promote, now).result is NoAvailable,
        claim_by_id(s, id, agent, ttl_secs, allowed, promote, now).tables == s,
{
    text::lemma_index_of(store::task_ids(s.tasks), id);
    if store::find_task(s.tasks, id) is Some {
        let k = store::task_index(s.tasks, id);
        assert(store::task_ids(s.tasks)[k] == s.tasks[k].id);
    }
}

/// A claim of the task under way is answered by its lease: while one runs, its
/// holder gets it back as it is, and another is told who holds it, both without a
/// change; otherwise the task is the agent's from now on, and it alone changes.
pub proof fn law_claim_respects_leases(
    s: StoreView,
    i: int,
    path: Seq<char>,
    agent: Seq<char>,
    ttl_secs: u64,
    now: Instant,
)
    requires
        store::keyed(s),
        0 <= i < s.tasks.len(),
        clock::lease_fits(now, ttl_secs),
        ttl_secs <= i64::MAX,
    ensures
        ({
            let t = s.tasks[i];
            let outcome = claim_one(s, t.id, path, agent, ttl_secs, now);
            let end = Instant { secs: (now.secs + ttl_secs) as i64, nanos: now.nanos };
            if !clock::lies_ahead(t.lease_until, now) {
                &&& outcome.result == TaskClaimView::Claimed { claimed_by: agent, lease_until: end }
                &&& row_alone(s, outcome.tables, i, written(t, agent, now, end))
                &&& outcome.tables.events.last() == lease_event(
                    "task_claimed"@,
                    t.id,
                    agent,
                    end,
                    now,
                )
            } else {
                &&& outcome.tables == s
                &&& if t.claimed_by == Some(agent) {
                    outcome.result matches TaskClaimView::AlreadyClaimed { claimed_by, lease_until }
                        && claimed_by == agent && Some(lease_until) == clock::rfc3339_instant(
                        t.lease_until->0,
                    )
                } else {
                    outcome.result matches TaskClaimView::ClaimedByOther { claimed_by } && (
                    t.claimed_by is Some ==> claimed_by == t.claimed_by->0)
                }
            }
        }),
{
    let t = s.tasks[i];
    clock::law_leases_run_to_their_end(t.lease_until, now, ttl_secs);
    let event = store::draft(
        None,
        "task_claimed"@,
        lease_payload(t.id, agent, clock::lease_end(now, ttl_secs)),
        now,
    );
    lemma_change_at(s, i, claimed(agent, now, ttl_secs), event);
}

/// Whether a task stands in one of some statuses and may be taken by an agent: it
/// holds the lease on it already, or nobody's lease on it runs.
pub open spec fn takes(
    t: TaskView,
    agent: Seq<char>,
    statuses: Seq<Seq<char>>,
    now: Instant,
    mine: bool,
) -> bool {
    &&& statuses.contains(t.status)
    &&& clock::lies_ahead(t.lease_until, now) == mine
    &&& mine ==> t.claimed_by == Some(agent)
}

/// The next claim takes a row that may be taken, the first such by id: one that the
/// agent holds before any that is free. What it holds it gets back as it is; what
/// was free is its own from now on, and that row alone changes. It goes away empty
/// exactly where there is no such row.
pub proof fn law_next_claim_takes_what_is_free(
    s: StoreView,
    agent: Seq<char>,
    ttl_secs: u64,
    statuses: Seq<Seq<char>>,
    now: Instant,
)
    requires
        store::keyed(s),
        clock::lease_fits(now, ttl_secs),
        ttl_secs <= i64::MAX,
    ensures
        ({
            let outcome = claim_next(s, agent, ttl_secs, statuses, now);
            let end = Instant { secs: (now.secs + ttl_secs) as i64, nanos: now.nanos };
            match outcome.result {
                ReadyClaimView::NoAvailable => {
                    &&& outcome.tables == s
                    &&& forall|j: int|
                        0 <= j < s.tasks.len() ==> !takes(
                            #[trigger] s.tasks[j],
                            agent,
                            statuses,
                            now,
                            true,
                        ) && !takes(s.tasks[j], agent, statuses, now, false)
                },
                ReadyClaimView::AlreadyClaimed(lease) => exists|i: int|
                    {
                        &&& 0 <= i < s.tasks.len()
                        &&& takes(#[trigger] s.tasks[i], agent, statuses, now, true)
                        &&& tells_of(lease, s.tasks[i], agent)
                        &&& Some(lease.lease_until) == clock::rfc3339_instant(
                            s.tasks[i].lease_until->0,
                        )
                        &&& outcome.tables == s
                        &&& forall|j: int|
                            0 <= j < s.tasks.len() && takes(
                                #[trigger] s.tasks[j],
                                agent,
                                statuses,
                                now,
                                true,
                            ) ==> !text::text_lt(s.tasks[j].id, s.tasks[i].id)
                    },
                ReadyClaimView::Claimed(lease) => exists|i: int|
                    {
                        &&& 0 <= i < s.tasks.len()
                        &&& takes(#[trigger] s.tasks[i], agent, statuses, now, false)
                        &&& tells_of(lease, s.tasks[i], agent)
                        &&& lease.lease_until == end
                        &&& row_alone(s, outcome.tables, i, written(s.tasks[i], agent, now, end))
                        &&& forall|j: int|
                            0 <= j < s.tasks.len() ==> !takes(
                                #[trigger] s.tasks[j],
                                agent,
                                statuses,
                                now,
                                true,
                            ) && (takes(s.tasks[j], agent, statuses, now, false)
                                ==> !text::text_lt(s.tasks[j].id, s.tasks[i].id))
                    },
            }
        }),
{
    order::lemma_by_id();
    let holds = held(statuses, agent, now);
    let open = free(statuses, now);
    rows::lemma_pick(s.tasks, holds, order::by_id());
    rows::lemma_pick(s.tasks, open, order::by_id());
    assert forall|j: int| 0 <= j < s.tasks.len() implies takes(
        #[trigger] s.tasks[j],
        agent,
        statuses,
        now,
        true,
    ) == holds(s.tasks[j]) && takes(s.tasks[j], agent, statuses, now, false) == open(
        s.tasks[j],
    ) by {
        clock::law_leases_run_to_their_end(s.tasks[j].lease_until, now, ttl_secs);
    }
    let mine = rows::pick(s.tasks, holds, order::by_id());
    let next = rows::pick(s.tasks, open, order::by_id());
    clock::law_leases_run_to_their_end(None, now, ttl_secs);
    if mine >= 0 {
        assert(takes(s.tasks[mine], agent, statuses, now, true));
    } else if next >= 0 {
        let t = s.tasks[next];
        assert(takes(t, agent, statuses, now, false));
        let event = store::draft(
            None,
            "task_claimed"@,
            lease_payload(t.id, agent, clock::lease_end(now, ttl_secs)),
            now,
        );
        lemma_change_at(s, next, claimed(agent, now, ttl_secs), event);
    }
}

/// A renewal asks two things, in this order: that the row names the agent, and that
/// the lease still runs. Then the lease ends later and that row alone changes;
/// otherwise nothing does.
pub proof fn law_renewal_needs_a_running_lease(
    s: StoreView,
    i: int,
    path: Seq<char>,
    agent: Seq<char>,
    ttl_secs: u64,
    now: Instant,
)
    requires
        store::keyed(s),
        0 <= i < s.tasks.len(),
        clock::lease_fits(now, ttl_secs),
        ttl_secs <= i64::MAX,
    ensures
        ({
            let t = s.tasks[i];
            let outcome = renew_one(s, t.id, path, agent, ttl_secs, now);
            let end = Instant { secs: (now.secs + ttl_secs) as i64, nanos: now.nanos };
            if t.claimed_by == Some(agent) && clock::lies_ahead(t.lease_until, now) {
                &&& outcome.result == RenewalView::Renewed {
                    task_id: t.id,
                    task_path: path,
                    claimed_by: agent,
                    lease_until: end,
                }
                &&& row_alone(s, outcome.tables, i, written(t, agent, now, end))
                &&& outcome.tables.events.last() == lease_event(
                    "task_lease_renewed"@,
                    t.id,
                    agent,
                    end,
                    now,
                )
            } else {
                &&& outcome.tables == s
                &&& outcome.result == match t.claimed_by {
                    None => RenewalView::NotClaimed,
                    Some(owner) => if owner == agent {
                        RenewalView::Expired
                    } else {
                        RenewalView::ClaimedByOther { claimed_by: owner }
                    },
                }
            }
        }),
{
    let t = s.tasks[i];
    clock::law_leases_run_to_their_end(t.lease_until, now, ttl_secs);
    let event = store::draft(
        None,
        "task_lease_renewed"@,
        lease_payload(t.id, agent, clock::lease_end(now, ttl_secs)),
        now,
    );
    lemma_change_at(s, i, renewed(now, ttl_secs), event);
    assert(t.claimed_by == Some(agent) ==> renewed(now, ttl_secs)(t) == written(
        t,
        agent,
        now,
        clock::lease_end(now, ttl_secs),
    ));
}

/// Whether the end of a lease is written as a later one than that of another task;
/// of equal ones the smaller id counts.
pub open spec fn leads(a: TaskView, b: TaskView) -> bool {
    match (a.lease_until, b.lease_until) {
        (Some(x), Some(y)) => text::text_lt(y, x) || (x == y && text::text_lt(a.id, b.id)),
        (Some(_), None) => true,
        (None, Some(_)) => false,
        (None, None) => text::text_lt(a.id, b.id),
    }
}

/// An agent renews the lease on the task that names it with the latest lease, if
/// that still runs: no other task that names it has a later one, and no other row
/// changes. An agent that no task names has nothing to renew.
pub proof fn law_agent_renews_its_latest(
    s: StoreView,
    agent: Seq<char>,
    ttl_secs: u64,
    now: Instant,
)
    requires
        store::keyed(s),
        clock::lease_fits(now, ttl_secs),
        ttl_secs <= i64::MAX,
    ensures
        ({
            let outcome = renew_claimed(s, agent, ttl_secs, now);
            let end = Instant { secs: (now.secs + ttl_secs) as i64, nanos: now.nanos };
            match outcome.result {
                RenewalView::NotClaimed => outcome.tables == s && forall|j: int|
                    0 <= j < s.tasks.len() ==> (#[trigger] s.tasks[j]).claimed_by != Some(agent),
                RenewalView::ClaimedByOther { claimed_by } => false,
                RenewalView::Expired => outcome.tables == s && exists|i: int|
                    {
                        &&& 0 <= i < s.tasks.len()
                        &&& (#[trigger] s.tasks[i]).claimed_by == Some(agent)
                        &&& !clock::lies_ahead(s.tasks[i].lease_until, now)
                        &&& forall|j: int|
                            0 <= j < s.tasks.len() && (#[trigger] s.tasks[j]).claimed_by == Some(
                                agent,
                            ) ==> !leads(s.tasks[j], s.tasks[i])
                    },
                RenewalView::Renewed { task_id, task_path, claimed_by, lease_until } => exists|
                    i: int,
                |
                    {
                        &&& 0 <= i < s.tasks.len()
                        &&& (#[trigger] s.tasks[i]).claimed_by == Some(agent)
                        &&& clock::lies_ahead(s.tasks[i].lease_until, now)
                        &&& task_id == s.tasks[i].id && task_path == s.tasks[i].path
                        &&& claimed_by == agent && lease_until == end
                        &&& row_alone(s, outcome.tables, i, written(s.tasks[i], agent, now, end))
                        &&& forall|j: int|
                            0 <= j < s.tasks.len() && (#[trigger] s.tasks[j]).claimed_by == Some(
                                agent,
                            ) ==> !leads(s.tasks[j], s.tasks[i])
                    },
            }
        }),
{
    order::lemma_by_lease();
    let named = of_agent(agent);
    rows::lemma_pick(s.tasks, named, order::by_lease());
    assert forall|j: int| 0 <= j < s.tasks.len() implies named(#[trigger] s.tasks[j]) == (
    s.tasks[j].claimed_by == Some(agent)) by {}
    let k = task_of_agent(s, agent);
    clock::law_leases_run_to_their_end(None, now, ttl_secs);
    if k >= 0 {
        let t = s.tasks[k];
        clock::law_leases_run_to_their_end(t.lease_until, now, ttl_secs);
        assert(t.claimed_by == Some(agent));
        assert forall|j: int| 0 <= j < s.tasks.len() && (#[trigger] s.tasks[j]).claimed_by == Some(
            agent,
        ) implies !leads(s.tasks[j], t) by {
            assert(named(s.tasks[j]));
        }
        let event = store::draft(
            None,
            "task_lease_renewed"@,
            lease_payload(t.id, agent, clock::lease_end(now, ttl_secs)),
            now,
        );
        lemma_change_at(s, k, renewed(now, ttl_secs), event);
        assert(renewed(now, ttl_secs)(t) == written(t, agent, now, clock::lease_end(now, ttl_secs)));
    }
}

/// Whether a run changed later than another; of those that did not, the one that
/// started later counts, then the one with the greater id.
pub open spec fn later_run(a: RunView, b: RunView) -> bool {
    ||| text::text_lt(b.updated_at, a.updated_at)
    ||| a.updated_at == b.updated_at && text::text_lt(b.started_at, a.started_at)
    ||| a.updated_at == b.updated_at && a.started_at == b.started_at && text::text_lt(b.id, a.id)
}

/// Whether a run of an agent is under way on a task that the tables have.
pub open spec fn works(r: RunView, agent: Seq<char>, tasks: Seq<TaskView>) -> bool {
    &&& r.agent == agent
    &&& r.status == "running"@ || r.status == "checking"@ || r.status == "reviewing"@
    &&& exists|k: int| 0 <= k < tasks.len() && (#[trigger] tasks[k]).id == r.task_id
}

/// Whether a context tells of a task what its row does, and names its run
/// directory.
pub open spec fn shows(c: ContextView, t: TaskView) -> bool {
    &&& c.task_id == t.id
    &&& c.task_path == t.path
    &&& c.run_dir == ".ferrus/runs/"@ + t.id
    &&& c.status == t.status
    &&& c.paused_status == t.paused_status
    &&& c.check_retries == t.check_retries
    &&& c.review_cycles == t.review_cycles
    &&& c.failure_reason == t.failure_reason
}

/// What an agent is told of its work: of a task that names it with the latest lease,
/// together with its latest run on that task; where no task names it, of the task of
/// its latest run that is under way; and nothing only where there is neither.
pub proof fn law_context_is_of_the_agent(s: StoreView, agent: Seq<char>)
    requires
        store::keyed(s),
    ensures
        match agent_context(s, agent) {
            None => {
                &&& forall|j: int|
                    0 <= j < s.tasks.len() ==> (#[trigger] s.tasks[j]).claimed_by != Some(agent)
                &&& forall|r: int|
                    0 <= r < s.runs.len() ==> !works(#[trigger] s.runs[r], agent, s.tasks)
            },
            Some(c) => if exists|j: int|
                0 <= j < s.tasks.len() && (#[trigger] s.tasks[j]).claimed_by == Some(agent) {
                exists|i: int| #[trigger]
                    latest_named(s, agent, i) && shows(c, s.tasks[i]) && latest_on(
                        s,
                        agent,
                        s.tasks[i].id,
                        c,
                    )
            } else {
                exists|i: int|
                    0 <= i < s.tasks.len() && shows(c, #[trigger] s.tasks[i]) && latest_work(
                        s,
                        agent,
                        s.tasks[i].id,
                        c,
                    )
            },
        },
{
    order::lemma_by_lease();
    order::lemma_by_recency();
    let named = of_agent(agent);
    rows::lemma_pick(s.tasks, named, order::by_lease());
    assert forall|j: int| 0 <= j < s.tasks.len() implies named(#[trigger] s.tasks[j]) == (
    s.tasks[j].claimed_by == Some(agent)) by {}
    let k = task_of_agent(s, agent);
    if k >= 0 {
        let t = s.tasks[k];
        let wanted = run_of(agent, t.id);
        rows::lemma_pick(s.runs, wanted, order::by_recency());
        assert forall|r: int| 0 <= r < s.runs.len() implies wanted(#[trigger] s.runs[r]) == (
        s.runs[r].agent == agent && s.runs[r].task_id == t.id) by {}
        let c = agent_context(s, agent)->0;
        assert(latest_on(s, agent, t.id, c));
        assert(shows(c, t));
        assert(latest_named(s, agent, k)) by {
            assert forall|j: int|
                0 <= j < s.tasks.len() && (#[trigger] s.tasks[j]).claimed_by == Some(
                    agent,
                ) implies !leads(s.tasks[j], t) by {
                assert(named(s.tasks[j]));
            }
        }
    } else {
        assert forall|j: int| 0 <= j < s.tasks.len() implies (#[trigger] s.tasks[j]).claimed_by
            != Some(agent) by {
            assert(!named(s.tasks[j]));
        }
        let wanted = active_run_on_task(agent, s.tasks);
        rows::lemma_pick(s.runs, wanted, order::by_recency());
        assert forall|r: int| 0 <= r < s.runs.len() implies wanted(#[trigger] s.runs[r]) == works(
            s.runs[r],
            agent,
            s.tasks,
        ) by {
            let id = s.runs[r].task_id;
            let ids = store::task_ids(s.tasks);
            text::lemma_index_of(ids, id);
            if store::find_task(s.tasks, id) is Some {
                let m = store::task_index(s.tasks, id);
                assert(ids[m] == s.tasks[m].id);
                assert(s.tasks[m].id == id);
            }
            if exists|m: int| 0 <= m < s.tasks.len() && (#[trigger] s.tasks[m]).id == id {
                let m = choose|m: int| 0 <= m < s.tasks.len() && (#[trigger] s.tasks[m]).id == id;
                assert(ids[m] == id);
            }
        }
        let r = rows::pick(s.runs, wanted, order::by_recency());
        if r >= 0 {
            let id = s.runs[r].task_id;
            lemma_row_of(s, id);
            text::lemma_index_of(store::task_ids(s.tasks), id);
            let m = store::task_index(s.tasks, id);
            assert(0 <= m < s.tasks.len());
            let c = agent_context(s, agent)->0;
            assert(works(s.runs[r], agent, s.tasks));
            assert(shows(c, s.tasks[m]));
            assert forall|q: int|
                0 <= q < s.runs.len() && works(#[trigger] s.runs[q], agent, s.tasks) implies
                !later_run(s.runs[q], s.runs[r]) by {
                assert(wanted(s.runs[q]));
            }
            assert(latest_work(s, agent, s.tasks[m].id, c));
        } else {
            assert forall|q: int| 0 <= q < s.runs.len() implies !works(
                #[trigger] s.runs[q],
                agent,
                s.tasks,
            ) by {
                assert(!wanted(s.runs[q]));
            }
        }
    }
}

/// The task at a position names the agent, and no other that does has a later lease.
pub open spec fn latest_named(s: StoreView, agent: Seq<char>, i: int) -> bool {
    &&& 0 <= i < s.tasks.len()
    &&& s.tasks[i].claimed_by == Some(agent)
    &&& forall|j: int|
        0 <= j < s.tasks.len() && (#[trigger] s.tasks[j]).claimed_by == Some(agent) ==> !leads(
            s.tasks[j],
            s.tasks[i],
        )
}

/// The context names the latest run of the agent on a task, and its workspace; none
/// where it has no run on it.
pub open spec fn latest_on(s: StoreView, agent: Seq<char>, id: Seq<char>, c: ContextView) -> bool {
    if exists|r: int|
        0 <= r < s.runs.len() && (#[trigger] s.runs[r]).agent == agent && s.runs[r].task_id == id {
        exists|r: int|
            {
                &&& 0 <= r < s.runs.len()
                &&& (#[trigger] s.runs[r]).agent == agent && s.runs[r].task_id == id
                &&& c.run_id == Some(s.runs[r].id)
                &&& c.workspace_path == Some(s.runs[r].workspace_path)
                &&& forall|q: int|
                    0 <= q < s.runs.len() && (#[trigger] s.runs[q]).agent == agent
                        && s.runs[q].task_id == id ==> !later_run(s.runs[q], s.runs[r])
            }
    } else {
        c.run_id is None && c.workspace_path is None
    }
}

/// The context names the latest run of the agent that is under way, which is on a
/// task, and its workspace.
pub open spec fn latest_work(
    s: StoreView,
    agent: Seq<char>,
    id: Seq<char>,
    c: ContextView,
) -> bool {
    exists|r: int|
        {
            &&& 0 <= r < s.runs.len()
            &&& works(#[trigger] s.runs[r], agent, s.tasks) && s.runs[r].task_id == id
            &&& c.run_id == Some(s.runs[r].id)
            &&& c.workspace_path == Some(s.runs[r].workspace_path)
            &&& forall|q: int|
                0 <= q < s.runs.len() && works(#[trigger] s.runs[q], agent, s.tasks) ==> !later_run(
                    s.runs[q],
                    s.runs[r],
                )
        }
}

/// A task that the tables do not have gets a row of its own behind the others, with
/// nothing noted but its id and its path; one that they have stays as it is. A lease that
/// runs without an owner is respected too, and its owner is told to be unknown.
pub proof fn law_missing_row_is_made(
    s: StoreView,
    id: Seq<char>,
    path: Seq<char>,
    agent: Seq<char>,
    ttl_secs: u64,
    now: Instant,
)
    ensures
        store::find_task(s.tasks, id) is Some ==> task_ensured(s, id, path) == s,
        store::find_task(s.tasks, id) is None ==> {
            let after = task_ensured(s, id, path);
            &&& after.tasks.len() == s.tasks.len() + 1
            &&& after.tasks.drop_last() == s.tasks
            &&& after.tasks.last().id == id
            &&& after.tasks.last().path == path
            &&& after.tasks.last().status == "unknown"@
            &&& after.tasks.last().claimed_by is None
            &&& after.tasks.last().lease_until is None
            &&& after.runs == s.runs && after.events == s.events
        },
        store::find_task(s.tasks, id) matches Some(t) && t.claimed_by is None && clock::lies_ahead(
            t.lease_until,
            now,
        ) ==> claim_one(s, id, path, agent, ttl_secs, now).result
            == (TaskClaimView::ClaimedByOther { claimed_by: "unknown"@ }),
{
    let row = store::fresh_task(id, path, "unknown"@);
    assert(s.tasks.push(row).drop_last() =~= s.tasks);
}

} // verus!
