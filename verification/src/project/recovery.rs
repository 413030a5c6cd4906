//! Recovery of what a crash left behind: runs without a process, leases that
//! have run out, and worktrees that nobody needs.
use vstd::prelude::*;
use vstd::string::*;

use crate::checks::runner;
use crate::clock;
use crate::clock::Instant;
use crate::json;
use crate::project::claims;
use crate::project::store;
use crate::project::store::DraftView;
use crate::project::store::Store;
use crate::project::store::StoreView;
use crate::project::tasks;
use crate::project::RunRecord;
use crate::project::RunView;
use crate::project::RuntimeRecovery;
use crate::project::TaskRecord;
use crate::project::TaskView;
use crate::rows;
use crate::state::StateData;
use crate::state::StateView;
use crate::text;

verus! {

// -------------------------------------------------------------------- model

/// The run is noted as under way, but has no living process.
pub open spec fn interrupted(r: RunView, alive: Seq<u32>) -> bool {
    claims::run_active(r.status) && (r.pid is None || !alive.contains(r.pid->0))
}

/// A run after its interruption was noted.
pub open spec fn interruption(r: RunView, now: Instant) -> RunView {
    RunView { status: "interrupted"@, updated_at: clock::stamp(now), pid: None, ..r }
}

/// The runs after the interrupted ones were noted.
pub open spec fn runs_recovered(runs: Seq<RunView>, alive: Seq<u32>, now: Instant) -> Seq<RunView> {
    runs.map_values(
        |r: RunView|
            if interrupted(r, alive) {
                interruption(r, now)
            } else {
                r
            },
    )
}

/// The events of the interrupted runs, in the order of the table.
pub open spec fn interruption_events(
    runs: Seq<RunView>,
    alive: Seq<u32>,
    now: Instant,
) -> Seq<DraftView>
    decreases runs.len(),
{
    if runs.len() == 0 {
        Seq::empty()
    } else {
        let before = interruption_events(runs.drop_last(), alive, now);
        if interrupted(runs.last(), alive) {
            before.push(
                store::draft(Some(runs.last().id), "run_interrupted"@, Seq::empty(), now),
            )
        } else {
            before
        }
    }
}

/// The tables after interrupted runs were noted.
pub open spec fn interruptions_recorded(s: StoreView, alive: Seq<u32>, now: Instant) -> StoreView {
    StoreView {
        runs: runs_recovered(s.runs, alive, now),
        events: s.events + interruption_events(s.runs, alive, now),
        ..s
    }
}

/// The task is noted as claimed, but its lease has run out or cannot be read.
pub open spec fn expired(t: TaskView, now: Instant) -> bool {
    t.claimed_by is Some && !claims::leased(t, now)
}

/// The tasks after expired leases were released.
pub open spec fn leases_released(tasks: Seq<TaskView>, now: Instant) -> Seq<TaskView> {
    tasks.map_values(
        |t: TaskView|
            if expired(t, now) {
                store::released(t)
            } else {
                t
            },
    )
}

/// The events of the expired leases, in the order of the table.
pub open spec fn expiry_events(tasks: Seq<TaskView>, now: Instant) -> Seq<DraftView>
    decreases tasks.len(),
{
    if tasks.len() == 0 {
        Seq::empty()
    } else {
        let before = expiry_events(tasks.drop_last(), now);
        let t = tasks.last();
        if expired(t, now) {
            before.push(
                store::draft(
                    None,
                    "task_lease_expired"@,
                    seq![
                        store::text_item("task_id"@, t.id),
                        store::opt_text_item("claimed_by"@, t.claimed_by),
                        store::opt_text_item("lease_until"@, t.lease_until),
                    ],
                    now,
                ),
            )
        } else {
            before
        }
    }
}

/// The tables after expired leases were released.
pub open spec fn expiries_recorded(s: StoreView, now: Instant) -> StoreView {
    StoreView {
        tasks: leases_released(s.tasks, now),
        events: s.events + expiry_events(s.tasks, now),
        ..s
    }
}

/// The kept state names an owner whose lease no longer runs.
pub open spec fn mirror_stale(state: StateView, now: Instant) -> bool {
    state.claimed_by is Some && !(state.lease_until is Some && now.is_before(
        state.lease_until->0,
    ))
}

/// The end of a lease in an event.
pub open spec fn lease_text(lease_until: Option<Instant>) -> Option<Seq<char>> {
    match lease_until {
        Some(at) => Some(claims::exact_text(at)),
        None => None,
    }
}

/// The event of a stale lease in the kept state.
pub open spec fn mirror_event(state: StateView, now: Instant) -> DraftView {
    store::draft(
        None,
        "state_lease_mirror_cleared"@,
        seq![
            store::opt_text_item("task_id"@, state.active_task_id),
            store::opt_text_item("claimed_by"@, state.claimed_by),
            store::opt_text_item("lease_until"@, lease_text(state.lease_until)),
        ],
        now,
    )
}

/// What a recovery would repair.
pub open spec fn recovery_due(
    s: StoreView,
    state: Option<StateView>,
    alive: Seq<u32>,
    now: Instant,
) -> RuntimeRecovery {
    RuntimeRecovery {
        interrupted_runs: interruption_events(s.runs, alive, now).len() as usize,
        expired_task_leases: expiry_events(s.tasks, now).len() as usize,
        state_lease_mirrors_cleared: if state is Some && mirror_stale(state->0, now) {
            1
        } else {
            0
        },
    }
}

/// The tables after a recovery.
pub open spec fn recovered(
    s: StoreView,
    state: Option<StateView>,
    alive: Seq<u32>,
    now: Instant,
) -> StoreView {
    let repaired = expiries_recorded(interruptions_recorded(s, alive, now), now);
    if state is Some && mirror_stale(state->0, now) {
        store::with_event(repaired, mirror_event(state->0, now))
    } else {
        repaired
    }
}

/// The kept state after a recovery.
pub open spec fn state_recovered(state: StateView, now: Instant) -> StateView {
    if mirror_stale(state, now) {
        StateView { claimed_by: None, lease_until: None, last_heartbeat: None, ..state }
    } else {
        state
    }
}

// ---------------------------------------------------------------- execution

fn is_listed(pids: &Vec<u32>, pid: u32) -> (out: bool)
    ensures
        out == pids@.contains(pid),
{
    let mut i: usize = 0;
    while i < pids.len()
        invariant
            i <= pids@.len(),
            forall|k: int| 0 <= k < i ==> pids@[k] != pid,
        decreases pids@.len() - i,
    {
        if pids[i] == pid {
            assert(pids@[i as int] == pid);
            return true;
        }
        i = i + 1;
    }
    false
}

fn is_interrupted(r: &RunRecord, alive: &Vec<u32>) -> (out: bool)
    ensures
        out == interrupted(r@, alive@),
{
    claims::is_run_active(r.status.as_str()) && (match r.pid {
        Some(pid) => !is_listed(alive, pid),
        None => true,
    })
}

fn is_expired(t: &TaskRecord, now: Instant) -> (out: bool)
    ensures
        out == expired(t@, now),
{
    t.claimed_by.is_some() && clock::running_lease(&t.lease_until, now).is_none()
}

/// The run is noted as under way with this process.
pub open spec fn runs_as(r: RunView, pid: u32) -> bool {
    claims::run_active(r.status) && r.pid == Some(pid)
}

/// Some run is noted as under way with this process.
pub open spec fn active_process(runs: Seq<RunView>, pid: u32) -> bool {
    exists|i: int| 0 <= i < runs.len() && runs_as(#[trigger] runs[i], pid)
}

/// The processes of the runs that are noted as under way.
pub fn active_run_pids(tables: &Store) -> (out: Vec<u32>)
    ensures
        forall|pid: u32| #[trigger]
            out@.contains(pid) <==> active_process(tables@.runs, pid),
{
    let ghost all = tables@.runs;
    let mut out: Vec<u32> = Vec::new();
    let mut i: usize = 0;
    while i < tables.runs.len()
        invariant
            i <= tables.runs@.len(),
            all == tables@.runs,
            forall|pid: u32| #[trigger]
                out@.contains(pid) <==> active_process(all.take(i as int), pid),
        decreases tables.runs@.len() - i,
    {
        assert(all[i as int] == tables.runs@[i as int]@);
        let ghost before = out@;
        let ghost head = all.take(i as int);
        let ghost more = all.take(i + 1);
        if claims::is_run_active(tables.runs[i].status.as_str()) {
            if let Some(pid) = tables.runs[i].pid {
                out.push(pid);
            }
        }
        assert forall|pid: u32| #[trigger] out@.contains(pid) <==> active_process(more, pid) by {
            if active_process(more, pid) {
                let k = choose|k: int| 0 <= k < more.len() && runs_as(#[trigger] more[k], pid);
                if k < i {
                    assert(runs_as(head[k], pid));
                    assert(before.contains(pid));
                    let m = choose|m: int| 0 <= m < before.len() && before[m] == pid;
                    assert(out@[m] == pid);
                } else {
                    assert(out@[before.len() as int] == pid);
                }
            }
            if out@.contains(pid) {
                let m = choose|m: int| 0 <= m < out@.len() && out@[m] == pid;
                if m < before.len() {
                    assert(before[m] == pid);
                    assert(before.contains(pid));
                    let k = choose|k: int| 0 <= k < head.len() && runs_as(#[trigger] head[k], pid);
                    assert(runs_as(more[k], pid));
                } else {
                    assert(runs_as(more[i as int], pid));
                }
            }
        }
        i = i + 1;
    }
    assert(all.take(i as int) =~= all);
    out
}

/// Notes the runs whose process is gone. `alive` lists the processes that live.
pub fn recover_interrupted_runs(tables: &mut Store, alive: &Vec<u32>, now: Instant) -> (out: usize)
    requires
        now.wf(),
    ensures
        final(tables)@ == interruptions_recorded(old(tables)@, alive@, now),
        out == interruption_events(old(tables)@.runs, alive@, now).len(),
{
    let ghost all = old(tables)@.runs;
    let ghost target = runs_recovered(all, alive@, now);
    let mut count: usize = 0;
    let mut i: usize = 0;
    assert(tables@.events =~= old(tables)@.events + interruption_events(all.take(0), alive@, now));
    while i < tables.runs.len()
        invariant
            now.wf(),
            i <= tables.runs@.len(),
            all == old(tables)@.runs,
            all.len() == tables.runs@.len(),
            target == runs_recovered(all, alive@, now),
            tables@.tasks == old(tables)@.tasks,
            forall|k: int| 0 <= k < i ==> #[trigger] tables@.runs[k] == target[k],
            forall|k: int| i <= k < all.len() ==> #[trigger] tables@.runs[k] == all[k],
            tables@.events == old(tables)@.events + interruption_events(
                all.take(i as int),
                alive@,
                now,
            ),
            count == interruption_events(all.take(i as int), alive@, now).len(),
            count <= i,
        decreases tables.runs@.len() - i,
    {
        let ghost before = tables@;
        assert(all.take(i + 1).drop_last() =~= all.take(i as int));
        assert(all.take(i + 1).last() == all[i as int]);
        assert(tables@.runs[i as int] == tables.runs@[i as int]@);
        if is_interrupted(&tables.runs[i], alive) {
            let mut row: RunRecord = tables.runs[i].copy();
            let id: String = row.id.clone();
            row.status = "interrupted".to_owned();
            row.updated_at = clock::timestamp(now);
            row.pid = None;
            tables.put_run(i, row);
            tables.record(Some(id), "run_interrupted", Vec::new(), now);
            assert(store::payload_view(Seq::<(String, store::Payload)>::empty()) =~= Seq::empty());
            assert(tables@.events =~= old(tables)@.events + interruption_events(
                all.take(i + 1),
                alive@,
                now,
            ));
            count = count + 1;
        }
        assert forall|k: int| 0 <= k < i + 1 implies #[trigger] tables@.runs[k] == target[k] by {
            if k < i {
                assert(before.runs[k] == target[k]);
            }
        }
        i = i + 1;
    }
    assert(all.take(i as int) =~= all);
    assert(tables@.runs =~= target);
    count
}

/// Counts the runs whose process is gone.
pub fn preview_interrupted_runs(tables: &Store, alive: &Vec<u32>, now: Instant) -> (out: usize)
    ensures
        out == interruption_events(tables@.runs, alive@, now).len(),
{
    let ghost all = tables@.runs;
    let mut count: usize = 0;
    let mut i: usize = 0;
    while i < tables.runs.len()
        invariant
            i <= tables.runs@.len(),
            all == tables@.runs,
            count == interruption_events(all.take(i as int), alive@, now).len(),
            count <= i,
        decreases tables.runs@.len() - i,
    {
        assert(all.take(i + 1).drop_last() =~= all.take(i as int));
        assert(all.take(i + 1).last() == all[i as int]);
        assert(all[i as int] == tables.runs@[i as int]@);
        if is_interrupted(&tables.runs[i], alive) {
            count = count + 1;
        }
        i = i + 1;
    }
    assert(all.take(i as int) =~= all);
    count
}

/// Releases the leases that have run out.
pub fn recover_expired_task_leases(tables: &mut Store, now: Instant) -> (out: usize)
    requires
        now.wf(),
    ensures
        final(tables)@ == expiries_recorded(old(tables)@, now),
        out == expiry_events(old(tables)@.tasks, now).len(),
{
    let ghost all = old(tables)@.tasks;
    let ghost target = leases_released(all, now);
    let mut count: usize = 0;
    let mut i: usize = 0;
    assert(tables@.events =~= old(tables)@.events + expiry_events(all.take(0), now));
    while i < tables.tasks.len()
        invariant
            now.wf(),
            i <= tables.tasks@.len(),
            all == old(tables)@.tasks,
            all.len() == tables.tasks@.len(),
            target == leases_released(all, now),
            tables@.runs == old(tables)@.runs,
            forall|k: int| 0 <= k < i ==> #[trigger] tables@.tasks[k] == target[k],
            forall|k: int| i <= k < all.len() ==> #[trigger] tables@.tasks[k] == all[k],
            tables@.events == old(tables)@.events + expiry_events(all.take(i as int), now),
            count == expiry_events(all.take(i as int), now).len(),
            count <= i,
        decreases tables.tasks@.len() - i,
    {
        let ghost before = tables@;
        assert(all.take(i + 1).drop_last() =~= all.take(i as int));
        assert(all.take(i + 1).last() == all[i as int]);
        assert(tables@.tasks[i as int] == tables.tasks@[i as int]@);
        if is_expired(&tables.tasks[i], now) {
            let mut row: TaskRecord = tables.tasks[i].copy();
            let payload: Vec<(String, store::Payload)> = store::payload_of_3(
                store::text_entry("task_id", row.id.as_str()),
                store::opt_text_entry("claimed_by", &row.claimed_by),
                store::opt_text_entry("lease_until", &row.lease_until),
            );
            row.claimed_by = None;
            row.lease_until = None;
            row.last_heartbeat = None;
            tables.put_task(i, row);
            tables.record(None, "task_lease_expired", payload, now);
            assert(tables@.events =~= old(tables)@.events + expiry_events(all.take(i + 1), now));
            count = count + 1;
        }
        assert forall|k: int| 0 <= k < i + 1 implies #[trigger] tables@.tasks[k] == target[k] by {
            if k < i {
                assert(before.tasks[k] == target[k]);
            }
        }
        i = i + 1;
    }
    assert(all.take(i as int) =~= all);
    assert(tables@.tasks =~= target);
    count
}

/// Counts the leases that have run out.
pub fn preview_expired_task_leases(tables: &Store, now: Instant) -> (out: usize)
    ensures
        out == expiry_events(tables@.tasks, now).len(),
{
    let ghost all = tables@.tasks;
    let mut count: usize = 0;
    let mut i: usize = 0;
    while i < tables.tasks.len()
        invariant
            i <= tables.tasks@.len(),
            all == tables@.tasks,
            count == expiry_events(all.take(i as int), now).len(),
            count <= i,
        decreases tables.tasks@.len() - i,
    {
        assert(all.take(i + 1).drop_last() =~= all.take(i as int));
        assert(all.take(i + 1).last() == all[i as int]);
        assert(all[i as int] == tables.tasks@[i as int]@);
        if is_expired(&tables.tasks[i], now) {
            count = count + 1;
        }
        i = i + 1;
    }
    assert(all.take(i as int) =~= all);
    count
}

/// Whether the kept state names an owner whose lease no longer runs.
pub fn preview_state_lease_mirror(state: &StateData, now: Instant) -> (out: bool)
    ensures
        out == mirror_stale(state@, now),
{
    state.claimed_by.is_some() && !(match state.lease_until {
        Some(end) => now.before(&end),
        None => false,
    })
}

/// Clears a stale lease from the kept state.
pub fn recover_state_lease_mirror(
    tables: &mut Store,
    state: &mut StateData,
    now: Instant,
) -> (out: bool)
    requires
        now.wf(),
        old(state).lease_until is Some ==> old(state).lease_until->0.wf(),
    ensures
        out == mirror_stale(old(state)@, now),
        final(state)@ == state_recovered(old(state)@, now),
        final(tables)@ == if out {
            store::with_event(old(tables)@, mirror_event(old(state)@, now))
        } else {
            old(tables)@
        },
{
    if !preview_state_lease_mirror(state, now) {
        return false;
    }
    let lease_until: Option<String> = match state.lease_until {
        Some(at) => Some(clock::format_rfc3339(at, false)),
        None => None,
    };
    let payload: Vec<(String, store::Payload)> = store::payload_of_3(
        store::opt_text_entry("task_id", &state.active_task_id),
        store::opt_text_entry("claimed_by", &state.claimed_by),
        store::opt_text_entry("lease_until", &lease_until),
    );
    state.clear_lease();
    tables.record(None, "state_lease_mirror_cleared", payload, now);
    true
}

/// Repairs what a crash left behind. A state that cannot be read is left alone.
pub fn recover_runtime_state(
    tables: &mut Store,
    state: Option<&mut StateData>,
    alive: &Vec<u32>,
    now: Instant,
) -> (out: RuntimeRecovery)
    requires
        now.wf(),
        state is Some ==> (state->0.lease_until is Some ==> state->0.lease_until->0.wf()),
    ensures
        ({
            let known = match state {
                Some(s) => Some((*s)@),
                None => None,
            };
            &&& out == recovery_due(old(tables)@, known, alive@, now)
            &&& final(tables)@ == recovered(old(tables)@, known, alive@, now)
            &&& state is Some ==> (*final(state->0))@ == state_recovered((*state->0)@, now)
        }),
{
    let interrupted_runs: usize = recover_interrupted_runs(tables, alive, now);
    let expired_task_leases: usize = recover_expired_task_leases(tables, now);
    let mut state_lease_mirrors_cleared: usize = 0;
    if let Some(s) = state {
        if recover_state_lease_mirror(tables, s, now) {
            state_lease_mirrors_cleared = 1;
        }
    }
    RuntimeRecovery { interrupted_runs, expired_task_leases, state_lease_mirrors_cleared }
}

/// Tells what a recovery would repair, and changes nothing.
pub fn preview_runtime_recovery(
    tables: &Store,
    state: Option<&StateData>,
    alive: &Vec<u32>,
    now: Instant,
) -> (out: RuntimeRecovery)
    ensures
        out == recovery_due(tables@, tasks::opt_state(state), alive@, now),
{
    let state_lease_mirrors_cleared: usize = match state {
        Some(s) => if preview_state_lease_mirror(s, now) {
            1
        } else {
            0
        },
        None => 0,
    };
    RuntimeRecovery {
        interrupted_runs: preview_interrupted_runs(tables, alive, now),
        expired_task_leases: preview_expired_task_leases(tables, now),
        state_lease_mirrors_cleared,
    }
}

// ---------------------------------------------------------------- worktrees

/// The statuses of a task that nobody works on any more.
pub open spec fn terminal(status: Seq<char>) -> bool {
    status == "idle"@ || status == "reset"@ || status == "complete"@ || status == "failed"@
}

/// Whether nobody works on a task in this status any more.
pub fn is_terminal_status(status: &str) -> (out: bool)
    ensures
        out == terminal(status@),
{
    text::same(status, "idle") || text::same(status, "reset") || text::same(status, "complete")
        || text::same(status, "failed")
}

/// A task that is still worked on has this id.
pub open spec fn task_protected(tasks: Seq<TaskView>, id: Seq<char>) -> bool {
    exists|i: int| 0 <= i < tasks.len() && protects_task(#[trigger] tasks[i], id)
}

/// The task is still worked on and has this id.
pub open spec fn protects_task(t: TaskView, id: Seq<char>) -> bool {
    t.id == id && !terminal(t.status)
}

/// A run with a living process works in this place.
pub open spec fn path_protected(runs: Seq<RunView>, alive: Seq<u32>, path: Seq<char>) -> bool {
    exists|i: int| 0 <= i < runs.len() && protects_path(#[trigger] runs[i], alive, path)
}

/// The run has a living process and works in this place.
pub open spec fn protects_path(r: RunView, alive: Seq<u32>, path: Seq<char>) -> bool {
    r.workspace_path == path && claims::run_active(r.status) && !interrupted(r, alive)
}

/// The ids of the tasks that are still worked on.
pub fn protected_worktree_task_ids(tables: &Store) -> (out: Vec<String>)
    ensures
        forall|id: Seq<char>| #[trigger]
            text::views(out@).contains(id) <==> task_protected(tables@.tasks, id),
{
    let ghost all = tables@.tasks;
    let mut out: Vec<String> = Vec::new();
    let mut i: usize = 0;
    while i < tables.tasks.len()
        invariant
            i <= tables.tasks@.len(),
            all == tables@.tasks,
            forall|id: Seq<char>| #[trigger]
                text::views(out@).contains(id) <==> task_protected(all.take(i as int), id),
        decreases tables.tasks@.len() - i,
    {
        assert(all[i as int] == tables.tasks@[i as int]@);
        let ghost before = text::views(out@);
        let ghost head = all.take(i as int);
        let ghost more = all.take(i + 1);
        if !is_terminal_status(tables.tasks[i].status.as_str()) {
            out.push(tables.tasks[i].id.clone());
            assert(text::views(out@) =~= before.push(all[i as int].id));
        }
        let ghost now = text::views(out@);
        assert forall|id: Seq<char>| #[trigger] now.contains(id) <==> task_protected(more, id) by {
            if task_protected(more, id) {
                let k = choose|k: int| 0 <= k < more.len() && protects_task(#[trigger] more[k], id);
                if k < i {
                    assert(protects_task(head[k], id));
                    assert(before.contains(id));
                    let m = choose|m: int| 0 <= m < before.len() && before[m] == id;
                    assert(now[m] == id);
                } else {
                    assert(now[before.len() as int] == id);
                }
            }
            if now.contains(id) {
                let m = choose|m: int| 0 <= m < now.len() && now[m] == id;
                if m < before.len() {
                    assert(before[m] == id);
                    assert(before.contains(id));
                    let k = choose|k: int|
                        0 <= k < head.len() && protects_task(#[trigger] head[k], id);
                    assert(protects_task(more[k], id));
                } else {
                    assert(protects_task(more[i as int], id));
                }
            }
        }
        i = i + 1;
    }
    assert(all.take(i as int) =~= all);
    out
}

/// The places in which runs with a living process work.
pub fn protected_worktree_paths(tables: &Store, alive: &Vec<u32>) -> (out: Vec<String>)
    ensures
        forall|path: Seq<char>| #[trigger]
            text::views(out@).contains(path) <==> path_protected(tables@.runs, alive@, path),
{
    let ghost all = tables@.runs;
    let mut out: Vec<String> = Vec::new();
    let mut i: usize = 0;
    while i < tables.runs.len()
        invariant
            i <= tables.runs@.len(),
            all == tables@.runs,
            forall|path: Seq<char>| #[trigger]
                text::views(out@).contains(path) <==> path_protected(
                    all.take(i as int),
                    alive@,
                    path,
                ),
        decreases tables.runs@.len() - i,
    {
        assert(all[i as int] == tables.runs@[i as int]@);
        let ghost before = text::views(out@);
        let ghost head = all.take(i as int);
        let ghost more = all.take(i + 1);
        if claims::is_run_active(tables.runs[i].status.as_str()) && !is_interrupted(
            &tables.runs[i],
            alive,
        ) {
            out.push(tables.runs[i].workspace_path.clone());
            assert(text::views(out@) =~= before.push(all[i as int].workspace_path));
        }
        let ghost now = text::views(out@);
        assert forall|path: Seq<char>| #[trigger] now.contains(path) <==> path_protected(
            more,
            alive@,
            path,
        ) by {
            if path_protected(more, alive@, path) {
                let k = choose|k: int|
                    0 <= k < more.len() && protects_path(#[trigger] more[k], alive@, path);
                if k < i {
                    assert(protects_path(head[k], alive@, path));
                    assert(before.contains(path));
                    let m = choose|m: int| 0 <= m < before.len() && before[m] == path;
                    assert(now[m] == path);
                } else {
                    assert(now[before.len() as int] == path);
                }
            }
            if now.contains(path) {
                let m = choose|m: int| 0 <= m < now.len() && now[m] == path;
                if m < before.len() {
                    assert(before[m] == path);
                    assert(before.contains(path));
                    let k = choose|k: int|
                        0 <= k < head.len() && protects_path(#[trigger] head[k], alive@, path);
                    assert(protects_path(more[k], alive@, path));
                } else {
                    assert(protects_path(more[i as int], alive@, path));
                }
            }
        }
        i = i + 1;
    }
    assert(all.take(i as int) =~= all);
    out
}

/// A directory among the worktrees.
#[derive(Debug, Clone, PartialEq, Eq)]
pub struct Worktree {
    /// The directory's name, which is the id of its task.
    pub name: String,
    /// Where the directory stands.
    pub path: String,
    /// Where the directory stands, with links resolved.
    pub canonical_path: String,
}

/// The contents of a worktree.
pub struct WorktreeView {
    pub name: Seq<char>,
    pub path: Seq<char>,
    pub canonical_path: Seq<char>,
}

impl View for Worktree {
    type V = WorktreeView;

    open spec fn view(&self) -> WorktreeView {
        WorktreeView {
            name: self.name@,
            path: self.path@,
            canonical_path: self.canonical_path@,
        }
    }
}

/// Nobody needs the worktree: neither its task nor a run in it is protected.
pub open spec fn orphaned(
    w: WorktreeView,
    task_ids: Seq<Seq<char>>,
    paths: Seq<Seq<char>>,
) -> bool {
    !task_ids.contains(w.name) && !paths.contains(w.canonical_path)
}

/// Worktrees by name.
pub open spec fn by_name() -> spec_fn(WorktreeView, WorktreeView) -> bool {
    |a: WorktreeView, b: WorktreeView| text::text_lt(a.name, b.name)
}

/// The worktrees that nobody needs, as they stand.
pub open spec fn orphans(
    list: Seq<WorktreeView>,
    task_ids: Seq<Seq<char>>,
    paths: Seq<Seq<char>>,
) -> Seq<WorktreeView> {
    list.filter(|w: WorktreeView| orphaned(w, task_ids, paths))
}

impl rows::Ordered for Worktree {
    open spec fn before() -> spec_fn(WorktreeView, WorktreeView) -> bool {
        by_name()
    }

    fn precedes(&self, other: &Worktree) -> (out: bool) {
        text::text_less(self.name.as_str(), other.name.as_str())
    }
}

/// The worktrees that nobody needs, by name.
pub fn orphaned_worktrees(
    list: &Vec<Worktree>,
    protected_task_ids: &Vec<String>,
    protected_paths: &Vec<String>,
) -> (out: Vec<Worktree>)
    ensures
        rows::contents(out@) == rows::in_order(
            orphans(
                rows::contents(list@),
                text::views(protected_task_ids@),
                text::views(protected_paths@),
            ),
            by_name(),
        ),
{
    let ghost all = rows::contents(list@);
    let ghost wanted = |w: WorktreeView|
        orphaned(w, text::views(protected_task_ids@), text::views(protected_paths@));
    let mut out: Vec<Worktree> = Vec::new();
    let mut i: usize = 0;
    proof {
        reveal(Seq::filter);
        assert(rows::contents(out@) =~= all.take(0).filter(wanted));
    }
    while i < list.len()
        invariant
            i <= list@.len(),
            all == rows::contents(list@),
            wanted == (|w: WorktreeView|
                orphaned(w, text::views(protected_task_ids@), text::views(protected_paths@))),
            rows::contents(out@) == all.take(i as int).filter(wanted),
        decreases list@.len() - i,
    {
        let ghost head = all.take(i as int);
        let ghost more = all.take(i + 1);
        assert(more.drop_last() =~= head);
        assert(more.last() == all[i as int]);
        assert(all[i as int] == list@[i as int]@);
        proof {
            reveal(Seq::filter);
        }
        if !text::list_contains(protected_task_ids, list[i].name.as_str()) && !text::list_contains(
            protected_paths,
            list[i].canonical_path.as_str(),
        ) {
            let row = Worktree {
                name: list[i].name.clone(),
                path: list[i].path.clone(),
                canonical_path: list[i].canonical_path.clone(),
            };
            let ghost before = rows::contents(out@);
            out.push(row);
            assert(rows::contents(out@) =~= before.push(row@));
            assert(more.filter(wanted) =~= before.push(row@));
        }
        i = i + 1;
    }
    assert(all.take(i as int) =~= all);
    rows::sort(out)
}

// -------------------------------------------------------------------- laws

proof fn lemma_interrupted_is_over()
    ensures
        !claims::run_active("interrupted"@),
{
    reveal_strlit("interrupted");
    reveal_strlit("running");
    reveal_strlit("checking");
    reveal_strlit("reviewing");
    assert("interrupted"@[0] == 'i' && "running"@[0] == 'r');
    assert("checking"@[0] == 'c' && "reviewing"@[0] == 'r');
}

proof fn lemma_no_interruptions(runs: Seq<RunView>, alive: Seq<u32>, now: Instant)
    requires
        forall|i: int| 0 <= i < runs.len() ==> !interrupted(#[trigger] runs[i], alive),
    ensures
        interruption_events(runs, alive, now).len() == 0,
    decreases runs.len(),
{
    if runs.len() > 0 {
        assert(!interrupted(runs[runs.len() - 1], alive));
        assert forall|i: int| 0 <= i < runs.drop_last().len() implies !interrupted(
            #[trigger] runs.drop_last()[i],
            alive,
        ) by {
            assert(runs.drop_last()[i] == runs[i]);
        }
        lemma_no_interruptions(runs.drop_last(), alive, now);
    }
}

proof fn lemma_no_expiries(tasks: Seq<TaskView>, now: Instant)
    requires
        forall|i: int| 0 <= i < tasks.len() ==> !expired(#[trigger] tasks[i], now),
    ensures
        expiry_events(tasks, now).len() == 0,
    decreases tasks.len(),
{
    if tasks.len() > 0 {
        assert(!expired(tasks[tasks.len() - 1], now));
        assert forall|i: int| 0 <= i < tasks.drop_last().len() implies !expired(
            #[trigger] tasks.drop_last()[i],
            now,
        ) by {
            assert(tasks.drop_last()[i] == tasks[i]);
        }
        lemma_no_expiries(tasks.drop_last(), now);
    }
}

/// Recovery is complete: right after it there is nothing left to repair.
pub proof fn law_recovery_is_complete(
    s: StoreView,
    state: Option<StateView>,
    alive: Seq<u32>,
    now: Instant,
)
    ensures
        recovery_due(
            recovered(s, state, alive, now),
            match state {
                Some(known) => Some(state_recovered(known, now)),
                None => None,
            },
            alive,
            now,
        ) == (RuntimeRecovery {
            interrupted_runs: 0,
            expired_task_leases: 0,
            state_lease_mirrors_cleared: 0,
        }),
{
    let after = recovered(s, state, alive, now);
    lemma_interrupted_is_over();
    assert forall|i: int| 0 <= i < after.runs.len() implies !interrupted(
        #[trigger] after.runs[i],
        alive,
    ) by {}
    lemma_no_interruptions(after.runs, alive, now);
    assert forall|i: int| 0 <= i < after.tasks.len() implies !expired(
        #[trigger] after.tasks[i],
        now,
    ) by {}
    lemma_no_expiries(after.tasks, now);
}

/// Recovery spares what works: a run with a living process and a task whose
/// lease runs stay as they are, and the tables stay keyed.
pub proof fn law_recovery_spares_the_living(
    s: StoreView,
    state: Option<StateView>,
    alive: Seq<u32>,
    now: Instant,
)
    requires
        store::keyed(s),
    ensures
        ({
            let after = recovered(s, state, alive, now);
            &&& store::keyed(after)
            &&& after.runs.len() == s.runs.len() && after.tasks.len() == s.tasks.len()
            &&& forall|i: int|
                0 <= i < s.runs.len() && !interrupted(s.runs[i], alive)
                    ==> #[trigger] after.runs[i] == s.runs[i]
            &&& forall|i: int|
                0 <= i < s.tasks.len() && !expired(s.tasks[i], now)
                    ==> #[trigger] after.tasks[i] == s.tasks[i]
            &&& forall|i: int|
                0 <= i < s.tasks.len() ==> (#[trigger] after.tasks[i]).status == s.tasks[i].status
        }),
{
    let after = recovered(s, state, alive, now);
    assert(store::task_ids(after.tasks) =~= store::task_ids(s.tasks));
    assert(store::run_ids(after.runs) =~= store::run_ids(s.runs));
}

/// What is said of a worktree that git did not remove.
pub open spec fn worktree_problem(path: Seq<char>, stderr: Seq<char>, status: Seq<char>) -> Seq<
    char,
> {
    "Failed to remove orphaned worktree at "@ + path + ": "@ + (if text::trim(stderr).len() == 0 {
        status
    } else {
        text::trim(stderr)
    })
}

/// What is said of a worktree that git did not remove.
pub fn worktree_failure(path: &str, stderr: &Vec<u8>, status: &str) -> (out: String)
    ensures
        out@ == worktree_problem(path@, runner::lossy_text(stderr@), status@),
{
    let mut out: String = "Failed to remove orphaned worktree at ".to_owned();
    out.append(path);
    out.append(": ");
    let told: String = text::trim_string(runner::text_of_bytes(stderr).as_str());
    if told.as_str().is_empty() {
        out.append(status);
    } else {
        out.append(told.as_str());
    }
    out
}

// ------------------------------------------------------------------ what recovery is for

/// Whether a task is over: idle, reset, complete or failed. A task that is pending,
/// executing, consulting, in review, addressed or waiting for a human is not.
pub open spec fn is_over(t: TaskView) -> bool {
    t.status == "idle"@ || t.status == "reset"@ || t.status == "complete"@ || t.status == "failed"@
}

/// Whether a run is noted as running, checking or reviewing.
pub open spec fn noted_active(r: RunView) -> bool {
    r.status == "running"@ || r.status == "checking"@ || r.status == "reviewing"@
}

/// Whether the process of a run lives.
pub open spec fn process_lives(r: RunView, alive: Seq<u32>) -> bool {
    r.pid matches Some(pid) && alive.contains(pid)
}

/// A worktree is protected by its name exactly if the tables have a task with that id
/// that is not over, and by its place exactly if a run that is noted as active works
/// there with a process that lives.
pub proof fn law_work_protects_its_worktree(
    tasks: Seq<TaskView>,
    runs: Seq<RunView>,
    alive: Seq<u32>,
    name: Seq<char>,
    path: Seq<char>,
)
    ensures
        task_protected(tasks, name) <==> exists|i: int|
            0 <= i < tasks.len() && (#[trigger] tasks[i]).id == name && !is_over(tasks[i]),
        path_protected(runs, alive, path) <==> exists|i: int|
            0 <= i < runs.len() && (#[trigger] runs[i]).workspace_path == path && noted_active(
                runs[i],
            ) && process_lives(runs[i], alive),
{
    if task_protected(tasks, name) {
        let i = choose|i: int| 0 <= i < tasks.len() && protects_task(#[trigger] tasks[i], name);
        assert(tasks[i].id == name && !is_over(tasks[i]));
    }
    if exists|i: int|
        0 <= i < tasks.len() && (#[trigger] tasks[i]).id == name && !is_over(tasks[i]) {
        let i = choose|i: int|
            0 <= i < tasks.len() && (#[trigger] tasks[i]).id == name && !is_over(tasks[i]);
        assert(protects_task(tasks[i], name));
    }
    if path_protected(runs, alive, path) {
        let i = choose|i: int|
            0 <= i < runs.len() && protects_path(#[trigger] runs[i], alive, path);
        assert(runs[i].workspace_path == path && noted_active(runs[i]) && process_lives(
            runs[i],
            alive,
        ));
    }
    if exists|i: int|
        0 <= i < runs.len() && (#[trigger] runs[i]).workspace_path == path && noted_active(runs[i])
            && process_lives(runs[i], alive) {
        let i = choose|i: int|
            0 <= i < runs.len() && (#[trigger] runs[i]).workspace_path == path && noted_active(
                runs[i],
            ) && process_lives(runs[i], alive);
        assert(protects_path(runs[i], alive, path));
    }
}

/// Whether a worktree is needed: it bears the id of a task that is not over, or a run
/// that is noted as active works in it with a process that lives.
pub open spec fn is_needed(
    w: WorktreeView,
    tasks: Seq<TaskView>,
    runs: Seq<RunView>,
    alive: Seq<u32>,
) -> bool {
    ||| exists|i: int| 0 <= i < tasks.len() && (#[trigger] tasks[i]).id == w.name && !is_over(tasks[i])
    ||| exists|i: int|
        0 <= i < runs.len() && (#[trigger] runs[i]).workspace_path == w.canonical_path
            && noted_active(runs[i]) && process_lives(runs[i], alive)
}

/// The order by name is one.
proof fn lemma_by_name()
    ensures
        rows::is_order(by_name()),
{
    let f = by_name();
    assert forall|a: WorktreeView| !#[trigger] f(a, a) by {
        crate::project::order::lemma_text_order(a.name, a.name, a.name);
    }
    assert forall|a: WorktreeView, b: WorktreeView, c: WorktreeView| #[trigger]
        f(a, b) && #[trigger] f(b, c) implies f(a, c) by {
        crate::project::order::lemma_text_order(a.name, b.name, c.name);
    }
    assert forall|a: WorktreeView, b: WorktreeView, c: WorktreeView| #[trigger]
        f(a, b) && !(#[trigger] f(a, c)) implies f(c, b) by {
        crate::project::order::lemma_text_order(a.name, b.name, c.name);
    }
}

/// Exactly the worktrees that nobody needs are orphaned: with the ids and the places
/// that the tables protect, a worktree is listed as orphaned if and only if it is one
/// of the given ones and is not needed. They are listed by name.
pub proof fn law_needed_worktrees_stay(
    list: Seq<WorktreeView>,
    tasks: Seq<TaskView>,
    runs: Seq<RunView>,
    alive: Seq<u32>,
    ids: Seq<Seq<char>>,
    paths: Seq<Seq<char>>,
    w: WorktreeView,
)
    requires
        forall|id: Seq<char>| #[trigger] ids.contains(id) <==> task_protected(tasks, id),
        forall|path: Seq<char>| #[trigger]
            paths.contains(path) <==> path_protected(runs, alive, path),
    ensures
        rows::in_order(orphans(list, ids, paths), by_name()).contains(w) <==> list.contains(w)
            && !is_needed(w, tasks, runs, alive),
        forall|i: int, j: int|
            0 <= i < j < rows::in_order(orphans(list, ids, paths), by_name()).len()
                ==> !text::text_lt(
                (#[trigger] rows::in_order(orphans(list, ids, paths), by_name())[j]).name,
                (#[trigger] rows::in_order(orphans(list, ids, paths), by_name())[i]).name,
            ),
{
    broadcast use vstd::seq_lib::group_to_multiset_ensures;

    lemma_by_name();
    let kept = orphans(list, ids, paths);
    let sorted = rows::in_order(kept, by_name());
    rows::lemma_in_order(kept, by_name());
    assert(sorted.contains(w) <==> sorted.to_multiset().count(w) > 0);
    assert(kept.contains(w) <==> kept.to_multiset().count(w) > 0);
    let wanted = |x: WorktreeView| orphaned(x, ids, paths);
    rows::lemma_kept(list, wanted, w);
    law_work_protects_its_worktree(tasks, runs, alive, w.name, w.canonical_path);
}

/// What recovery does to each run and each task. A run that is noted as active without
/// a process that lives is interrupted now and has no process any more; every other
/// run stays as it is. A task that names an owner whose lease does not run loses the
/// owner and the lease and nothing else; every other task stays as it is.
pub proof fn law_recovery_repairs_each_row(
    s: StoreView,
    state: Option<StateView>,
    alive: Seq<u32>,
    now: Instant,
    i: int,
)
    ensures
        ({
            let after = recovered(s, state, alive, now);
            &&& after.runs.len() == s.runs.len()
            &&& after.tasks.len() == s.tasks.len()
            &&& s.events.is_prefix_of(after.events)
            &&& 0 <= i < s.runs.len() ==> after.runs[i] == if noted_active(s.runs[i])
                && !process_lives(s.runs[i], alive) {
                RunView {
                    status: "interrupted"@,
                    updated_at: clock::rfc3339_text(now.secs, now.nanos, true),
                    pid: None,
                    ..s.runs[i]
                }
            } else {
                s.runs[i]
            }
            &&& 0 <= i < s.tasks.len() ==> after.tasks[i] == if s.tasks[i].claimed_by is Some
                && !clock::lies_ahead(s.tasks[i].lease_until, now) {
                TaskView { claimed_by: None, lease_until: None, last_heartbeat: None, ..s.tasks[i] }
            } else {
                s.tasks[i]
            }
        }),
{
    let after = recovered(s, state, alive, now);
    assert(s.events =~= after.events.take(s.events.len() as int));
}

proof fn lemma_repairs_counted(s: StoreView, alive: Seq<u32>, now: Instant)
    ensures
        interruption_events(s.runs, alive, now).len() == s.runs.filter(
            |r: RunView| noted_active(r) && !process_lives(r, alive),
        ).len(),
        expiry_events(s.tasks, now).len() == s.tasks.filter(
            |t: TaskView| t.claimed_by is Some && !clock::lies_ahead(t.lease_until, now),
        ).len(),
    decreases s.runs.len() + s.tasks.len(),
{
    reveal(Seq::filter);
    if s.runs.len() > 0 {
        lemma_repairs_counted(StoreView { runs: s.runs.drop_last(), ..s }, alive, now);
    }
    if s.tasks.len() > 0 {
        lemma_repairs_counted(StoreView { tasks: s.tasks.drop_last(), ..s }, alive, now);
    }
}

/// What recovery reports is what it repairs: as many runs as are noted as active without
/// a process that lives, as many leases as name an owner and do not run, and one lease in
/// the kept state, where that names an owner and has run out. That one is cleared from
/// the state, of which nothing else changes. Each repair is told by an event.
pub proof fn law_recovery_reports_its_repairs(
    s: StoreView,
    state: Option<StateView>,
    alive: Seq<u32>,
    now: Instant,
)
    requires
        s.runs.len() <= usize::MAX,
        s.tasks.len() <= usize::MAX,
    ensures
        ({
            let report = recovery_due(s, state, alive, now);
            let stale = state matches Some(kept) && kept.claimed_by is Some && !(
            kept.lease_until matches Some(end) && (now.secs < end.secs || (now.secs == end.secs
                && now.nanos < end.nanos)));
            &&& report.interrupted_runs == s.runs.filter(
                |r: RunView| noted_active(r) && !process_lives(r, alive),
            ).len()
            &&& report.expired_task_leases == s.tasks.filter(
                |t: TaskView| t.claimed_by is Some && !clock::lies_ahead(t.lease_until, now),
            ).len()
            &&& report.state_lease_mirrors_cleared == if stale {
                1int
            } else {
                0
            }
            &&& state is Some ==> state_recovered(state->0, now) == if stale {
                StateView {
                    claimed_by: None,
                    lease_until: None,
                    last_heartbeat: None,
                    ..state->0
                }
            } else {
                state->0
            }
            &&& recovered(s, state, alive, now).events.len() == s.events.len()
                + report.interrupted_runs + report.expired_task_leases
                + report.state_lease_mirrors_cleared
        }),
{
    lemma_repairs_counted(s, alive, now);
    s.runs.lemma_filter_len(|r: RunView| noted_active(r) && !process_lives(r, alive));
    s.tasks.lemma_filter_len(
        |t: TaskView| t.claimed_by is Some && !clock::lies_ahead(t.lease_until, now),
    );
}

/// The processes that are asked about are those of the runs that are noted as active.
pub proof fn law_active_processes_are_noted(runs: Seq<RunView>, pid: u32)
    ensures
        active_process(runs, pid) <==> exists|i: int|
            0 <= i < runs.len() && noted_active(#[trigger] runs[i]) && runs[i].pid == Some(pid),
{
    if active_process(runs, pid) {
        let i = choose|i: int| 0 <= i < runs.len() && runs_as(#[trigger] runs[i], pid);
        assert(noted_active(runs[i]));
    }
    if exists|i: int|
        0 <= i < runs.len() && noted_active(#[trigger] runs[i]) && runs[i].pid == Some(pid) {
        let i = choose|i: int|
            0 <= i < runs.len() && noted_active(#[trigger] runs[i]) && runs[i].pid == Some(pid);
        assert(runs_as(runs[i], pid));
    }
}

/// Each repair is told by an event of its own: of a run that was interrupted under that
/// run, and of a lease that ran out with the task, the owner and the end of the lease.
pub proof fn law_repairs_are_told(
    runs: Seq<RunView>,
    run: RunView,
    tasks: Seq<TaskView>,
    task: TaskView,
    alive: Seq<u32>,
    now: Instant,
)
    ensures
        !interrupted(run, alive) ==> interruption_events(runs.push(run), alive, now)
            == interruption_events(runs, alive, now),
        interrupted(run, alive) ==> {
            let events = interruption_events(runs.push(run), alive, now);
            &&& events.drop_last() == interruption_events(runs, alive, now)
            &&& events.last().run_id == Some(run.id)
            &&& events.last().event_type == "run_interrupted"@
        },
        !expired(task, now) ==> expiry_events(tasks.push(task), now) == expiry_events(tasks, now),
        expired(task, now) ==> {
            let events = expiry_events(tasks.push(task), now);
            &&& events.drop_last() == expiry_events(tasks, now)
            &&& events.last().event_type == "task_lease_expired"@
            &&& json::text_of(json::field(events.last().payload, "task_id"@)) == Some(task.id)
            &&& json::text_of(json::field(events.last().payload, "claimed_by"@)) == task.claimed_by
            &&& json::text_of(json::field(events.last().payload, "lease_until"@))
                == task.lease_until
        },
{
    assert(runs.push(run).drop_last() =~= runs);
    assert(tasks.push(task).drop_last() =~= tasks);
    let before = interruption_events(runs, alive, now);
    let told = store::draft(Some(run.id), "run_interrupted"@, Seq::empty(), now);
    assert(before.push(told).drop_last() =~= before);
    store::law_event_tells_its_items(
        Some(run.id),
        "run_interrupted"@,
        Seq::empty(),
        now,
        Seq::empty(),
        0,
    );
    reveal_strlit("task_id");
    reveal_strlit("claimed_by");
    reveal_strlit("lease_until");
    assert("task_id"@.len() == 7 && "claimed_by"@.len() == 10 && "lease_until"@.len() == 11);
    let items = seq![
        store::text_item("task_id"@, task.id),
        store::opt_text_item("claimed_by"@, task.claimed_by),
        store::opt_text_item("lease_until"@, task.lease_until),
    ];
    let event = store::draft(None, "task_lease_expired"@, items, now);
    let earlier = expiry_events(tasks, now);
    assert(earlier.push(event).drop_last() =~= earlier);
    store::law_event_tells_its_items(None, "task_lease_expired"@, items, now, Seq::empty(), 0);
    store::law_event_tells_its_items(None, "task_lease_expired"@, items, now, Seq::empty(), 1);
    store::law_event_tells_its_items(None, "task_lease_expired"@, items, now, Seq::empty(), 2);
}

/// Where a lease in the kept state ran out, the event tells whose it was and on what.
pub proof fn law_cleared_lease_is_told(state: StateView, now: Instant)
    ensures
        mirror_event(state, now).event_type == "state_lease_mirror_cleared"@,
        json::text_of(json::field(mirror_event(state, now).payload, "task_id"@))
            == state.active_task_id,
        json::text_of(json::field(mirror_event(state, now).payload, "claimed_by"@))
            == state.claimed_by,
        json::text_of(json::field(mirror_event(state, now).payload, "lease_until"@)) is Some
            <==> state.lease_until is Some,
{
    reveal_strlit("task_id");
    reveal_strlit("claimed_by");
    reveal_strlit("lease_until");
    assert("task_id"@.len() == 7 && "claimed_by"@.len() == 10 && "lease_until"@.len() == 11);
    let items = seq![
        store::opt_text_item("task_id"@, state.active_task_id),
        store::opt_text_item("claimed_by"@, state.claimed_by),
        store::opt_text_item("lease_until"@, lease_text(state.lease_until)),
    ];
    let kind = "state_lease_mirror_cleared"@;
    store::law_event_tells_its_items(None, kind, items, now, Seq::empty(), 0);
    store::law_event_tells_its_items(None, kind, items, now, Seq::empty(), 1);
    store::law_event_tells_its_items(None, kind, items, now, Seq::empty(), 2);
}

} // verus!
