//! Runs of agents: their start and end, and the tasks they are attached to.
use vstd::prelude::*;
use vstd::string::*;

use crate::clock;
use crate::clock::Instant;
use crate::project::claims;
use crate::project::order;
use crate::project::store;
use crate::project::store::Store;
use crate::project::store::StoreView;
use crate::project::tasks;
use crate::project::tasks::UnknownRun;
use crate::project::ContextView;
use crate::project::RunRecord;
use crate::project::RunView;
use crate::project::RuntimeTaskContext;
use crate::project::TaskView;
use crate::rows;
use crate::state::StateData;
use crate::text;

verus! {

// -------------------------------------------------------------------- model

/// A run that starts now.
pub open spec fn started_run(
    run_id: Seq<char>,
    task_id: Seq<char>,
    role: Seq<char>,
    agent: Seq<char>,
    pid: u32,
    workspace_path: Seq<char>,
    now: Instant,
) -> RunView {
    RunView {
        id: run_id,
        task_id,
        role,
        agent,
        status: "running"@,
        started_at: clock::stamp(now),
        updated_at: clock::stamp(now),
        pid: Some(pid),
        workspace_path,
    }
}

/// The runs with one that starts; a run with its id is restarted where it
/// stands.
pub open spec fn run_put(runs: Seq<RunView>, run: RunView) -> Seq<RunView> {
    match store::find_run(runs, run.id) {
        Some(known) => store::set_run(
            runs,
            run.id,
            RunView {
                status: run.status,
                updated_at: run.updated_at,
                pid: run.pid,
                workspace_path: run.workspace_path,
                ..known
            },
        ),
        None => runs.push(run),
    }
}

/// The tables after a run started.
pub open spec fn run_start_recorded(
    s: StoreView,
    task_path: Seq<char>,
    run: RunView,
    now: Instant,
) -> StoreView {
    let known = claims::task_ensured(s, run.task_id, task_path);
    store::with_event(
        StoreView { runs: run_put(known.runs, run), ..known },
        store::draft(
            Some(run.id),
            "run_started"@,
            seq![
                store::text_item("role"@, run.role),
                store::text_item("agent"@, run.agent),
                store::number_item("pid"@, run.pid->0 as int),
            ],
            now,
        ),
    )
}

/// The status in which a run ends.
pub open spec fn end_status(exit_code: i32) -> Seq<char> {
    if exit_code == 0 {
        "completed"@
    } else {
        "failed"@
    }
}

/// The tables after a run ended.
pub open spec fn run_end_recorded(
    s: StoreView,
    run_id: Seq<char>,
    exit_code: i32,
    now: Instant,
) -> StoreView {
    let r = store::find_run(s.runs, run_id)->0;
    store::with_event(
        StoreView {
            runs: store::set_run(
                s.runs,
                run_id,
                RunView {
                    status: end_status(exit_code),
                    updated_at: clock::stamp(now),
                    pid: None,
                    ..r
                },
            ),
            ..s
        },
        store::draft(
            Some(run_id),
            "run_finished"@,
            seq![
                store::number_item("exit_code"@, exit_code as int),
                store::text_item("status"@, end_status(exit_code)),
            ],
            now,
        ),
    )
}

/// The runs of an agent that are under way.
pub open spec fn active_run_of(agent: Seq<char>) -> spec_fn(RunView) -> bool {
    |r: RunView| r.agent == agent && claims::run_active(r.status)
}

/// The tables after a run was attached to a task.
pub open spec fn run_attached(
    s: StoreView,
    k: int,
    event_type: Seq<char>,
    agent: Seq<char>,
    task_id: Seq<char>,
    now: Instant,
) -> StoreView {
    store::with_event(
        StoreView {
            runs: s.runs.update(
                k,
                RunView { task_id, updated_at: clock::stamp(now), ..s.runs[k] },
            ),
            ..s
        },
        store::draft(
            Some(s.runs[k].id),
            event_type,
            seq![store::text_item("agent"@, agent), store::text_item("task_id"@, task_id)],
            now,
        ),
    )
}

/// Attaching the run that an agent started last to a task.
pub open spec fn attach_to_task(
    s: StoreView,
    agent: Seq<char>,
    task_id: Seq<char>,
    task_path: Seq<char>,
    now: Instant,
) -> claims::Outcome<Option<Seq<char>>> {
    let known = claims::task_ensured(s, task_id, task_path);
    let k = rows::pick(known.runs, active_run_of(agent), order::by_start());
    if k < 0 {
        claims::Outcome { tables: known, result: None }
    } else {
        claims::Outcome {
            tables: run_attached(known, k, "run_task_attached"@, agent, task_id, now),
            result: Some(known.runs[k].id),
        }
    }
}

/// A supervisor is at work on the task.
pub open spec fn supervised(runs: Seq<RunView>, task_id: Seq<char>) -> bool {
    exists|i: int| 0 <= i < runs.len() && supervises(#[trigger] runs[i], task_id)
}

/// The run is that of a supervisor at work on the task.
pub open spec fn supervises(r: RunView, task_id: Seq<char>) -> bool {
    r.task_id == task_id && r.role == "supervisor"@ && claims::run_active(r.status)
}

/// The tasks that wait for a consultation that no supervisor attends to.
pub open spec fn unattended(runs: Seq<RunView>) -> spec_fn(TaskView) -> bool {
    |t: TaskView| t.status == "consultation"@ && !supervised(runs, t.id)
}

/// The consultation that a run attends to already.
pub open spec fn attended_task(s: StoreView, r: RunView) -> Option<TaskView> {
    match store::find_task(s.tasks, r.task_id) {
        Some(t) => if t.status == "consultation"@ {
            Some(t)
        } else {
            None
        },
        None => None,
    }
}

/// Attaching an agent's latest run to a consultation. The run keeps the
/// consultation that it attends to; else it takes the wanted task, or the first
/// by id, that waits for a consultation that no supervisor attends to.
pub open spec fn attach_consultation(
    s: StoreView,
    wanted: Option<Seq<char>>,
    agent: Seq<char>,
    now: Instant,
) -> claims::Outcome<Option<ContextView>> {
    let k = rows::pick(s.runs, active_run_of(agent), order::by_recency());
    if k < 0 {
        claims::Outcome { tables: s, result: None }
    } else {
        let r = s.runs[k];
        match attended_task(s, r) {
            Some(t) => claims::Outcome {
                tables: s,
                result: if wanted is None || wanted == Some(t.id) {
                    Some(claims::context_of(t, Some(r.id), None))
                } else {
                    None
                },
            },
            None => {
                let c = match wanted {
                    Some(id) => if store::find_task(s.tasks, id) is Some && unattended(s.runs)(
                        store::find_task(s.tasks, id)->0,
                    ) {
                        store::task_index(s.tasks, id)
                    } else {
                        -1
                    },
                    None => rows::pick(s.tasks, unattended(s.runs), order::by_id()),
                };
                if c < 0 {
                    claims::Outcome { tables: s, result: None }
                } else {
                    let t = s.tasks[c];
                    claims::Outcome {
                        tables: run_attached(
                            s,
                            k,
                            "run_consultation_attached"@,
                            agent,
                            t.id,
                            now,
                        ),
                        result: Some(claims::context_of(t, Some(r.id), None)),
                    }
                }
            },
        }
    }
}

// ---------------------------------------------------------------- execution

/// Records that a run started on the task under way.
pub fn record_run_started_with_workspace(
    tables: &mut Store,
    known: Option<&StateData>,
    run_id: &str,
    role: &str,
    agent: &str,
    pid: u32,
    workspace_path: &str,
    now: Instant,
) -> (out: RunRecord)
    requires
        now.wf(),
    ensures
        out@ == started_run(
            run_id@,
            tasks::current_id(tasks::opt_state(known)),
            role@,
            agent@,
            pid,
            workspace_path@,
            now,
        ),
        final(tables)@ == run_start_recorded(
            old(tables)@,
            tasks::current_path(tasks::opt_state(known)),
            out@,
            now,
        ),
{
    let (task_id, task_path): (String, String) = tasks::current_task_identity(known);
    let run = RunRecord {
        id: run_id.to_owned(),
        task_id: task_id.clone(),
        role: role.to_owned(),
        agent: agent.to_owned(),
        status: "running".to_owned(),
        started_at: clock::timestamp(now),
        updated_at: clock::timestamp(now),
        pid: Some(pid),
        workspace_path: workspace_path.to_owned(),
    };
    claims::ensure_task_exists(tables, task_id.as_str(), task_path.as_str());
    match tables.run_position(run_id) {
        Some(i) => {
            let mut row: RunRecord = tables.runs[i].copy();
            row.status = run.status.clone();
            row.updated_at = run.updated_at.clone();
            row.pid = run.pid;
            row.workspace_path = run.workspace_path.clone();
            tables.put_run(i, row);
        },
        None => {
            tables.push_run(run.copy());
        },
    }
    tables.record(
        Some(run_id.to_owned()),
        "run_started",
        store::payload_of_3(
            store::text_entry("role", role),
            store::text_entry("agent", agent),
            store::number_entry("pid", pid as i64),
        ),
        now,
    );
    run
}

/// Records that a run ended.
pub fn record_run_finished(
    tables: &mut Store,
    run_id: &str,
    exit_code: i32,
    now: Instant,
) -> (out: Result<(), UnknownRun>)
    requires
        now.wf(),
    ensures
        out is Ok <==> store::find_run(old(tables)@.runs, run_id@) is Some,
        out is Ok ==> final(tables)@ == run_end_recorded(old(tables)@, run_id@, exit_code, now),
        out is Err ==> final(tables)@ == old(tables)@ && out->Err_0.run_id@ == run_id@,
{
    let i: usize = match tables.run_position(run_id) {
        Some(i) => i,
        None => {
            return Err(UnknownRun { run_id: run_id.to_owned() });
        },
    };
    let status: &str = if exit_code == 0 {
        "completed"
    } else {
        "failed"
    };
    let mut row: RunRecord = tables.runs[i].copy();
    row.status = status.to_owned();
    row.updated_at = clock::timestamp(now);
    row.pid = None;
    tables.put_run(i, row);
    tables.record(
        Some(run_id.to_owned()),
        "run_finished",
        store::payload_of_2(
            store::number_entry("exit_code", exit_code as i64),
            store::text_entry("status", status),
        ),
        now,
    );
    Ok(())
}

/// The position of an agent's run under way: the one that started last, or the
/// one that changed last.
fn active_run_position(tables: &Store, agent_id: &str, by_start: bool) -> (out: Option<usize>)
    ensures
        order::at_or_none(out) == rows::pick(
            tables@.runs,
            active_run_of(agent_id@),
            if by_start {
                order::by_start()
            } else {
                order::by_recency()
            },
        ),
        out is Some ==> out->0 < tables.runs@.len(),
{
    let ghost all = tables@.runs;
    let ghost wanted = active_run_of(agent_id@);
    let ghost before = if by_start {
        order::by_start()
    } else {
        order::by_recency()
    };
    let mut best: Option<usize> = None;
    let mut i: usize = 0;
    while i < tables.runs.len()
        invariant
            i <= tables.runs@.len(),
            all == tables@.runs,
            wanted == active_run_of(agent_id@),
            before == (if by_start {
                order::by_start()
            } else {
                order::by_recency()
            }),
            order::at_or_none(best) == rows::pick(all.take(i as int), wanted, before),
            best is Some ==> best->0 < i,
        decreases tables.runs@.len() - i,
    {
        proof {
            order::lemma_pick_next(all, i as int, wanted, before);
        }
        assert(all[i as int] == tables.runs@[i as int]@);
        let fits: bool = text::same(tables.runs[i].agent.as_str(), agent_id)
            && claims::is_run_active(tables.runs[i].status.as_str());
        assert(fits == wanted(all[i as int]));
        if fits {
            let better: bool = match best {
                Some(b) => if by_start {
                    order::started_later(&tables.runs[i], &tables.runs[b])
                } else {
                    order::more_recent(&tables.runs[i], &tables.runs[b])
                },
                None => true,
            };
            if better {
                best = Some(i);
            }
        }
        i = i + 1;
    }
    assert(all.take(i as int) =~= all);
    best
}

fn attach(
    tables: &mut Store,
    k: usize,
    event_type: &str,
    agent_id: &str,
    task_id: &str,
    now: Instant,
) -> (out: String)
    requires
        now.wf(),
        k < old(tables).runs@.len(),
    ensures
        out@ == old(tables)@.runs[k as int].id,
        final(tables)@ == run_attached(
            old(tables)@,
            k as int,
            event_type@,
            agent_id@,
            task_id@,
            now,
        ),
{
    let mut row: RunRecord = tables.runs[k].copy();
    let run_id: String = row.id.clone();
    row.task_id = task_id.to_owned();
    row.updated_at = clock::timestamp(now);
    tables.put_run(k, row);
    tables.record(
        Some(run_id.clone()),
        event_type,
        store::payload_of_2(
            store::text_entry("agent", agent_id),
            store::text_entry("task_id", task_id),
        ),
        now,
    );
    run_id
}

/// Attaches the run that an agent started last to a task.
pub fn attach_running_run_to_task(
    tables: &mut Store,
    agent_id: &str,
    task_id: &str,
    task_path: &str,
    now: Instant,
) -> (out: Option<String>)
    requires
        now.wf(),
    ensures
        ({
            let expected = attach_to_task(old(tables)@, agent_id@, task_id@, task_path@, now);
            final(tables)@ == expected.tables && text::opt_view(out) == expected.result
        }),
{
    claims::ensure_task_exists(tables, task_id, task_path);
    match active_run_position(tables, agent_id, true) {
        Some(k) => Some(attach(tables, k, "run_task_attached", agent_id, task_id, now)),
        None => None,
    }
}

fn is_supervised(tables: &Store, task_id: &str) -> (out: bool)
    ensures
        out == supervised(tables@.runs, task_id@),
{
    let mut i: usize = 0;
    while i < tables.runs.len()
        invariant
            i <= tables.runs@.len(),
            forall|k: int| 0 <= k < i ==> !supervises(#[trigger] tables@.runs[k], task_id@),
        decreases tables.runs@.len() - i,
    {
        assert(tables@.runs[i as int] == tables.runs@[i as int]@);
        if text::same(tables.runs[i].task_id.as_str(), task_id) && text::same(
            tables.runs[i].role.as_str(),
            "supervisor",
        ) && claims::is_run_active(tables.runs[i].status.as_str()) {
            assert(supervises(tables@.runs[i as int], task_id@));
            return true;
        }
        i = i + 1;
    }
    false
}

fn is_unattended(tables: &Store, i: usize) -> (out: bool)
    requires
        i < tables.tasks@.len(),
    ensures
        out == unattended(tables@.runs)(tables@.tasks[i as int]),
{
    text::same(tables.tasks[i].status.as_str(), "consultation") && !is_supervised(
        tables,
        tables.tasks[i].id.as_str(),
    )
}

fn first_unattended(tables: &Store) -> (out: Option<usize>)
    ensures
        order::at_or_none(out) == rows::pick(
            tables@.tasks,
            unattended(tables@.runs),
            order::by_id(),
        ),
        out is Some ==> out->0 < tables.tasks@.len(),
{
    let ghost all = tables@.tasks;
    let ghost wanted = unattended(tables@.runs);
    let mut best: Option<usize> = None;
    let mut i: usize = 0;
    while i < tables.tasks.len()
        invariant
            i <= tables.tasks@.len(),
            all == tables@.tasks,
            wanted == unattended(tables@.runs),
            order::at_or_none(best) == rows::pick(all.take(i as int), wanted, order::by_id()),
            best is Some ==> best->0 < i,
        decreases tables.tasks@.len() - i,
    {
        proof {
            order::lemma_pick_next(all, i as int, wanted, order::by_id());
        }
        assert(all[i as int] == tables.tasks@[i as int]@);
        if is_unattended(tables, i) {
            let better: bool = match best {
                Some(b) => {
                    assert(all[b as int] == tables.tasks@[b as int]@);
                    text::text_less(tables.tasks[i].id.as_str(), tables.tasks[b].id.as_str())
                },
                None => true,
            };
            if better {
                best = Some(i);
            }
        }
        i = i + 1;
    }
    assert(all.take(i as int) =~= all);
    best
}

fn attach_run_to_consultation(
    tables: &mut Store,
    wanted: Option<&str>,
    agent_id: &str,
    now: Instant,
) -> (out: Option<RuntimeTaskContext>)
    requires
        now.wf(),
    ensures
        ({
            let expected = attach_consultation(
                old(tables)@,
                text::opt_str_view(wanted),
                agent_id@,
                now,
            );
            final(tables)@ == expected.tables && claims::opt_context(out) == expected.result
        }),
{
    let k: usize = match active_run_position(tables, agent_id, false) {
        Some(k) => k,
        None => {
            return None;
        },
    };
    let run_id: String = tables.runs[k].id.clone();
    assert(tables@.runs[k as int].id == run_id@);
    if let Some(i) = tables.task_position(tables.runs[k].task_id.as_str()) {
        assert(tables@.tasks[i as int] == tables.tasks@[i as int]@);
        if text::same(tables.tasks[i].status.as_str(), "consultation") {
            let keep: bool = match wanted {
                Some(id) => text::same(tables.tasks[i].id.as_str(), id),
                None => true,
            };
            if keep {
                return Some(claims::context_for(&tables.tasks[i], Some(run_id), None));
            }
            return None;
        }
    }
    let candidate: Option<usize> = match wanted {
        Some(id) => match tables.task_position(id) {
            Some(i) => if is_unattended(tables, i) {
                Some(i)
            } else {
                None
            },
            None => None,
        },
        None => first_unattended(tables),
    };
    match candidate {
        Some(i) => {
            let task_id: String = tables.tasks[i].id.clone();
            let context: RuntimeTaskContext = claims::context_for(
                &tables.tasks[i],
                Some(run_id),
                None,
            );
            attach(tables, k, "run_consultation_attached", agent_id, task_id.as_str(), now);
            Some(context)
        },
        None => None,
    }
}

/// Attaches an agent's latest run to the next consultation.
pub fn attach_running_run_to_next_consultation(
    tables: &mut Store,
    agent_id: &str,
    now: Instant,
) -> (out: Option<RuntimeTaskContext>)
    requires
        now.wf(),
    ensures
        ({
            let expected = attach_consultation(old(tables)@, None, agent_id@, now);
            final(tables)@ == expected.tables && claims::opt_context(out) == expected.result
        }),
{
    attach_run_to_consultation(tables, None, agent_id, now)
}

/// Attaches an agent's latest run to a given consultation.
pub fn attach_running_run_to_consultation(
    tables: &mut Store,
    task_id: &str,
    agent_id: &str,
    now: Instant,
) -> (out: Option<RuntimeTaskContext>)
    requires
        now.wf(),
    ensures
        ({
            let expected = attach_consultation(old(tables)@, Some(task_id@), agent_id@, now);
            final(tables)@ == expected.tables && claims::opt_context(out) == expected.result
        }),
{
    attach_run_to_consultation(tables, Some(task_id), agent_id, now)
}

// -------------------------------------------------------------------- laws

/// A consultation belongs to one supervisor: a supervisor's run is attached to
/// a consultation anew only where no other supervisor's run is at work on it.
pub proof fn law_consultation_is_exclusive(
    s: StoreView,
    wanted: Option<Seq<char>>,
    agent: Seq<char>,
    now: Instant,
)
    requires
        store::keyed(s),
        attach_consultation(s, wanted, agent, now).tables != s,
    ensures
        ({
            let after = attach_consultation(s, wanted, agent, now);
            let task_id = after.result->0.task_id;
            &&& after.result is Some
            &&& !supervised(s.runs, task_id)
            &&& forall|i: int|
                0 <= i < after.tables.runs.len() && supervises(
                    #[trigger] after.tables.runs[i],
                    task_id,
                ) ==> Some(after.tables.runs[i].id) == after.result->0.run_id
        }),
{
    order::lemma_by_recency();
    order::lemma_by_id();
    rows::lemma_pick(s.runs, active_run_of(agent), order::by_recency());
    rows::lemma_pick(s.tasks, unattended(s.runs), order::by_id());
    let k = rows::pick(s.runs, active_run_of(agent), order::by_recency());
    let after = attach_consultation(s, wanted, agent, now);
    let task_id = after.result->0.task_id;
    assert forall|i: int|
        0 <= i < after.tables.runs.len() && supervises(
            #[trigger] after.tables.runs[i],
            task_id,
        ) implies Some(after.tables.runs[i].id) == after.result->0.run_id by {
        if i != k {
            assert(after.tables.runs[i] == s.runs[i]);
        }
    }
}

/// A targeted attachment never takes another task: it gives the wanted task or
/// nothing.
pub proof fn law_targeted_attachment_gives_target(
    s: StoreView,
    wanted: Seq<char>,
    agent: Seq<char>,
    now: Instant,
)
    ensures
        ({
            let result = attach_consultation(s, Some(wanted), agent, now).result;
            result is Some ==> result->0.task_id == wanted
        }),
{
    text::lemma_index_of(store::task_ids(s.tasks), wanted);
    let at = store::task_index(s.tasks, wanted);
    if at < s.tasks.len() {
        assert(store::task_ids(s.tasks)[at] == s.tasks[at].id);
    }
}

/// Attaching keeps the tables keyed and every task; only the attached run
/// changes.
pub proof fn law_attachment_is_local(
    s: StoreView,
    wanted: Option<Seq<char>>,
    agent: Seq<char>,
    now: Instant,
)
    requires
        store::keyed(s),
    ensures
        ({
            let after = attach_consultation(s, wanted, agent, now).tables;
            let k = rows::pick(s.runs, active_run_of(agent), order::by_recency());
            &&& store::keyed(after)
            &&& after.tasks == s.tasks
            &&& after.runs.len() == s.runs.len()
            &&& forall|i: int|
                0 <= i < s.runs.len() && i != k ==> #[trigger] after.runs[i] == s.runs[i]
        }),
{
    let k = rows::pick(s.runs, active_run_of(agent), order::by_recency());
    order::lemma_by_recency();
    rows::lemma_pick(s.runs, active_run_of(agent), order::by_recency());
    let after = attach_consultation(s, wanted, agent, now).tables;
    assert(store::run_ids(after.runs) =~= store::run_ids(s.runs));
}

/// A run that ended is no longer under way and has no process.
pub proof fn law_ended_run_is_over(
    s: StoreView,
    run_id: Seq<char>,
    exit_code: i32,
    now: Instant,
)
    requires
        store::keyed(s),
        store::find_run(s.runs, run_id) is Some,
    ensures
        ({
            let after = run_end_recorded(s, run_id, exit_code, now);
            let r = store::find_run(after.runs, run_id);
            &&& store::keyed(after)
            &&& r is Some && r->0.pid is None && !claims::run_active(r->0.status)
            &&& after.tasks == s.tasks
        }),
{
    let ids = store::run_ids(s.runs);
    text::lemma_index_of(ids, run_id);
    let at = store::run_index(s.runs, run_id);
    assert(ids[at] == s.runs[at].id);
    let row = RunView {
        status: end_status(exit_code),
        updated_at: clock::stamp(now),
        pid: None,
        ..s.runs[at]
    };
    store::lemma_set_run(s.runs, run_id, row);
    reveal_strlit("completed");
    reveal_strlit("failed");
    reveal_strlit("running");
    reveal_strlit("checking");
    reveal_strlit("reviewing");
    assert("completed"@[0] == 'c' && "failed"@[0] == 'f' && "running"@[0] == 'r');
    assert("checking"@[1] == 'h' && "completed"@[1] == 'o' && "reviewing"@[0] == 'r');
    assert("checking"@[0] == 'c');
}

// ------------------------------------------------------------------ the life of a run

/// Whether a run of an agent is noted as running, checking or reviewing.
pub open spec fn at_work(r: RunView, agent: Seq<char>) -> bool {
    r.agent == agent && (r.status == "running"@ || r.status == "checking"@ || r.status
        == "reviewing"@)
}

/// What the start of a run leaves behind. A run with a new id is put behind the others,
/// running since now in its process and its workspace; a run with a known id runs again
/// there, for the task and with the start that it had. A task without a row gets one.
/// Nothing else changes, and the event tells who runs.
pub proof fn law_started_run_is_on_record(
    s: StoreView,
    run_id: Seq<char>,
    task_id: Seq<char>,
    path: Seq<char>,
    role: Seq<char>,
    agent: Seq<char>,
    pid: u32,
    workspace: Seq<char>,
    now: Instant,
    k: int,
)
    requires
        store::keyed(s),
    ensures
        ({
            let run = started_run(run_id, task_id, role, agent, pid, workspace, now);
            let after = run_start_recorded(s, path, run, now);
            let present = clock::rfc3339_text(now.secs, now.nanos, true);
            &&& run == (RunView {
                id: run_id,
                task_id,
                role,
                agent,
                status: "running"@,
                started_at: present,
                updated_at: present,
                pid: Some(pid),
                workspace_path: workspace,
            })
            &&& (forall|j: int| 0 <= j < s.runs.len() ==> (#[trigger] s.runs[j]).id != run_id)
                ==> after.runs == s.runs.push(run)
            &&& 0 <= k < s.runs.len() && s.runs[k].id == run_id ==> after.runs == s.runs.update(
                k,
                RunView {
                    status: "running"@,
                    updated_at: present,
                    pid: Some(pid),
                    workspace_path: workspace,
                    ..s.runs[k]
                },
            )
            &&& (exists|j: int| 0 <= j < s.tasks.len() && (#[trigger] s.tasks[j]).id == task_id)
                ==> after.tasks == s.tasks
            &&& s.tasks.is_prefix_of(after.tasks)
            &&& after.events == s.events.push(
                store::draft(
                    Some(run_id),
                    "run_started"@,
                    seq![
                        store::text_item("role"@, role),
                        store::text_item("agent"@, agent),
                        store::number_item("pid"@, pid as int),
                    ],
                    now,
                ),
            )
        }),
{
    let run = started_run(run_id, task_id, role, agent, pid, workspace, now);
    let after = run_start_recorded(s, path, run, now);
    store::law_rows_are_found_by_id(s, run_id, k);
    store::law_rows_are_found_by_id(s, task_id, 0);
    if exists|j: int| 0 <= j < s.tasks.len() && (#[trigger] s.tasks[j]).id == task_id {
        let j = choose|j: int| 0 <= j < s.tasks.len() && (#[trigger] s.tasks[j]).id == task_id;
        store::law_rows_are_found_by_id(s, task_id, j);
    }
    if forall|j: int| 0 <= j < s.runs.len() ==> (#[trigger] s.runs[j]).id != run_id {
        if let Some(r) = store::find_run(s.runs, run_id) {
            let j = choose|j: int| 0 <= j < s.runs.len() && s.runs[j] == r;
            assert(s.runs[j].id != run_id);
        }
    }
    if 0 <= k < s.runs.len() && s.runs[k].id == run_id {
        lemma_keyed_run(s, k);
    }
    assert(s.tasks =~= after.tasks.take(s.tasks.len() as int));
}

/// In keyed tables a run is found where it stands.
proof fn lemma_keyed_run(s: StoreView, k: int)
    requires
        store::keyed(s),
        0 <= k < s.runs.len(),
    ensures
        store::run_index(s.runs, s.runs[k].id) == k,
{
    let ids = store::run_ids(s.runs);
    assert(ids[k] == s.runs[k].id);
    assert forall|j: int| 0 <= j < k implies #[trigger] ids[j] != s.runs[k].id by {
        assert(ids[j] != ids[k]);
    }
    text::lemma_index_of_unique(ids, s.runs[k].id, k);
}

/// What the end of a run leaves behind: it is completed where its process ended well and
/// failed otherwise, has no process any more, and changed now. Nothing else changes, and
/// the event tells how it ended.
pub proof fn law_run_ends_as_its_process(s: StoreView, k: int, exit_code: i32, now: Instant)
    requires
        store::keyed(s),
        0 <= k < s.runs.len(),
    ensures
        ({
            let after = run_end_recorded(s, s.runs[k].id, exit_code, now);
            let status = if exit_code == 0 {
                "completed"@
            } else {
                "failed"@
            };
            &&& after.tasks == s.tasks
            &&& after.runs == s.runs.update(
                k,
                RunView {
                    status,
                    updated_at: clock::rfc3339_text(now.secs, now.nanos, true),
                    pid: None,
                    ..s.runs[k]
                },
            )
            &&& after.events == s.events.push(
                store::draft(
                    Some(s.runs[k].id),
                    "run_finished"@,
                    seq![
                        store::number_item("exit_code"@, exit_code as int),
                        store::text_item("status"@, status),
                    ],
                    now,
                ),
            )
        }),
{
    lemma_keyed_run(s, k);
}

/// Whether a run started later than another; of those that did not, the one with the
/// greater id counts.
pub open spec fn started_later(a: RunView, b: RunView) -> bool {
    text::text_lt(b.started_at, a.started_at) || (a.started_at == b.started_at && text::text_lt(
        b.id,
        a.id,
    ))
}

/// The order of starts is one.
proof fn lemma_by_start()
    ensures
        rows::is_order(order::by_start()),
{
    let f = order::by_start();
    assert forall|a: RunView| !#[trigger] f(a, a) by {
        order::lemma_text_order(a.id, a.id, a.id);
        order::lemma_text_order(a.started_at, a.started_at, a.started_at);
    }
    assert forall|a: RunView, b: RunView, c: RunView| #[trigger] f(a, b) && #[trigger] f(
        b,
        c,
    ) implies f(a, c) by {
        order::lemma_text_order(c.id, b.id, a.id);
        order::lemma_text_order(c.started_at, b.started_at, a.started_at);
        order::lemma_text_order(c.started_at, a.started_at, b.started_at);
    }
    assert forall|a: RunView, b: RunView, c: RunView| #[trigger] f(a, b) && !(#[trigger] f(
        a,
        c,
    )) implies f(c, b) by {
        order::lemma_text_order(b.id, a.id, c.id);
        order::lemma_text_order(b.id, c.id, a.id);
        order::lemma_text_order(c.id, a.id, b.id);
        order::lemma_text_order(b.started_at, a.started_at, c.started_at);
        order::lemma_text_order(b.started_at, c.started_at, a.started_at);
        order::lemma_text_order(c.started_at, a.started_at, b.started_at);
    }
}

/// The run that is attached to a task is the one that the agent started last and that is
/// noted as active. It alone changes: it is on that task from now on. Nothing is attached
/// exactly where the agent has no such run.
pub proof fn law_latest_start_is_attached(
    s: StoreView,
    agent: Seq<char>,
    task_id: Seq<char>,
    path: Seq<char>,
    now: Instant,
)
    ensures
        ({
            let outcome = attach_to_task(s, agent, task_id, path, now);
            &&& s.tasks.is_prefix_of(outcome.tables.tasks)
            &&& match outcome.result {
                None => outcome.tables.runs == s.runs && outcome.tables.events == s.events
                    && forall|j: int|
                    0 <= j < s.runs.len() ==> !at_work(#[trigger] s.runs[j], agent),
                Some(id) => exists|k: int|
                    {
                        &&& 0 <= k < s.runs.len()
                        &&& at_work(#[trigger] s.runs[k], agent)
                        &&& s.runs[k].id == id
                        &&& outcome.tables.runs == s.runs.update(
                            k,
                            RunView {
                                task_id,
                                updated_at: clock::rfc3339_text(now.secs, now.nanos, true),
                                ..s.runs[k]
                            },
                        )
                        &&& outcome.tables.events == s.events.push(
                            store::draft(
                                Some(id),
                                "run_task_attached"@,
                                seq![
                                    store::text_item("agent"@, agent),
                                    store::text_item("task_id"@, task_id),
                                ],
                                now,
                            ),
                        )
                        &&& forall|j: int|
                            0 <= j < s.runs.len() && at_work(#[trigger] s.runs[j], agent)
                                ==> !started_later(s.runs[j], s.runs[k])
                    },
            }
        }),
{
    lemma_by_start();
    let wanted = active_run_of(agent);
    rows::lemma_pick(s.runs, wanted, order::by_start());
    assert forall|j: int| 0 <= j < s.runs.len() implies wanted(#[trigger] s.runs[j]) == at_work(
        s.runs[j],
        agent,
    ) by {}
    let outcome = attach_to_task(s, agent, task_id, path, now);
    assert(s.tasks =~= outcome.tables.tasks.take(s.tasks.len() as int));
    let k = rows::pick(s.runs, wanted, order::by_start());
    if k >= 0 {
        assert(at_work(s.runs[k], agent));
        assert forall|j: int|
            0 <= j < s.runs.len() && at_work(#[trigger] s.runs[j], agent) implies !started_later(
            s.runs[j],
            s.runs[k],
        ) by {
            assert(wanted(s.runs[j]));
        }
    } else {
        assert forall|j: int| 0 <= j < s.runs.len() implies !at_work(
            #[trigger] s.runs[j],
            agent,
        ) by {
            assert(!wanted(s.runs[j]));
        }
    }
}

/// Whether a task waits for advice that no run of a supervisor which is noted as active
/// is on.
pub open spec fn waits_alone(s: StoreView, t: TaskView) -> bool {
    &&& t.status == "consultation"@
    &&& forall|j: int|
        0 <= j < s.runs.len() && (#[trigger] s.runs[j]).task_id == t.id && s.runs[j].role
            == "supervisor"@ ==> !at_work(s.runs[j], s.runs[j].agent)
}

/// Whether a run is on a task that waits for advice.
pub open spec fn advises(s: StoreView, r: RunView, t: TaskView) -> bool {
    t.id == r.task_id && t.status == "consultation"@
}

proof fn lemma_waits_alone(s: StoreView, t: TaskView)
    ensures
        unattended(s.runs)(t) == waits_alone(s, t),
{
    if supervised(s.runs, t.id) {
        let j = choose|j: int| 0 <= j < s.runs.len() && supervises(#[trigger] s.runs[j], t.id);
        assert(at_work(s.runs[j], s.runs[j].agent));
    }
    if t.status == "consultation"@ && !waits_alone(s, t) {
        let j = choose|j: int|
            0 <= j < s.runs.len() && (#[trigger] s.runs[j]).task_id == t.id && s.runs[j].role
                == "supervisor"@ && at_work(s.runs[j], s.runs[j].agent);
        assert(supervises(s.runs[j], t.id));
    }
}

/// Whether the run at a position is the agent's latest of those that are noted as active.
pub open spec fn latest_at_work(s: StoreView, agent: Seq<char>, k: int) -> bool {
    &&& 0 <= k < s.runs.len()
    &&& at_work(s.runs[k], agent)
    &&& forall|j: int|
        0 <= j < s.runs.len() && at_work(#[trigger] s.runs[j], agent) ==> !claims::later_run(
            s.runs[j],
            s.runs[k],
        )
}

proof fn lemma_latest_at_work(s: StoreView, agent: Seq<char>)
    ensures
        ({
            let k = rows::pick(s.runs, active_run_of(agent), order::by_recency());
            &&& k >= 0 ==> latest_at_work(s, agent, k)
            &&& k < 0 ==> forall|j: int|
                0 <= j < s.runs.len() ==> !at_work(#[trigger] s.runs[j], agent)
        }),
{
    order::lemma_by_recency();
    let wanted = active_run_of(agent);
    rows::lemma_pick(s.runs, wanted, order::by_recency());
    assert forall|j: int| 0 <= j < s.runs.len() implies wanted(#[trigger] s.runs[j]) == at_work(
        s.runs[j],
        agent,
    ) by {}
    let k = rows::pick(s.runs, wanted, order::by_recency());
    assert forall|j: int|
        k >= 0 && 0 <= j < s.runs.len() && at_work(
            #[trigger] s.runs[j],
            agent,
        ) implies !claims::later_run(s.runs[j], s.runs[k]) by {
        assert(wanted(s.runs[j]));
    }
    assert forall|j: int| k < 0 && 0 <= j < s.runs.len() implies !at_work(
        #[trigger] s.runs[j],
        agent,
    ) by {
        assert(!wanted(s.runs[j]));
    }
}

/// Which advice an agent's latest active run gives. A run that is on a task that waits
/// for advice stays there, and gives that task or, where another is wanted, nothing.
/// A run that is not takes the wanted task, or without one the first by id, among those
/// that wait alone: it alone changes, and is on that task from now on. It takes nothing
/// exactly where there is no such task, and an agent without such a run gets nothing.
pub proof fn law_advice_goes_where_it_is_needed(
    s: StoreView,
    wanted: Option<Seq<char>>,
    agent: Seq<char>,
    now: Instant,
    k: int,
    i: int,
)
    requires
        store::keyed(s),
    ensures
        ({
            let outcome = attach_consultation(s, wanted, agent, now);
            &&& (forall|j: int| 0 <= j < s.runs.len() ==> !at_work(#[trigger] s.runs[j], agent))
                ==> outcome.result is None && outcome.tables == s
            &&& outcome.result matches Some(c) ==> exists|q: int, m: int| #[trigger]
                latest_at_work(s, agent, q) && 0 <= m < s.tasks.len() && claims::shows(
                    c,
                    #[trigger] s.tasks[m],
                ) && c.run_id == Some(s.runs[q].id) && c.workspace_path is None && (
                wanted is Some ==> s.tasks[m].id == wanted->0) && if advises(
                    s,
                    s.runs[q],
                    s.tasks[m],
                ) {
                    outcome.tables == s
                } else {
                    &&& waits_alone(s, s.tasks[m])
                    &&& attached_there(s, outcome.tables, q, m, agent, now)
                    &&& wanted is None ==> forall|n: int|
                        0 <= n < s.tasks.len() && waits_alone(s, #[trigger] s.tasks[n])
                            ==> !text::text_lt(s.tasks[n].id, s.tasks[m].id)
                }
            &&& outcome.result is None ==> outcome.tables == s
            &&& outcome.result is None && latest_at_work(s, agent, k) && 0 <= i < s.tasks.len()
                && (wanted is None || wanted == Some(s.tasks[i].id)) ==> !advises(
                s,
                s.runs[k],
                s.tasks[i],
            ) && (waits_alone(s, s.tasks[i]) ==> exists|m: int|
                0 <= m < s.tasks.len() && advises(s, s.runs[k], #[trigger] s.tasks[m]))
        }),
{
    lemma_latest_at_work(s, agent);
    order::lemma_by_id();
    let free = unattended(s.runs);
    rows::lemma_pick(s.tasks, free, order::by_id());
    assert forall|n: int| 0 <= n < s.tasks.len() implies free(#[trigger] s.tasks[n])
        == waits_alone(s, s.tasks[n]) by {
        lemma_waits_alone(s, s.tasks[n]);
    }
    let q = rows::pick(s.runs, active_run_of(agent), order::by_recency());
    let outcome = attach_consultation(s, wanted, agent, now);
    if q >= 0 {
        let r = s.runs[q];
        assert(latest_at_work(s, agent, q));
        if latest_at_work(s, agent, k) {
            lemma_latest_is_one(s, agent, q, k);
        }
        store::law_rows_are_found_by_id(s, r.task_id, 0);
        store::law_rows_are_found_by_id(s, r.task_id, i);
        match attended_task(s, r) {
            Some(t) => {
                let m = choose|m: int| 0 <= m < s.tasks.len() && s.tasks[m] == t;
                assert(advises(s, r, s.tasks[m]));
                if outcome.result is Some {
                    assert(claims::shows(outcome.result->0, s.tasks[m]));
                }
                if 0 <= i < s.tasks.len() && advises(s, r, s.tasks[i]) {
                    assert(s.tasks[i] == t);
                }
            },
            None => {
                assert forall|m: int| 0 <= m < s.tasks.len() implies !advises(
                    s,
                    r,
                    #[trigger] s.tasks[m],
                ) by {
                    store::law_rows_are_found_by_id(s, r.task_id, m);
                }
                if let Some(id) = wanted {
                    store::law_rows_are_found_by_id(s, id, i);
                    text::lemma_index_of(store::task_ids(s.tasks), id);
                    let m = store::task_index(s.tasks, id);
                    if outcome.result is Some {
                        assert(0 <= m < s.tasks.len());
                        assert(store::task_ids(s.tasks)[m] == s.tasks[m].id);
                        assert(free(s.tasks[m]));
                        assert(claims::shows(outcome.result->0, s.tasks[m]));
                        assert(attached_there(s, outcome.tables, q, m, agent, now));
                    } else if 0 <= i < s.tasks.len() && s.tasks[i].id == id {
                        assert(!free(s.tasks[i]));
                    }
                } else {
                    let m = rows::pick(s.tasks, free, order::by_id());
                    if m >= 0 {
                        assert(free(s.tasks[m]));
                        assert(claims::shows(outcome.result->0, s.tasks[m]));
                        assert(attached_there(s, outcome.tables, q, m, agent, now));
                        assert forall|n: int|
                            0 <= n < s.tasks.len() && waits_alone(
                                s,
                                #[trigger] s.tasks[n],
                            ) implies !text::text_lt(s.tasks[n].id, s.tasks[m].id) by {
                            assert(free(s.tasks[n]));
                        }
                    } else if 0 <= i < s.tasks.len() {
                        assert(!free(s.tasks[i]));
                    }
                }
            },
        }
    }
}

/// One run is all that changed: it is on the task at a position from now on.
pub open spec fn attached_there(
    s: StoreView,
    after: StoreView,
    q: int,
    m: int,
    agent: Seq<char>,
    now: Instant,
) -> bool {
    &&& after.tasks == s.tasks
    &&& after.runs == s.runs.update(
        q,
        RunView {
            task_id: s.tasks[m].id,
            updated_at: clock::rfc3339_text(now.secs, now.nanos, true),
            ..s.runs[q]
        },
    )
    &&& after.events == s.events.push(
        store::draft(
            Some(s.runs[q].id),
            "run_consultation_attached"@,
            seq![
                store::text_item("agent"@, agent),
                store::text_item("task_id"@, s.tasks[m].id),
            ],
            now,
        ),
    )
}

/// The latest active run of an agent is one.
proof fn lemma_latest_is_one(s: StoreView, agent: Seq<char>, a: int, b: int)
    requires
        store::keyed(s),
        latest_at_work(s, agent, a),
        latest_at_work(s, agent, b),
    ensures
        a == b,
{
    let x = s.runs[a];
    let y = s.runs[b];
    assert(!claims::later_run(x, y) && !claims::later_run(y, x));
    order::lemma_text_order(x.updated_at, y.updated_at, x.updated_at);
    order::lemma_text_order(y.updated_at, x.updated_at, y.updated_at);
    order::lemma_text_order(x.started_at, y.started_at, x.started_at);
    order::lemma_text_order(y.started_at, x.started_at, y.started_at);
    order::lemma_text_order(x.id, y.id, x.id);
    order::lemma_text_order(y.id, x.id, y.id);
    store::law_rows_are_found_by_id(s, x.id, a);
    if a < b {
        assert(s.runs[a].id != s.runs[b].id);
    } else if b < a {
        assert(s.runs[b].id != s.runs[a].id);
    }
}

} // verus!
