//! Which queued, submitted and consulting tasks get a session next.
use vstd::prelude::*;
use vstd::string::*;

use crate::agent_id;
use crate::clock;
use crate::clock::Instant;
use crate::hq::transition::Prompt;
use crate::project::{TaskRecord, TaskView};
use crate::state::TaskState;
use crate::text;

verus! {

/// A headless session.
#[derive(Debug, Clone, PartialEq, Eq)]
pub struct Session {
    pub name: String,
    pub alive: bool,
    pub log_path: String,
}

/// The contents of a session.
#[verifier::ext_equal]
pub struct SessionView {
    pub name: Seq<char>,
    pub alive: bool,
    pub log_path: Seq<char>,
}

impl View for Session {
    type V = SessionView;

    open spec fn view(&self) -> SessionView {
        SessionView { name: self.name@, alive: self.alive, log_path: self.log_path@ }
    }
}

/// The contents of a list of sessions.
pub open spec fn session_views(list: Seq<Session>) -> Seq<SessionView> {
    list.map_values(|s: Session| s@)
}

/// How many sessions whose names start with a role are alive.
pub open spec fn running_count(sessions: Seq<SessionView>, role: Seq<char>) -> nat
    decreases sessions.len(),
{
    if sessions.len() == 0 {
        0
    } else {
        running_count(sessions.drop_last(), role) + if role.is_prefix_of(sessions.last().name)
            && sessions.last().alive {
            1nat
        } else {
            0nat
        }
    }
}

/// How many sessions whose names start with a role are alive.
pub fn count_running(sessions: &Vec<Session>, role: &str) -> (out: usize)
    ensures
        out == running_count(session_views(sessions@), role@),
{
    let ghost all = session_views(sessions@);
    let mut count: usize = 0;
    let mut i: usize = 0;
    while i < sessions.len()
        invariant
            i <= sessions@.len(),
            all == session_views(sessions@),
            count <= i,
            count == running_count(all.take(i as int), role@),
        decreases sessions@.len() - i,
    {
        assert(all.take(i + 1).drop_last() =~= all.take(i as int));
        assert(all.take(i + 1).last() == sessions@[i as int]@);
        if text::starts_with(sessions[i].name.as_str(), role) && sessions[i].alive {
            count = count + 1;
        }
        i = i + 1;
    }
    assert(all.take(i as int) =~= all);
    count
}

/// Whether a session with a name is alive.
pub open spec fn is_alive(sessions: Seq<SessionView>, name: Seq<char>) -> bool {
    exists|i: int| 0 <= i < sessions.len() && alive_at(sessions, name, i)
}

/// Whether the session at a position has a name and is alive.
pub open spec fn alive_at(sessions: Seq<SessionView>, name: Seq<char>, at: int) -> bool {
    sessions[at].name == name && sessions[at].alive
}

/// Whether a session with a name is alive.
pub fn session_alive(sessions: &Vec<Session>, name: &str) -> (out: bool)
    ensures
        out == is_alive(session_views(sessions@), name@),
{
    let ghost all = session_views(sessions@);
    let mut i: usize = 0;
    while i < sessions.len()
        invariant
            i <= sessions@.len(),
            all == session_views(sessions@),
            forall|k: int| 0 <= k < i ==> !#[trigger] alive_at(all, name@, k),
        decreases sessions@.len() - i,
    {
        assert(all[i as int] == sessions@[i as int]@);
        if text::same(sessions[i].name.as_str(), name) && sessions[i].alive {
            assert(alive_at(all, name@, i as int));
            return true;
        }
        i = i + 1;
    }
    false
}

// ------------------------------------------------------------------ what is due

/// The three kinds of work that HQ schedules.
#[derive(Debug, Clone, Copy, PartialEq, Eq, Structural)]
pub enum Work {
    Consultation,
    Review,
    Queued,
}

/// The status of the tasks that wait for a kind of work.
pub open spec fn work_status(work: Work) -> Seq<char> {
    match work {
        Work::Consultation => "consultation"@,
        Work::Review => "reviewing"@,
        Work::Queued => "pending"@,
    }
}

/// The role that does a kind of work.
pub open spec fn work_role(work: Work) -> Seq<char> {
    match work {
        Work::Queued => agent_id::ROLE_EXECUTOR@,
        _ => agent_id::ROLE_SUPERVISOR@,
    }
}

impl Work {
    /// The status of the tasks that wait for the work.
    pub fn status(&self) -> (out: &'static str)
        ensures
            out@ == work_status(*self),
    {
        match self {
            Work::Consultation => "consultation",
            Work::Review => "reviewing",
            Work::Queued => "pending",
        }
    }

    /// The role that does the work.
    pub fn role(&self) -> (out: &'static str)
        ensures
            out@ == work_role(*self),
    {
        match self {
            Work::Queued => agent_id::ROLE_EXECUTOR,
            _ => agent_id::ROLE_SUPERVISOR,
        }
    }

    /// The prompt that starts the work.
    pub fn prompt(&self) -> (out: Prompt)
        ensures
            out == match *self {
                Work::Consultation => Prompt::Consultant,
                Work::Review => Prompt::Reviewer,
                Work::Queued => Prompt::Executor,
            },
    {
        match self {
            Work::Consultation => Prompt::Consultant,
            Work::Review => Prompt::Reviewer,
            Work::Queued => Prompt::Executor,
        }
    }
}

/// Whether someone holds a lease on a task that has not run out.
pub open spec fn externally_claimed(task: TaskView, now: Instant) -> bool {
    task.claimed_by is Some && clock::lease_runs(task.lease_until, now)
}

/// Whether someone holds a lease on a task that has not run out.
pub fn task_has_active_external_claim(task: &TaskRecord, now: Instant) -> (out: bool)
    ensures
        out == externally_claimed(task@, now),
{
    task.claimed_by.is_some() && clock::running_lease(&task.lease_until, now).is_some()
}

/// Whether a task waits for a kind of work. A submission that someone has
/// claimed is theirs to review.
pub open spec fn due(task: TaskView, work: Work, now: Instant) -> bool {
    task.status == work_status(work) && (work is Review ==> !externally_claimed(task, now))
}

/// Whether a task waits for a kind of work.
fn is_due(task: &TaskRecord, work: Work, now: Instant) -> (out: bool)
    ensures
        out == due(task@, work, now),
{
    if !text::same(task.status.as_str(), work.status()) {
        return false;
    }
    match work {
        Work::Review => !task_has_active_external_claim(task, now),
        _ => true,
    }
}

/// The contents of a list of tasks.
pub open spec fn task_views(list: Seq<TaskRecord>) -> Seq<TaskView> {
    list.map_values(|t: TaskRecord| t@)
}

/// The ids of the first tasks that wait for a kind of work, as many as there
/// are slots.
pub open spec fn first_due(tasks: Seq<TaskView>, work: Work, now: Instant, slots: nat) -> Seq<
    Seq<char>,
>
    decreases tasks.len(),
{
    if tasks.len() == 0 {
        Seq::empty()
    } else {
        let before = first_due(tasks.drop_last(), work, now, slots);
        if due(tasks.last(), work, now) && before.len() < slots {
            before.push(tasks.last().id)
        } else {
            before
        }
    }
}

/// The ids of the first tasks that wait for a kind of work, as many as there
/// are slots.
fn pick_due(tasks: &Vec<TaskRecord>, work: Work, now: Instant, slots: usize) -> (out: Vec<String>)
    ensures
        text::views(out@) == first_due(task_views(tasks@), work, now, slots as nat),
{
    let ghost all = task_views(tasks@);
    let mut out: Vec<String> = Vec::new();
    assert(text::views(out@) =~= Seq::empty());
    let mut i: usize = 0;
    while i < tasks.len()
        invariant
            i <= tasks@.len(),
            all == task_views(tasks@),
            text::views(out@) == first_due(all.take(i as int), work, now, slots as nat),
        decreases tasks@.len() - i,
    {
        assert(all.take(i + 1).drop_last() =~= all.take(i as int));
        assert(all.take(i + 1).last() == tasks@[i as int]@);
        assert(text::views(out@).len() == out@.len());
        if is_due(&tasks[i], work, now) && out.len() < slots {
            text::add_text(&mut out, tasks[i].id.as_str());
        }
        i = i + 1;
    }
    assert(all.take(i as int) =~= all);
    out
}

/// How many sessions of a role may still be started.
pub open spec fn free_slots(max_parallel: nat, running: nat) -> nat {
    if max_parallel <= running {
        0
    } else {
        (max_parallel - running) as nat
    }
}

/// The limit of sessions of a role: at least one.
pub fn parallel_limit(configured: usize) -> (out: usize)
    ensures
        out == if configured < 1 {
            1
        } else {
            configured
        },
{
    if configured < 1 {
        1
    } else {
        configured
    }
}

/// Those of some tasks whose session is not alive.
pub open spec fn without_session(
    ids: Seq<Seq<char>>,
    sessions: Seq<SessionView>,
    role: Seq<char>,
    vendor: Seq<char>,
) -> Seq<Seq<char>>
    decreases ids.len(),
{
    if ids.len() == 0 {
        Seq::empty()
    } else {
        let before = without_session(ids.drop_last(), sessions, role, vendor);
        if is_alive(sessions, agent_id::session_name(role, vendor, ids.last())) {
            before
        } else {
            before.push(ids.last())
        }
    }
}

/// The ids of the tasks that get a session.
pub open spec fn launched(
    tasks: Seq<TaskView>,
    work: Work,
    sessions: Seq<SessionView>,
    max_parallel: nat,
    vendor: Seq<char>,
    now: Instant,
) -> Seq<Seq<char>> {
    without_session(
        first_due(
            tasks,
            work,
            now,
            free_slots(max_parallel, running_count(sessions, work_role(work))),
        ),
        sessions,
        work_role(work),
        vendor,
    )
}

/// A session to be started.
#[derive(Debug, Clone, PartialEq, Eq)]
pub struct Launch {
    pub task_id: String,
    pub name: String,
    /// The number of the session among those started together.
    pub index: usize,
}

/// Whether the sessions to be started are those of some tasks, in their order
/// and numbered from one.
pub open spec fn launches_of(
    launches: Seq<Launch>,
    ids: Seq<Seq<char>>,
    role: Seq<char>,
    vendor: Seq<char>,
) -> bool {
    &&& launches.len() == ids.len()
    &&& forall|i: int|
        0 <= i < ids.len() ==> {
            &&& (#[trigger] launches[i]).task_id@ == ids[i]
            &&& launches[i].name@ == agent_id::session_name(role, vendor, ids[i])
            &&& launches[i].index == i + 1
        }
}

/// How many tasks have a status.
pub open spec fn count_status(tasks: Seq<TaskView>, status: Seq<char>) -> nat
    decreases tasks.len(),
{
    if tasks.len() == 0 {
        0
    } else {
        count_status(tasks.drop_last(), status) + if tasks.last().status == status {
            1nat
        } else {
            0nat
        }
    }
}

/// How many tasks have a status.
fn count_with_status(tasks: &Vec<TaskRecord>, status: &str) -> (out: usize)
    ensures
        out == count_status(task_views(tasks@), status@),
{
    let ghost all = task_views(tasks@);
    let mut count: usize = 0;
    let mut i: usize = 0;
    while i < tasks.len()
        invariant
            i <= tasks@.len(),
            all == task_views(tasks@),
            count <= i,
            count == count_status(all.take(i as int), status@),
        decreases tasks@.len() - i,
    {
        assert(all.take(i + 1).drop_last() =~= all.take(i as int));
        assert(all.take(i + 1).last() == tasks@[i as int]@);
        if text::same(tasks[i].status.as_str(), status) {
            count = count + 1;
        }
        i = i + 1;
    }
    assert(all.take(i as int) =~= all);
    count
}

/// Which tasks get a session for a kind of work. The limit holds for all
/// sessions of the role together.
fn schedule_work(
    work: Work,
    tasks: &Vec<TaskRecord>,
    sessions: &Vec<Session>,
    max_parallel: usize,
    vendor: &str,
    now: Instant,
) -> (out: Vec<Launch>)
    ensures
        launches_of(
            out@,
            launched(
                task_views(tasks@),
                work,
                session_views(sessions@),
                max_parallel as nat,
                vendor@,
                now,
            ),
            work_role(work),
            vendor@,
        ),
{
    let running: usize = count_running(sessions, work.role());
    let slots: usize = if max_parallel <= running {
        0
    } else {
        max_parallel - running
    };
    let ids: Vec<String> = pick_due(tasks, work, now, slots);
    let ghost all = text::views(ids@);
    let ghost seen = session_views(sessions@);
    let mut out: Vec<Launch> = Vec::new();
    let mut i: usize = 0;
    while i < ids.len()
        invariant
            i <= ids@.len(),
            out@.len() <= i,
            all == text::views(ids@),
            seen == session_views(sessions@),
            launches_of(
                out@,
                without_session(all.take(i as int), seen, work_role(work), vendor@),
                work_role(work),
                vendor@,
            ),
        decreases ids@.len() - i,
    {
        assert(all.take(i + 1).drop_last() =~= all.take(i as int));
        assert(all.take(i + 1).last() == ids@[i as int]@);
        let name: String = agent_id::task_session_name(work.role(), vendor, ids[i].as_str());
        if !session_alive(sessions, name.as_str()) {
            let ghost before = out@;
            let index: usize = out.len() + 1;
            out.push(Launch { task_id: ids[i].clone(), name, index });
            assert forall|k: int| 0 <= k < before.len() implies out@[k] == before[k] by {}
        }
        i = i + 1;
    }
    assert(all.take(i as int) =~= all);
    out
}

/// Which submitted tasks get a review supervisor.
pub fn schedule_reviewing_tasks(
    tasks: &Vec<TaskRecord>,
    sessions: &Vec<Session>,
    max_parallel: usize,
    vendor: &str,
    now: Instant,
) -> (out: Vec<Launch>)
    ensures
        launches_of(
            out@,
            launched(
                task_views(tasks@),
                Work::Review,
                session_views(sessions@),
                max_parallel as nat,
                vendor@,
                now,
            ),
            agent_id::ROLE_SUPERVISOR@,
            vendor@,
        ),
{
    schedule_work(Work::Review, tasks, sessions, max_parallel, vendor, now)
}

/// Which consulting tasks get a supervisor.
pub fn schedule_consultation_tasks(
    tasks: &Vec<TaskRecord>,
    sessions: &Vec<Session>,
    max_parallel: usize,
    vendor: &str,
    now: Instant,
) -> (out: Vec<Launch>)
    ensures
        launches_of(
            out@,
            launched(
                task_views(tasks@),
                Work::Consultation,
                session_views(sessions@),
                max_parallel as nat,
                vendor@,
                now,
            ),
            agent_id::ROLE_SUPERVISOR@,
            vendor@,
        ),
{
    schedule_work(Work::Consultation, tasks, sessions, max_parallel, vendor, now)
}

/// What becomes of the queued tasks.
#[derive(Debug, Clone, PartialEq, Eq)]
pub struct Queue {
    pub launches: Vec<Launch>,
    /// What to tell of those that have to wait.
    pub waiting: Option<String>,
}

/// What is told of queued tasks that have to wait.
pub open spec fn waiting_text(count: nat, max_parallel: nat) -> Seq<char> {
    text::decimal(count) + " queued task(s) waiting; executor parallelism limit is "@
        + text::decimal(max_parallel) + "."@
}

/// Which queued tasks get an executor, and what is told where none does for
/// want of a slot.
pub fn schedule_queued_tasks_from(
    tasks: &Vec<TaskRecord>,
    sessions: &Vec<Session>,
    max_parallel: usize,
    vendor: &str,
    report_waiting: bool,
    now: Instant,
) -> (out: Queue)
    ensures
        launches_of(
            out.launches@,
            launched(
                task_views(tasks@),
                Work::Queued,
                session_views(sessions@),
                max_parallel as nat,
                vendor@,
                now,
            ),
            agent_id::ROLE_EXECUTOR@,
            vendor@,
        ),
        text::opt_view(out.waiting) == if report_waiting && count_status(
            task_views(tasks@),
            "pending"@,
        ) > 0 && max_parallel <= running_count(
            session_views(sessions@),
            agent_id::ROLE_EXECUTOR@,
        ) {
            Some(
                waiting_text(
                    count_status(task_views(tasks@), "pending"@),
                    max_parallel as nat,
                ),
            )
        } else {
            None
        },
{
    let pending: usize = count_with_status(tasks, "pending");
    let running: usize = count_running(sessions, agent_id::ROLE_EXECUTOR);
    let waiting: Option<String> = if report_waiting && pending > 0 && max_parallel <= running {
        let mut line: String = text::decimal_string(pending as u64);
        line.append(" queued task(s) waiting; executor parallelism limit is ");
        line.append(text::decimal_string(max_parallel as u64).as_str());
        line.append(".");
        Some(line)
    } else {
        None
    };
    Queue {
        launches: schedule_work(Work::Queued, tasks, sessions, max_parallel, vendor, now),
        waiting,
    }
}

/// Whether there is anything to schedule: while no task is under way by hand,
/// and some task is queued, submitted or consulting.
pub open spec fn has_work(state: TaskState, tasks: Seq<TaskView>) -> bool {
    (state is Idle || state is Complete) && (count_status(tasks, "pending"@) > 0 || count_status(
        tasks,
        "reviewing"@,
    ) > 0 || count_status(tasks, "consultation"@) > 0)
}

/// Whether there is anything to schedule.
pub fn reconcile_runtime_schedule(state: TaskState, tasks: &Vec<TaskRecord>) -> (out: bool)
    ensures
        out == has_work(state, task_views(tasks@)),
{
    if state != TaskState::Idle && state != TaskState::Complete {
        return false;
    }
    count_with_status(tasks, "pending") > 0 || count_with_status(tasks, "reviewing") > 0
        || count_with_status(tasks, "consultation") > 0
}

// ------------------------------------------------------------------ what is told

/// What the sessions of a kind of work are called.
pub open spec fn work_name(work: Work) -> Seq<char> {
    match work {
        Work::Consultation => "consultation supervisor"@,
        Work::Review => "review supervisor"@,
        Work::Queued => "executor"@,
    }
}

impl Work {
    /// What the sessions of the work are called.
    pub fn name(&self) -> (out: &'static str)
        ensures
            out@ == work_name(*self),
    {
        match self {
            Work::Consultation => "consultation supervisor",
            Work::Review => "review supervisor",
            Work::Queued => "executor",
        }
    }
}

/// What is told of sessions that were started.
pub open spec fn started_text(work: Work, ids: Seq<Seq<char>>) -> Seq<char> {
    "Started "@ + work_name(work) + " session(s) for "@ + text::decimal(ids.len()) + (
    if work is Queued {
        " queued task(s): "@
    } else {
        " task(s): "@
    }) + text::join(ids, ", "@)
}

/// What is told of sessions that were started; nothing where none was.
pub fn started_message(work: Work, ids: &Vec<String>) -> (out: Option<String>)
    ensures
        text::opt_view(out) == if ids@.len() == 0 {
            None
        } else {
            Some(started_text(work, text::views(ids@)))
        },
{
    if ids.len() == 0 {
        return None;
    }
    let mut out: String = "Started ".to_owned();
    out.append(work.name());
    out.append(" session(s) for ");
    out.append(text::decimal_string(ids.len() as u64).as_str());
    match work {
        Work::Queued => out.append(" queued task(s): "),
        _ => out.append(" task(s): "),
    }
    out.append(text::join_strings(ids, ", ").as_str());
    assert(text::views(ids@).len() == ids@.len());
    Some(out)
}

/// What is told when no more sessions could be started.
pub fn start_failure(work: Work, spawned: usize, error: &str) -> (out: String)
    ensures
        out@ == "Could not start more "@ + work_name(work) + " sessions after starting "@
            + text::decimal(spawned as nat) + " task(s): "@ + error@,
{
    let mut out: String = "Could not start more ".to_owned();
    out.append(work.name());
    out.append(" sessions after starting ");
    out.append(text::decimal_string(spawned as u64).as_str());
    out.append(" task(s): ");
    out.append(error);
    out
}

// ------------------------------------------------------------------ laws

proof fn lemma_first_due(tasks: Seq<TaskView>, work: Work, now: Instant, slots: nat)
    ensures
        first_due(tasks, work, now, slots).len() <= slots,
        forall|i: int|
            0 <= i < first_due(tasks, work, now, slots).len() ==> exists|k: int|
                0 <= k < tasks.len() && due(#[trigger] tasks[k], work, now) && tasks[k].id
                    == #[trigger] first_due(tasks, work, now, slots)[i],
    decreases tasks.len(),
{
    if tasks.len() > 0 {
        let front = tasks.drop_last();
        lemma_first_due(front, work, now, slots);
        let before = first_due(front, work, now, slots);
        let list = first_due(tasks, work, now, slots);
        assert forall|i: int| 0 <= i < list.len() implies exists|k: int|
            0 <= k < tasks.len() && due(#[trigger] tasks[k], work, now) && tasks[k].id
                == #[trigger] list[i] by {
            if i < before.len() {
                assert(list[i] == before[i]);
                let k = choose|k: int|
                    0 <= k < front.len() && due(#[trigger] front[k], work, now) && front[k].id
                        == before[i];
                assert(tasks[k] == front[k]);
                assert(due(tasks[k], work, now));
            } else {
                assert(tasks[tasks.len() - 1] == tasks.last());
                assert(due(tasks[tasks.len() - 1], work, now));
            }
        }
    }
}

proof fn lemma_without_session(
    ids: Seq<Seq<char>>,
    sessions: Seq<SessionView>,
    role: Seq<char>,
    vendor: Seq<char>,
)
    ensures
        without_session(ids, sessions, role, vendor).len() <= ids.len(),
        forall|i: int|
            0 <= i < without_session(ids, sessions, role, vendor).len() ==> ids.contains(
                #[trigger] without_session(ids, sessions, role, vendor)[i],
            ) && !is_alive(
                sessions,
                agent_id::session_name(
                    role,
                    vendor,
                    without_session(ids, sessions, role, vendor)[i],
                ),
            ),
    decreases ids.len(),
{
    if ids.len() > 0 {
        let front = ids.drop_last();
        lemma_without_session(front, sessions, role, vendor);
        let before = without_session(front, sessions, role, vendor);
        let list = without_session(ids, sessions, role, vendor);
        assert forall|i: int| 0 <= i < list.len() implies ids.contains(#[trigger] list[i])
            && !is_alive(sessions, agent_id::session_name(role, vendor, list[i])) by {
            if i < before.len() {
                assert(list[i] == before[i]);
                let k = choose|k: int| 0 <= k < front.len() && front[k] == before[i];
                assert(ids[k] == before[i]);
            } else {
                assert(ids[ids.len() - 1] == list[i]);
            }
        }
    }
}

/// However many tasks wait, the sessions that are started and those that run
/// already are together no more than the limit, unless more ran before.
pub proof fn law_parallelism_is_limited(
    tasks: Seq<TaskView>,
    work: Work,
    sessions: Seq<SessionView>,
    max_parallel: nat,
    vendor: Seq<char>,
    now: Instant,
)
    ensures
        ({
            let running = running_count(sessions, work_role(work));
            let started = launched(tasks, work, sessions, max_parallel, vendor, now).len();
            started == 0 || running + started <= max_parallel
        }),
{
    let slots = free_slots(max_parallel, running_count(sessions, work_role(work)));
    lemma_first_due(tasks, work, now, slots);
    lemma_without_session(
        first_due(tasks, work, now, slots),
        sessions,
        work_role(work),
        vendor,
    );
}

/// Every task that gets a session waits for that work, and has no session that
/// is alive.
pub proof fn law_only_due_tasks_are_started(
    tasks: Seq<TaskView>,
    work: Work,
    sessions: Seq<SessionView>,
    max_parallel: nat,
    vendor: Seq<char>,
    now: Instant,
    at: int,
)
    requires
        0 <= at < launched(tasks, work, sessions, max_parallel, vendor, now).len(),
    ensures
        exists|k: int|
            0 <= k < tasks.len() && due(#[trigger] tasks[k], work, now) && tasks[k].id == launched(
                tasks,
                work,
                sessions,
                max_parallel,
                vendor,
                now,
            )[at],
        !is_alive(
            sessions,
            agent_id::session_name(
                work_role(work),
                vendor,
                launched(tasks, work, sessions, max_parallel, vendor, now)[at],
            ),
        ),
{
    let slots = free_slots(max_parallel, running_count(sessions, work_role(work)));
    let ids = first_due(tasks, work, now, slots);
    lemma_first_due(tasks, work, now, slots);
    lemma_without_session(ids, sessions, work_role(work), vendor);
    let list = launched(tasks, work, sessions, max_parallel, vendor, now);
    assert(list == without_session(ids, sessions, work_role(work), vendor));
    assert(ids.contains(list[at]));
    let i = choose|i: int| 0 <= i < ids.len() && ids[i] == list[at];
    assert(ids[i] == list[at]);
}

/// Nothing that waits is passed over for want of looking: while there is a free
/// slot and a task that waits for the work, some task is picked.
pub proof fn law_work_is_picked_up(
    tasks: Seq<TaskView>,
    work: Work,
    now: Instant,
    slots: nat,
    at: int,
)
    requires
        slots > 0,
        0 <= at < tasks.len(),
        due(tasks[at], work, now),
    ensures
        first_due(tasks, work, now, slots).len() > 0,
    decreases tasks.len(),
{
    if at < tasks.len() - 1 {
        assert(tasks.drop_last()[at] == tasks[at]);
        law_work_is_picked_up(tasks.drop_last(), work, now, slots, at);
    }
}

/// Whether a task waits: for advice, for a review that nobody holds a running lease
/// for, or in the queue.
pub open spec fn waits(task: TaskView, work: Work, now: Instant) -> bool {
    match work {
        Work::Consultation => task.status == "consultation"@,
        Work::Review => task.status == "reviewing"@ && !(task.claimed_by is Some
            && clock::lies_ahead(task.lease_until, now)),
        Work::Queued => task.status == "pending"@,
    }
}

/// The tasks that wait, in their order.
pub open spec fn waiting(tasks: Seq<TaskView>, work: Work, now: Instant) -> Seq<TaskView> {
    tasks.filter(|t: TaskView| waits(t, work, now))
}

/// The sessions of a role that are alive, in their order.
pub open spec fn living(sessions: Seq<SessionView>, role: Seq<char>) -> Seq<SessionView> {
    sessions.filter(|s: SessionView| s.alive && role.is_prefix_of(s.name))
}

/// Whether the session of a role and a vendor for a task is alive.
pub open spec fn has_session(
    sessions: Seq<SessionView>,
    role: Seq<char>,
    vendor: Seq<char>,
    id: Seq<char>,
) -> bool {
    exists|i: int|
        0 <= i < sessions.len() && (#[trigger] sessions[i]).alive && sessions[i].name == role
            + ":"@ + vendor + ":"@ + id
}

proof fn lemma_waits(task: TaskView, work: Work, now: Instant)
    ensures
        due(task, work, now) == waits(task, work, now),
{
}

/// Slots are filled from the front: of the tasks that wait, the first are picked, in
/// their order, as many as there are slots, and all where there are no more than
/// that.
pub proof fn law_first_waiting_are_picked(
    tasks: Seq<TaskView>,
    work: Work,
    now: Instant,
    slots: nat,
)
    ensures
        ({
            let list = waiting(tasks, work, now);
            let picked = first_due(tasks, work, now, slots);
            &&& picked.len() == if slots < list.len() {
                slots
            } else {
                list.len()
            }
            &&& forall|i: int| 0 <= i < picked.len() ==> #[trigger] picked[i] == list[i].id
        }),
    decreases tasks.len(),
{
    reveal(Seq::filter);
    if tasks.len() > 0 {
        law_first_waiting_are_picked(tasks.drop_last(), work, now, slots);
        lemma_waits(tasks.last(), work, now);
        let list = waiting(tasks, work, now);
        let before = waiting(tasks.drop_last(), work, now);
        let picked = first_due(tasks, work, now, slots);
        let front = first_due(tasks.drop_last(), work, now, slots);
        assert forall|i: int| 0 <= i < picked.len() implies #[trigger] picked[i] == list[i].id by {
            if i < front.len() {
                assert(picked[i] == front[i]);
                assert(list[i] == before[i]);
            }
        }
    }
}

/// A task that waits is left out only if as many as there are slots wait before it.
pub proof fn law_nobody_is_passed_over(
    tasks: Seq<TaskView>,
    work: Work,
    now: Instant,
    slots: nat,
    at: int,
)
    requires
        0 <= at < tasks.len(),
        waits(tasks[at], work, now),
        waiting(tasks.take(at), work, now).len() < slots,
    ensures
        first_due(tasks, work, now, slots).contains(tasks[at].id),
    decreases tasks.len(),
{
    reveal(Seq::filter);
    let front = tasks.drop_last();
    lemma_waits(tasks.last(), work, now);
    let picked = first_due(tasks, work, now, slots);
    let before = first_due(front, work, now, slots);
    if at < tasks.len() - 1 {
        assert(front.take(at) =~= tasks.take(at));
        assert(front[at] == tasks[at]);
        law_nobody_is_passed_over(front, work, now, slots, at);
        let k = choose|k: int| 0 <= k < before.len() && before[k] == tasks[at].id;
        assert(picked[k] == tasks[at].id);
    } else {
        assert(tasks.take(at) =~= front);
        law_first_waiting_are_picked(front, work, now, slots);
        assert(picked.last() == tasks[at].id);
        assert(picked[picked.len() - 1] == tasks[at].id);
    }
}

proof fn lemma_running_are_living(sessions: Seq<SessionView>, role: Seq<char>)
    ensures
        running_count(sessions, role) == living(sessions, role).len(),
    decreases sessions.len(),
{
    reveal(Seq::filter);
    if sessions.len() > 0 {
        lemma_running_are_living(sessions.drop_last(), role);
    }
}

proof fn lemma_without_session_filters(
    ids: Seq<Seq<char>>,
    sessions: Seq<SessionView>,
    role: Seq<char>,
    vendor: Seq<char>,
)
    ensures
        without_session(ids, sessions, role, vendor) == ids.filter(
            |id: Seq<char>| !has_session(sessions, role, vendor, id),
        ),
    decreases ids.len(),
{
    reveal(Seq::filter);
    if ids.len() > 0 {
        lemma_without_session_filters(ids.drop_last(), sessions, role, vendor);
        let name = agent_id::session_name(role, vendor, ids.last());
        assert(name =~= role + ":"@ + vendor + ":"@ + ids.last());
        if is_alive(sessions, name) {
            let i = choose|i: int| 0 <= i < sessions.len() && alive_at(sessions, name, i);
            assert(sessions[i].alive && sessions[i].name == name);
        }
        if has_session(sessions, role, vendor, ids.last()) {
            let i = choose|i: int|
                0 <= i < sessions.len() && (#[trigger] sessions[i]).alive && sessions[i].name
                    == role + ":"@ + vendor + ":"@ + ids.last();
            assert(alive_at(sessions, name, i));
        }
    }
}

/// Every free slot goes to a task that waits. The slots are those of the limit that no
/// living session of the role takes; the first tasks that wait get them; and of these
/// exactly those are started, in their order, that have no living session of their
/// own.
pub proof fn law_free_slots_are_filled(
    tasks: Seq<TaskView>,
    work: Work,
    sessions: Seq<SessionView>,
    max_parallel: nat,
    vendor: Seq<char>,
    now: Instant,
)
    ensures
        ({
            let role = if work is Queued {
                "executor"@
            } else {
                "supervisor"@
            };
            let running = living(sessions, role).len();
            let slots = if running < max_parallel {
                max_parallel - running
            } else {
                0
            };
            let list = waiting(tasks, work, now);
            let count = if slots < list.len() {
                slots
            } else {
                list.len() as int
            };
            let chosen = Seq::new(count as nat, |i: int| list[i].id);
            launched(tasks, work, sessions, max_parallel, vendor, now) == chosen.filter(
                |id: Seq<char>| !has_session(sessions, role, vendor, id),
            )
        }),
{
    let role = work_role(work);
    lemma_running_are_living(sessions, role);
    let slots = free_slots(max_parallel, running_count(sessions, role));
    law_first_waiting_are_picked(tasks, work, now, slots);
    let list = waiting(tasks, work, now);
    let ids = first_due(tasks, work, now, slots);
    assert(ids =~= Seq::new(ids.len(), |i: int| list[i].id));
    lemma_without_session_filters(ids, sessions, role, vendor);
}

proof fn lemma_count_status(tasks: Seq<TaskView>, status: Seq<char>)
    ensures
        count_status(tasks, status) == tasks.filter(|t: TaskView| t.status == status).len(),
        count_status(tasks, status) > 0 <==> exists|i: int|
            0 <= i < tasks.len() && (#[trigger] tasks[i]).status == status,
    decreases tasks.len(),
{
    reveal(Seq::filter);
    if tasks.len() > 0 {
        let front = tasks.drop_last();
        lemma_count_status(front, status);
        if count_status(front, status) > 0 {
            let i = choose|i: int| 0 <= i < front.len() && (#[trigger] front[i]).status == status;
            assert(tasks[i].status == status);
        }
        if tasks.last().status == status {
            assert(tasks[tasks.len() - 1].status == status);
        }
        if exists|i: int| 0 <= i < tasks.len() && (#[trigger] tasks[i]).status == status {
            let i = choose|i: int| 0 <= i < tasks.len() && (#[trigger] tasks[i]).status == status;
            if i < front.len() {
                assert(front[i].status == status);
            }
        }
    }
}

/// There is something to schedule exactly while no task is under way by hand and some
/// task is queued, submitted or consulting. Where queued tasks are told to wait, they
/// are counted.
pub proof fn law_scheduling_has_a_cause(state: TaskState, tasks: Seq<TaskView>)
    ensures
        has_work(state, tasks) <==> (state is Idle || state is Complete) && exists|i: int|
            0 <= i < tasks.len() && ((#[trigger] tasks[i]).status == "pending"@ || tasks[i].status
                == "reviewing"@ || tasks[i].status == "consultation"@),
        count_status(tasks, "pending"@) == tasks.filter(
            |t: TaskView| t.status == "pending"@,
        ).len(),
{
    lemma_count_status(tasks, "pending"@);
    lemma_count_status(tasks, "reviewing"@);
    lemma_count_status(tasks, "consultation"@);
}

/// Queued tasks go to executors, submissions and consultations to supervisors, and each
/// kind of work has a name of its own.
pub proof fn law_work_has_its_role(work: Work, other: Work)
    ensures
        work_role(work) == "executor"@ <==> work is Queued,
        work_role(work) == "supervisor"@ <==> work is Review || work is Consultation,
        work_status(work) == "pending"@ <==> work is Queued,
        work_status(work) == "reviewing"@ <==> work is Review,
        work_status(work) == "consultation"@ <==> work is Consultation,
        work_name(work) == work_name(other) ==> work == other,
{
    reveal_strlit("executor");
    reveal_strlit("supervisor");
    reveal_strlit("pending");
    reveal_strlit("reviewing");
    reveal_strlit("consultation");
    reveal_strlit("consultation supervisor");
    reveal_strlit("review supervisor");
    assert("executor"@.len() == 8 && "supervisor"@.len() == 10);
    assert("pending"@.len() == 7 && "reviewing"@.len() == 9 && "consultation"@.len() == 12);
    assert("consultation supervisor"@.len() == 23 && "review supervisor"@.len() == 17);
}

/// A task is someone else's exactly while it names an owner and the end of the lease lies
/// ahead.
pub proof fn law_claims_are_respected_while_they_run(task: TaskView, now: Instant)
    ensures
        externally_claimed(task, now) <==> task.claimed_by is Some && clock::lies_ahead(
            task.lease_until,
            now,
        ),
{
}

/// What is told of sessions that were started counts their tasks and ends with all of
/// them; what is told of tasks that wait counts them and gives the limit.
pub proof fn law_started_work_is_told(
    work: Work,
    ids: Seq<Seq<char>>,
    count: nat,
    max_parallel: nat,
)
    ensures
        ("Started "@ + work_name(work) + " session(s) for "@ + text::decimal(
            ids.len(),
        )).is_prefix_of(started_text(work, ids)),
        text::join(ids, ", "@).is_suffix_of(started_text(work, ids)),
        text::decimal(count).is_prefix_of(waiting_text(count, max_parallel)),
        (text::decimal(max_parallel) + "."@).is_suffix_of(waiting_text(count, max_parallel)),
{
    let told = started_text(work, ids);
    let head = "Started "@ + work_name(work) + " session(s) for "@ + text::decimal(ids.len());
    let tail = text::join(ids, ", "@);
    assert(told.subrange(0, head.len() as int) =~= head);
    assert(told.subrange(told.len() - tail.len(), told.len() as int) =~= tail);
    let waits = waiting_text(count, max_parallel);
    let limit = text::decimal(max_parallel) + "."@;
    assert(waits.subrange(0, text::decimal(count).len() as int) =~= text::decimal(count));
    assert(waits.subrange(waits.len() - limit.len(), waits.len() as int) =~= limit);
}

/// The sessions to be started are one for each task that was picked, in their order: each
/// is named after its role, its vendor and its task, and numbered from one on.
pub proof fn law_each_task_gets_its_session(
    launches: Seq<Launch>,
    ids: Seq<Seq<char>>,
    role: Seq<char>,
    vendor: Seq<char>,
    i: int,
    j: int,
)
    requires
        launches_of(launches, ids, role, vendor),
        0 <= i < launches.len(),
        0 <= j < launches.len(),
    ensures
        launches.len() == ids.len(),
        launches[i].task_id@ == ids[i],
        launches[i].name@ == role + ":"@ + vendor + ":"@ + ids[i],
        launches[i].index == i + 1,
        launches[i].name@ == launches[j].name@ <==> ids[i] == ids[j],
{
    agent_id::law_session_names_differ(role, vendor, ids[i], ids[j]);
}

} // verus!
