//! The life of a task in the runtime tables: its status, its checks, its
//! reviews, and the pauses for a consultation or a human.
use vstd::prelude::*;
use vstd::string::*;

use crate::clock;
use crate::clock::Instant;
use crate::json;
use crate::project::claims;
use crate::project::store;
use crate::project::store::Payload;
use crate::project::store::Store;
use crate::project::store::StoreView;
use crate::project::TaskCheckFailure;
use crate::project::TaskConsultRestore;
use crate::project::TaskHumanAnswerRestore;
use crate::project::TaskRecord;
use crate::project::TaskReviewRejection;
use crate::project::TaskView;
use crate::project::CURRENT_TASK_ID;
use crate::project::CURRENT_TASK_PATH;
use crate::state;
use crate::state::StateData;
use crate::state::StateView;
use crate::state::TaskState;
use crate::text;

verus! {

/// An event was to be recorded for a run that the table does not have.
#[derive(Debug, Clone, PartialEq, Eq)]
pub struct UnknownRun {
    pub run_id: String,
}

impl UnknownRun {
    /// The failure in words.
    pub fn message(&self) -> (out: String)
        ensures
            out@ == "Cannot insert event for unknown run id "@ + self.run_id@,
    {
        let mut out: String = "Cannot insert event for unknown run id ".to_owned();
        out.append(self.run_id.as_str());
        out
    }
}

// -------------------------------------------------------------------- model

/// The statuses on which a task is handed over, so that its lease ends.
pub open spec fn clears_lease(status: Seq<char>) -> bool {
    ||| status == "idle"@
    ||| status == "reset"@
    ||| status == "reviewing"@
    ||| status == "addressing"@
    ||| status == "complete"@
    ||| status == "failed"@
}

/// The first of two optional values that is there.
pub open spec fn coalesce<T>(a: Option<T>, b: Option<T>) -> Option<T> {
    if a is Some {
        a
    } else {
        b
    }
}

/// The table with a row put in: in place of the row with its id, or as a new
/// row.
pub open spec fn put_row(tasks: Seq<TaskView>, row: TaskView) -> Seq<TaskView> {
    if store::find_task(tasks, row.id) is Some {
        store::set_task(tasks, row.id, row)
    } else {
        tasks.push(row)
    }
}

/// A task's row after its status was recorded.
pub open spec fn status_row(
    known: Option<TaskView>,
    id: Seq<char>,
    path: Seq<char>,
    status: Seq<char>,
    spec_path: Option<Seq<char>>,
    milestone_id: Option<Seq<char>>,
) -> TaskView {
    let base = match known {
        Some(t) => t,
        None => store::fresh_task(id, path, status),
    };
    let row = TaskView {
        id,
        path,
        status,
        spec_path: coalesce(spec_path, base.spec_path),
        milestone_id: coalesce(milestone_id, base.milestone_id),
        ..base
    };
    if clears_lease(status) {
        store::released(row)
    } else {
        row
    }
}

/// The tables after a task's status was recorded.
pub open spec fn status_recorded(
    s: StoreView,
    id: Seq<char>,
    path: Seq<char>,
    status: Seq<char>,
    spec_path: Option<Seq<char>>,
    milestone_id: Option<Seq<char>>,
    now: Instant,
) -> StoreView {
    let row = status_row(
        store::find_task(s.tasks, id),
        id,
        path,
        status,
        spec_path,
        milestone_id,
    );
    store::with_event(
        StoreView { tasks: put_row(s.tasks, row), ..s },
        store::draft(
            None,
            "task_status_changed"@,
            seq![store::text_item("task_id"@, id), store::text_item("status"@, status)],
            now,
        ),
    )
}

/// The tables with a change to a task's row, where it has one.
pub open spec fn row_changed(
    s: StoreView,
    id: Seq<char>,
    change: spec_fn(TaskView) -> TaskView,
) -> StoreView {
    match store::find_task(s.tasks, id) {
        Some(t) => StoreView { tasks: store::set_task(s.tasks, id, change(t)), ..s },
        None => s,
    }
}

/// The failed checks of a task so far.
pub open spec fn known_retries(s: StoreView, id: Seq<char>) -> u32 {
    match store::find_task(s.tasks, id) {
        Some(t) => t.check_retries,
        None => 0,
    }
}

/// The rejected reviews of a task so far.
pub open spec fn known_cycles(s: StoreView, id: Seq<char>) -> u32 {
    match store::find_task(s.tasks, id) {
        Some(t) => t.review_cycles,
        None => 0,
    }
}

/// Why a task failed for its checks.
pub open spec fn check_limit_reason(max_retries: u32, reason: Seq<char>) -> Seq<char> {
    "Check failed "@ + text::decimal(max_retries as nat) + " consecutive times. Last failure:\n"@
        + reason
}

/// Why a task failed for its reviews.
pub open spec fn review_limit_reason(max_cycles: u32) -> Seq<char> {
    "Task rejected "@ + text::decimal(max_cycles as nat) + " times without resolution."@
}

/// What a failed check does to a task's row.
pub open spec fn check_failed(reason: Seq<char>, max_retries: u32) -> spec_fn(
    TaskView,
) -> TaskView {
    |t: TaskView|
        {
            let retries = (t.check_retries + 1) as u32;
            if retries >= max_retries {
                TaskView {
                    status: "failed"@,
                    check_retries: retries,
                    failure_reason: Some(check_limit_reason(max_retries, reason)),
                    ..store::released(t)
                }
            } else {
                TaskView { check_retries: retries, failure_reason: Some(reason), ..t }
            }
        }
}

/// What a rejected review does to a task's row.
pub open spec fn review_rejected(max_cycles: u32) -> spec_fn(TaskView) -> TaskView {
    |t: TaskView|
        {
            let cycles = (t.review_cycles + 1) as u32;
            if cycles >= max_cycles {
                TaskView {
                    status: "failed"@,
                    review_cycles: cycles,
                    failure_reason: Some(review_limit_reason(max_cycles)),
                    ..store::released(t)
                }
            } else {
                TaskView {
                    status: "addressing"@,
                    review_cycles: cycles,
                    check_retries: 0,
                    failure_reason: None,
                    ..store::released(t)
                }
            }
        }
}

/// What a passed check does to a task's row.
pub open spec fn check_passed() -> spec_fn(TaskView) -> TaskView {
    |t: TaskView| TaskView { check_retries: 0, failure_reason: None, ..t }
}

/// What a failed integration does to a task's row.
pub open spec fn integration_failed(reason: Seq<char>) -> spec_fn(TaskView) -> TaskView {
    |t: TaskView| TaskView { failure_reason: Some(reason), ..t }
}

/// What a pause does to a task's row.
pub open spec fn paused(status: Seq<char>, paused_status: Seq<char>) -> spec_fn(
    TaskView,
) -> TaskView {
    |t: TaskView| TaskView { status, paused_status: Some(paused_status), ..t }
}

/// The status in which a paused task goes on.
pub open spec fn resumed_status(t: TaskView) -> Seq<char> {
    match t.paused_status {
        Some(status) => status,
        None => "executing"@,
    }
}

/// What ending a pause does to a task's row.
pub open spec fn resumed() -> spec_fn(TaskView) -> TaskView {
    |t: TaskView| TaskView { status: resumed_status(t), paused_status: None, ..t }
}

/// Whether a task stands in a status.
pub open spec fn stands_in(s: StoreView, id: Seq<char>, status: Seq<char>) -> bool {
    store::find_task(s.tasks, id) is Some && store::find_task(s.tasks, id)->0.status == status
}

/// The tables after a task was paused.
pub open spec fn pause_recorded(
    s: StoreView,
    id: Seq<char>,
    status: Seq<char>,
    event_type: Seq<char>,
    paused_status: Seq<char>,
    now: Instant,
) -> StoreView {
    store::with_event(
        row_changed(s, id, paused(status, paused_status)),
        store::draft(
            None,
            event_type,
            seq![
                store::text_item("task_id"@, id),
                store::text_item("paused_status"@, paused_status),
            ],
            now,
        ),
    )
}

/// The tables after a task that stood in `status` went on.
pub open spec fn pause_ended(
    s: StoreView,
    id: Seq<char>,
    status: Seq<char>,
    event_type: Seq<char>,
    now: Instant,
) -> StoreView {
    if stands_in(s, id, status) {
        let t = store::find_task(s.tasks, id)->0;
        store::with_event(
            row_changed(s, id, resumed()),
            store::draft(
                None,
                event_type,
                seq![
                    store::text_item("task_id"@, id),
                    store::text_item("resumed_status"@, resumed_status(t)),
                ],
                now,
            ),
        )
    } else {
        s
    }
}

/// The tables after a failed check.
pub open spec fn check_failure_recorded(
    s: StoreView,
    id: Seq<char>,
    reason: Seq<char>,
    max_retries: u32,
    now: Instant,
) -> StoreView {
    let retries = known_retries(s, id) + 1;
    store::with_event(
        row_changed(s, id, check_failed(reason, max_retries)),
        store::draft(
            None,
            if retries >= max_retries {
                "task_check_limit_exceeded"@
            } else {
                "task_check_failed"@
            },
            seq![
                store::text_item("task_id"@, id),
                store::number_item("retries"@, retries),
                store::number_item("max_retries"@, max_retries as int),
            ],
            now,
        ),
    )
}

/// The tables after a rejected review.
pub open spec fn review_rejection_recorded(
    s: StoreView,
    id: Seq<char>,
    max_cycles: u32,
    now: Instant,
) -> StoreView {
    let cycles = known_cycles(s, id) + 1;
    store::with_event(
        row_changed(s, id, review_rejected(max_cycles)),
        store::draft(
            None,
            if cycles >= max_cycles {
                "task_review_limit_exceeded"@
            } else {
                "task_rejected"@
            },
            seq![
                store::text_item("task_id"@, id),
                store::number_item("review_cycles"@, cycles),
                store::number_item("max_review_cycles"@, max_cycles as int),
            ],
            now,
        ),
    )
}

/// An event may be recorded: it belongs to no run, or to one in the table.
pub open spec fn run_known(s: StoreView, run_id: Option<Seq<char>>) -> bool {
    run_id is None || store::find_run(s.runs, run_id->0) is Some
}

/// The id and path of the task under way.
pub open spec fn current_id(known: Option<StateView>) -> Seq<char> {
    match known {
        Some(s) => match s.active_task_id {
            Some(id) => id,
            None => CURRENT_TASK_ID@,
        },
        None => CURRENT_TASK_ID@,
    }
}

/// The path of the task under way.
pub open spec fn current_path(known: Option<StateView>) -> Seq<char> {
    match known {
        Some(s) => match s.active_task_path {
            Some(path) => path,
            None => CURRENT_TASK_PATH@,
        },
        None => CURRENT_TASK_PATH@,
    }
}

/// The contents of an optional state.
pub open spec fn opt_state(known: Option<&StateData>) -> Option<StateView> {
    match known {
        Some(s) => Some(s@),
        None => None,
    }
}

// ---------------------------------------------------------------- execution

/// Whether a task's lease ends when it enters a status.
pub fn clears_task_lease_for_status(status: &str) -> (out: bool)
    ensures
        out == clears_lease(status@),
{
    text::same(status, "idle") || text::same(status, "reset") || text::same(status, "reviewing")
        || text::same(status, "addressing") || text::same(status, "complete") || text::same(
        status,
        "failed",
    )
}

/// The status that stands for a state.
pub open spec fn status_of_state(state: TaskState) -> Seq<char> {
    match state {
        TaskState::Idle => "idle"@,
        TaskState::Executing => "executing"@,
        TaskState::Consultation => "consultation"@,
        TaskState::Reviewing => "reviewing"@,
        TaskState::Addressing => "addressing"@,
        TaskState::Complete => "complete"@,
        TaskState::Failed => "failed"@,
        TaskState::AwaitingHuman => "awaiting_human"@,
    }
}

/// The status that stands for a state.
pub fn task_status_for_state(state: &TaskState) -> (out: &'static str)
    ensures
        out@ == status_of_state(*state),
{
    match state {
        TaskState::Idle => "idle",
        TaskState::Executing => "executing",
        TaskState::Consultation => "consultation",
        TaskState::Reviewing => "reviewing",
        TaskState::Addressing => "addressing",
        TaskState::Complete => "complete",
        TaskState::Failed => "failed",
        TaskState::AwaitingHuman => "awaiting_human",
    }
}

/// Records the status of a task, and where the task comes from.
pub fn record_task_status_with_origin(
    tables: &mut Store,
    task_id: &str,
    task_path: &str,
    status: &str,
    spec_path: Option<&str>,
    milestone_id: Option<&str>,
    now: Instant,
)
    requires
        now.wf(),
    ensures
        final(tables)@ == status_recorded(
            old(tables)@,
            task_id@,
            task_path@,
            status@,
            text::opt_str_view(spec_path),
            text::opt_str_view(milestone_id),
            now,
        ),
{
    let position: Option<usize> = tables.task_position(task_id);
    let mut row: TaskRecord = match position {
        Some(i) => tables.tasks[i].copy(),
        None => store::new_task(task_id, task_path, status),
    };
    row.path = task_path.to_owned();
    row.status = status.to_owned();
    if spec_path.is_some() {
        row.spec_path = text::opt_owned(spec_path);
    }
    if milestone_id.is_some() {
        row.milestone_id = text::opt_owned(milestone_id);
    }
    if clears_task_lease_for_status(status) {
        row.claimed_by = None;
        row.lease_until = None;
        row.last_heartbeat = None;
    }
    assert(row@ == status_row(
        store::find_task(old(tables)@.tasks, task_id@),
        task_id@,
        task_path@,
        status@,
        text::opt_str_view(spec_path),
        text::opt_str_view(milestone_id),
    ));
    match position {
        Some(i) => tables.put_task(i, row),
        None => tables.push_task(row),
    }
    tables.record(
        None,
        "task_status_changed",
        store::payload_of_2(
            store::text_entry("task_id", task_id),
            store::text_entry("status", status),
        ),
        now,
    );
}

/// Records the status of a task.
pub fn record_task_status(
    tables: &mut Store,
    task_id: &str,
    task_path: &str,
    status: &str,
    now: Instant,
)
    requires
        now.wf(),
    ensures
        final(tables)@ == status_recorded(
            old(tables)@,
            task_id@,
            task_path@,
            status@,
            None,
            None,
            now,
        ),
{
    record_task_status_with_origin(tables, task_id, task_path, status, None, None, now);
}

/// The id and path of the task under way.
pub fn current_task_identity(known: Option<&StateData>) -> (out: (String, String))
    ensures
        out.0@ == current_id(opt_state(known)),
        out.1@ == current_path(opt_state(known)),
{
    match known {
        Some(state) => {
            let id: String = match &state.active_task_id {
                Some(id) => id.clone(),
                None => CURRENT_TASK_ID.to_owned(),
            };
            let path: String = match &state.active_task_path {
                Some(path) => path.clone(),
                None => CURRENT_TASK_PATH.to_owned(),
            };
            (id, path)
        },
        None => (CURRENT_TASK_ID.to_owned(), CURRENT_TASK_PATH.to_owned()),
    }
}

fn as_str_option<'a>(value: &'a Option<String>) -> (out: Option<&'a str>)
    ensures
        text::opt_str_view(out) == text::opt_view(*value),
{
    match value {
        Some(s) => Some(s.as_str()),
        None => None,
    }
}

/// Records the status of the task under way, with the spec and milestone that
/// it comes from.
pub fn record_current_task_status(
    tables: &mut Store,
    known: Option<&StateData>,
    status: &str,
    now: Instant,
)
    requires
        now.wf(),
    ensures
        final(tables)@ == status_recorded(
            old(tables)@,
            current_id(opt_state(known)),
            current_path(opt_state(known)),
            status@,
            match opt_state(known) {
                Some(s) => s.task_spec,
                None => None,
            },
            match opt_state(known) {
                Some(s) => s.task_milestone,
                None => None,
            },
            now,
        ),
{
    let (id, path): (String, String) = current_task_identity(known);
    match known {
        Some(state) => record_task_status_with_origin(
            tables,
            id.as_str(),
            path.as_str(),
            status,
            as_str_option(&state.task_spec),
            as_str_option(&state.task_milestone),
            now,
        ),
        None => record_task_status_with_origin(
            tables,
            id.as_str(),
            path.as_str(),
            status,
            None,
            None,
            now,
        ),
    }
}

/// Records an event, for a run of the table or for none.
pub fn record_runtime_event(
    tables: &mut Store,
    run_id: Option<String>,
    event_type: &str,
    payload: serde_json::Value,
    now: Instant,
) -> (out: Result<(), UnknownRun>)
    requires
        now.wf(),
    ensures
        out is Ok <==> run_known(old(tables)@, text::opt_view(run_id)),
        out is Ok ==> final(tables)@ == store::with_event(
            old(tables)@,
            store::draft_of(
                text::opt_view(run_id),
                event_type@,
                json::value_contents(payload),
                now,
            ),
        ),
        out is Err ==> final(tables)@ == old(tables)@ && out->Err_0.run_id == run_id->0,
{
    if let Some(id) = &run_id {
        if tables.run_position(id.as_str()).is_none() {
            return Err(UnknownRun { run_id: id.clone() });
        }
    }
    tables.record_value(run_id, event_type, payload, now);
    Ok(())
}

/// Records that a task's checks passed.
pub fn record_task_check_passed(tables: &mut Store, task_id: &str, now: Instant)
    requires
        now.wf(),
    ensures
        final(tables)@ == store::with_event(
            row_changed(old(tables)@, task_id@, check_passed()),
            store::draft(
                None,
                "task_check_passed"@,
                seq![store::text_item("task_id"@, task_id@)],
                now,
            ),
        ),
{
    if let Some(i) = tables.task_position(task_id) {
        let mut row: TaskRecord = tables.tasks[i].copy();
        row.check_retries = 0;
        row.failure_reason = None;
        tables.put_task(i, row);
    }
    tables.record(
        None,
        "task_check_passed",
        store::payload_of_1(store::text_entry("task_id", task_id)),
        now,
    );
}

/// Records that a task's work could not be integrated. The reason is kept with
/// the task even where the event is refused for its run.
pub fn record_task_integration_failed(
    tables: &mut Store,
    task_id: &str,
    run_id: Option<String>,
    failure_reason: &str,
    now: Instant,
) -> (out: Result<(), UnknownRun>)
    requires
        now.wf(),
    ensures
        out is Ok <==> run_known(old(tables)@, text::opt_view(run_id)),
        out is Ok ==> final(tables)@ == store::with_event(
            row_changed(old(tables)@, task_id@, integration_failed(failure_reason@)),
            store::draft(
                text::opt_view(run_id),
                "task_integration_failed"@,
                seq![
                    store::text_item("task_id"@, task_id@),
                    store::text_item("failure_reason"@, failure_reason@),
                ],
                now,
            ),
        ),
        out is Err ==> final(tables)@ == row_changed(
            old(tables)@,
            task_id@,
            integration_failed(failure_reason@),
        ) && out->Err_0.run_id == run_id->0,
{
    if let Some(i) = tables.task_position(task_id) {
        let mut row: TaskRecord = tables.tasks[i].copy();
        row.failure_reason = Some(failure_reason.to_owned());
        tables.put_task(i, row);
    }
    record_runtime_event(
        tables,
        run_id,
        "task_integration_failed",
        store::payload_value(
            &store::payload_of_2(
                store::text_entry("task_id", task_id),
                store::text_entry("failure_reason", failure_reason),
            ),
        ),
        now,
    )
}

/// Records that a task's checks failed once more. At the limit the task fails
/// and its lease ends.
pub fn record_task_check_failed(
    tables: &mut Store,
    task_id: &str,
    failure_reason: &str,
    max_retries: u32,
    now: Instant,
) -> (out: TaskCheckFailure)
    requires
        now.wf(),
        known_retries(old(tables)@, task_id@) < u32::MAX,
    ensures
        final(tables)@ == check_failure_recorded(
            old(tables)@,
            task_id@,
            failure_reason@,
            max_retries,
            now,
        ),
        ({
            let retries = (known_retries(old(tables)@, task_id@) + 1) as u32;
            out == if retries >= max_retries {
                TaskCheckFailure::LimitExceeded { retries }
            } else {
                TaskCheckFailure::Failed { retries }
            }
        }),
{
    let position: Option<usize> = tables.task_position(task_id);
    let retries: u32 = match position {
        Some(i) => tables.tasks[i].check_retries + 1,
        None => 1,
    };
    let exceeded: bool = retries >= max_retries;
    if let Some(i) = position {
        let mut row: TaskRecord = tables.tasks[i].copy();
        row.check_retries = retries;
        if exceeded {
            let mut reason: String = "Check failed ".to_owned();
            reason.append(text::decimal_string(max_retries as u64).as_str());
            reason.append(" consecutive times. Last failure:\n");
            reason.append(failure_reason);
            row.status = "failed".to_owned();
            row.failure_reason = Some(reason);
            row.claimed_by = None;
            row.lease_until = None;
            row.last_heartbeat = None;
        } else {
            row.failure_reason = Some(failure_reason.to_owned());
        }
        tables.put_task(i, row);
    }
    let payload: Vec<(String, Payload)> = store::payload_of_3(
        store::text_entry("task_id", task_id),
        store::number_entry("retries", retries as i64),
        store::number_entry("max_retries", max_retries as i64),
    );
    if exceeded {
        tables.record(None, "task_check_limit_exceeded", payload, now);
        TaskCheckFailure::LimitExceeded { retries }
    } else {
        tables.record(None, "task_check_failed", payload, now);
        TaskCheckFailure::Failed { retries }
    }
}

/// Records that a task's review was rejected once more. Its lease ends; at the
/// limit the task fails, before that it goes back to be addressed.
pub fn record_task_review_rejected(
    tables: &mut Store,
    task_id: &str,
    max_cycles: u32,
    now: Instant,
) -> (out: TaskReviewRejection)
    requires
        now.wf(),
        known_cycles(old(tables)@, task_id@) < u32::MAX,
    ensures
        final(tables)@ == review_rejection_recorded(old(tables)@, task_id@, max_cycles, now),
        ({
            let cycles = (known_cycles(old(tables)@, task_id@) + 1) as u32;
            out == if cycles >= max_cycles {
                TaskReviewRejection::LimitExceeded { cycles }
            } else {
                TaskReviewRejection::Addressing { cycles }
            }
        }),
{
    let position: Option<usize> = tables.task_position(task_id);
    let cycles: u32 = match position {
        Some(i) => tables.tasks[i].review_cycles + 1,
        None => 1,
    };
    let exceeded: bool = cycles >= max_cycles;
    if let Some(i) = position {
        let mut row: TaskRecord = tables.tasks[i].copy();
        row.review_cycles = cycles;
        row.claimed_by = None;
        row.lease_until = None;
        row.last_heartbeat = None;
        if exceeded {
            let mut reason: String = "Task rejected ".to_owned();
            reason.append(text::decimal_string(max_cycles as u64).as_str());
            reason.append(" times without resolution.");
            row.status = "failed".to_owned();
            row.failure_reason = Some(reason);
        } else {
            row.status = "addressing".to_owned();
            row.check_retries = 0;
            row.failure_reason = None;
        }
        tables.put_task(i, row);
    }
    let payload: Vec<(String, Payload)> = store::payload_of_3(
        store::text_entry("task_id", task_id),
        store::number_entry("review_cycles", cycles as i64),
        store::number_entry("max_review_cycles", max_cycles as i64),
    );
    if exceeded {
        tables.record(None, "task_review_limit_exceeded", payload, now);
        TaskReviewRejection::LimitExceeded { cycles }
    } else {
        tables.record(None, "task_rejected", payload, now);
        TaskReviewRejection::Addressing { cycles }
    }
}

fn pause(
    tables: &mut Store,
    task_id: &str,
    status: &str,
    event_type: &str,
    paused_status: &str,
    now: Instant,
)
    requires
        now.wf(),
    ensures
        final(tables)@ == pause_recorded(
            old(tables)@,
            task_id@,
            status@,
            event_type@,
            paused_status@,
            now,
        ),
{
    if let Some(i) = tables.task_position(task_id) {
        let mut row: TaskRecord = tables.tasks[i].copy();
        row.status = status.to_owned();
        row.paused_status = Some(paused_status.to_owned());
        tables.put_task(i, row);
    }
    tables.record(
        None,
        event_type,
        store::payload_of_2(
            store::text_entry("task_id", task_id),
            store::text_entry("paused_status", paused_status),
        ),
        now,
    );
}

fn resume(
    tables: &mut Store,
    task_id: &str,
    status: &str,
    event_type: &str,
    now: Instant,
) -> (out: Option<String>)
    requires
        now.wf(),
    ensures
        final(tables)@ == pause_ended(old(tables)@, task_id@, status@, event_type@, now),
        text::opt_view(out) == if stands_in(old(tables)@, task_id@, status@) {
            Some(resumed_status(store::find_task(old(tables)@.tasks, task_id@)->0))
        } else {
            None
        },
{
    let i: usize = match tables.task_position(task_id) {
        Some(i) => i,
        None => {
            return None;
        },
    };
    if !text::same(tables.tasks[i].status.as_str(), status) {
        return None;
    }
    let mut row: TaskRecord = tables.tasks[i].copy();
    let resumed: String = match &row.paused_status {
        Some(paused) => paused.clone(),
        None => "executing".to_owned(),
    };
    row.status = resumed.clone();
    row.paused_status = None;
    tables.put_task(i, row);
    tables.record(
        None,
        event_type,
        store::payload_of_2(
            store::text_entry("task_id", task_id),
            store::text_entry("resumed_status", resumed.as_str()),
        ),
        now,
    );
    Some(resumed)
}

/// Pauses a task for a consultation.
pub fn record_task_consultation_requested(
    tables: &mut Store,
    task_id: &str,
    paused_status: &str,
    now: Instant,
)
    requires
        now.wf(),
    ensures
        final(tables)@ == pause_recorded(
            old(tables)@,
            task_id@,
            "consultation"@,
            "task_consultation_requested"@,
            paused_status@,
            now,
        ),
{
    pause(tables, task_id, "consultation", "task_consultation_requested", paused_status, now);
}

/// Ends a task's consultation.
pub fn restore_task_from_consultation(tables: &mut Store, task_id: &str, now: Instant) -> (out:
    TaskConsultRestore)
    requires
        now.wf(),
    ensures
        final(tables)@ == pause_ended(
            old(tables)@,
            task_id@,
            "consultation"@,
            "task_consultation_resolved"@,
            now,
        ),
        match out {
            TaskConsultRestore::Restored { status } => stands_in(
                old(tables)@,
                task_id@,
                "consultation"@,
            ) && status@ == resumed_status(store::find_task(old(tables)@.tasks, task_id@)->0),
            TaskConsultRestore::NotInConsultation => !stands_in(
                old(tables)@,
                task_id@,
                "consultation"@,
            ),
        },
{
    match resume(tables, task_id, "consultation", "task_consultation_resolved", now) {
        Some(status) => TaskConsultRestore::Restored { status },
        None => TaskConsultRestore::NotInConsultation,
    }
}

/// Pauses a task for a human's answer.
pub fn record_task_human_question_requested(
    tables: &mut Store,
    task_id: &str,
    paused_status: &str,
    now: Instant,
)
    requires
        now.wf(),
    ensures
        final(tables)@ == pause_recorded(
            old(tables)@,
            task_id@,
            "awaiting_human"@,
            "task_human_question_requested"@,
            paused_status@,
            now,
        ),
{
    pause(tables, task_id, "awaiting_human", "task_human_question_requested", paused_status, now);
}

/// Ends a task's wait for a human.
pub fn restore_task_from_human_answer(tables: &mut Store, task_id: &str, now: Instant) -> (out:
    TaskHumanAnswerRestore)
    requires
        now.wf(),
    ensures
        final(tables)@ == pause_ended(
            old(tables)@,
            task_id@,
            "awaiting_human"@,
            "task_human_answered"@,
            now,
        ),
        match out {
            TaskHumanAnswerRestore::Restored { status } => stands_in(
                old(tables)@,
                task_id@,
                "awaiting_human"@,
            ) && status@ == resumed_status(store::find_task(old(tables)@.tasks, task_id@)->0),
            TaskHumanAnswerRestore::NotAwaitingHuman => !stands_in(
                old(tables)@,
                task_id@,
                "awaiting_human"@,
            ),
        },
{
    match resume(tables, task_id, "awaiting_human", "task_human_answered", now) {
        Some(status) => TaskHumanAnswerRestore::Restored { status },
        None => TaskHumanAnswerRestore::NotAwaitingHuman,
    }
}

// -------------------------------------------------------------------- laws

proof fn lemma_put_row(tasks: Seq<TaskView>, row: TaskView)
    requires
        store::task_ids(tasks).no_duplicates(),
    ensures
        store::task_ids(put_row(tasks, row)).no_duplicates(),
        store::find_task(put_row(tasks, row), row.id) == Some(row),
        forall|other: Seq<char>|
            other != row.id ==> #[trigger] store::find_task(put_row(tasks, row), other)
                == store::find_task(tasks, other),
{
    if store::find_task(tasks, row.id) is Some {
        store::lemma_set_task(tasks, row.id, row);
    } else {
        store::lemma_push_task(tasks, row);
    }
}

/// A change to the row of one task that keeps its id keeps the tables keyed,
/// and every other task, every run and every event.
pub proof fn law_row_change_is_local(
    s: StoreView,
    id: Seq<char>,
    change: spec_fn(TaskView) -> TaskView,
)
    requires
        store::keyed(s),
        forall|t: TaskView| (#[trigger] change(t)).id == t.id,
    ensures
        store::keyed(row_changed(s, id, change)),
        row_changed(s, id, change).runs == s.runs,
        row_changed(s, id, change).events == s.events,
        store::find_task(s.tasks, id) is Some ==> store::find_task(
            row_changed(s, id, change).tasks,
            id,
        ) == Some(change(store::find_task(s.tasks, id)->0)),
        store::find_task(s.tasks, id) is None ==> row_changed(s, id, change) == s,
        forall|other: Seq<char>|
            other != id ==> #[trigger] store::find_task(row_changed(s, id, change).tasks, other)
                == store::find_task(s.tasks, other),
{
    text::lemma_index_of(store::task_ids(s.tasks), id);
    if let Some(t) = store::find_task(s.tasks, id) {
        assert(store::task_ids(s.tasks)[store::task_index(s.tasks, id)] == t.id);
        store::lemma_set_task(s.tasks, id, change(t));
    }
}

/// Recording a status keeps the tables keyed, gives the task that status and
/// path, keeps every other task and every run, and appends one event.
pub proof fn law_status_is_recorded(
    s: StoreView,
    id: Seq<char>,
    path: Seq<char>,
    status: Seq<char>,
    spec_path: Option<Seq<char>>,
    milestone_id: Option<Seq<char>>,
    now: Instant,
)
    requires
        store::keyed(s),
    ensures
        ({
            let after = status_recorded(s, id, path, status, spec_path, milestone_id, now);
            let row = store::find_task(after.tasks, id);
            &&& store::keyed(after)
            &&& row is Some && row->0.status == status && row->0.path == path
            &&& after.runs == s.runs
            &&& after.events.len() == s.events.len() + 1
            &&& after.events.drop_last() == s.events
            &&& forall|other: Seq<char>|
                other != id ==> #[trigger] store::find_task(after.tasks, other)
                    == store::find_task(s.tasks, other)
        }),
{
    let row = status_row(
        store::find_task(s.tasks, id),
        id,
        path,
        status,
        spec_path,
        milestone_id,
    );
    lemma_put_row(s.tasks, row);
    let after = status_recorded(s, id, path, status, spec_path, milestone_id, now);
    assert(after.events.drop_last() =~= s.events);
}

/// A task that is handed over to another stage has no lease any more.
pub proof fn law_handoff_ends_lease(
    s: StoreView,
    id: Seq<char>,
    path: Seq<char>,
    status: Seq<char>,
    spec_path: Option<Seq<char>>,
    milestone_id: Option<Seq<char>>,
    now: Instant,
)
    requires
        store::keyed(s),
        clears_lease(status),
    ensures
        ({
            let after = status_recorded(s, id, path, status, spec_path, milestone_id, now);
            let row = store::find_task(after.tasks, id)->0;
            row.claimed_by is None && row.lease_until is None && row.last_heartbeat is None
        }),
{
    let row = status_row(
        store::find_task(s.tasks, id),
        id,
        path,
        status,
        spec_path,
        milestone_id,
    );
    lemma_put_row(s.tasks, row);
}

/// Recording a status without naming an origin keeps the spec and milestone
/// that are known of the task.
pub proof fn law_origin_is_kept(
    s: StoreView,
    id: Seq<char>,
    path: Seq<char>,
    status: Seq<char>,
    now: Instant,
)
    requires
        store::keyed(s),
        store::find_task(s.tasks, id) is Some,
    ensures
        ({
            let before = store::find_task(s.tasks, id)->0;
            let after = store::find_task(
                status_recorded(s, id, path, status, None, None, now).tasks,
                id,
            )->0;
            after.spec_path == before.spec_path && after.milestone_id == before.milestone_id
        }),
{
    let row = status_row(store::find_task(s.tasks, id), id, path, status, None, None);
    lemma_put_row(s.tasks, row);
}

/// A pause undoes nothing: a task that is paused and goes on stands where it
/// stood, with all else unchanged. Only a status that it had kept from an earlier
/// pause is gone.
pub proof fn law_resume_undoes_pause(
    s: StoreView,
    id: Seq<char>,
    status: Seq<char>,
    asked: Seq<char>,
    answered: Seq<char>,
    paused_at: Instant,
    resumed_at: Instant,
)
    requires
        store::keyed(s),
        store::find_task(s.tasks, id) is Some,
    ensures
        ({
            let before = store::find_task(s.tasks, id)->0;
            let waiting = pause_recorded(s, id, status, asked, before.status, paused_at);
            let after = pause_ended(waiting, id, status, answered, resumed_at);
            &&& stands_in(waiting, id, status)
            &&& after.tasks == s.tasks.update(
                store::task_index(s.tasks, id),
                TaskView { paused_status: None, ..before },
            )
            &&& before.paused_status is None ==> after.tasks == s.tasks
            &&& after.runs == s.runs
        }),
{
    let before = store::find_task(s.tasks, id)->0;
    let at = store::task_index(s.tasks, id);
    text::lemma_index_of(store::task_ids(s.tasks), id);
    assert(store::task_ids(s.tasks)[at] == before.id);
    let row = paused(status, before.status)(before);
    store::lemma_set_task(s.tasks, id, row);
    let waiting = pause_recorded(s, id, status, asked, before.status, paused_at);
    assert(store::task_ids(waiting.tasks) == store::task_ids(s.tasks));
    let after = pause_ended(waiting, id, status, answered, resumed_at);
    assert(after.tasks[at] == (TaskView { paused_status: None, ..before }));
    assert(after.tasks =~= s.tasks.update(at, TaskView { paused_status: None, ..before }));
    assert(s.tasks[at] == before);
    if before.paused_status is None {
        assert(after.tasks =~= s.tasks);
    }
}

/// The row after `n` checks in a row failed.
pub open spec fn checks_failed(t: TaskView, reason: Seq<char>, max_retries: u32, n: nat) -> TaskView
    decreases n,
{
    if n == 0 {
        t
    } else {
        check_failed(reason, max_retries)(
            checks_failed(t, reason, max_retries, (n - 1) as nat),
        )
    }
}

/// The row after `n` reviews in a row were rejected.
pub open spec fn reviews_rejected(t: TaskView, max_cycles: u32, n: nat) -> TaskView
    decreases n,
{
    if n == 0 {
        t
    } else {
        review_rejected(max_cycles)(reviews_rejected(t, max_cycles, (n - 1) as nat))
    }
}

/// The retry budget: checks that fail in a row count up; below the limit the
/// task keeps its status and its lease, and at the limit it fails.
pub proof fn law_retry_budget(t: TaskView, reason: Seq<char>, max_retries: u32, n: nat)
    requires
        0 < n <= max_retries - t.check_retries,
    ensures
        ({
            let after = checks_failed(t, reason, max_retries, n);
            &&& after.check_retries == t.check_retries + n
            &&& after.id == t.id
            &&& n < max_retries - t.check_retries ==> after.status == t.status && after.claimed_by
                == t.claimed_by && after.lease_until == t.lease_until
            &&& n == max_retries - t.check_retries ==> after.status == "failed"@
                && after.claimed_by is None && after.failure_reason == Some(
                check_limit_reason(max_retries, reason),
            )
        }),
    decreases n,
{
    if n > 1 {
        law_retry_budget(t, reason, max_retries, (n - 1) as nat);
    } else {
        reveal_with_fuel(checks_failed, 2);
    }
}

/// The review budget: rejections count up; below the limit the task goes back
/// to be addressed with its checks counted afresh, and at the limit it fails.
/// Either way its lease ends.
pub proof fn law_review_budget(t: TaskView, max_cycles: u32, n: nat)
    requires
        0 < n <= max_cycles - t.review_cycles,
    ensures
        ({
            let after = reviews_rejected(t, max_cycles, n);
            &&& after.review_cycles == t.review_cycles + n
            &&& after.id == t.id
            &&& after.claimed_by is None && after.lease_until is None
            &&& n < max_cycles - t.review_cycles ==> after.status == "addressing"@
                && after.check_retries == 0 && after.failure_reason is None
            &&& n == max_cycles - t.review_cycles ==> after.status == "failed"@
                && after.failure_reason == Some(review_limit_reason(max_cycles))
        }),
    decreases n,
{
    if n > 1 {
        law_review_budget(t, max_cycles, (n - 1) as nat);
    } else {
        reveal_with_fuel(reviews_rejected, 2);
    }
}

/// A check that passes gives a task its whole retry budget back.
pub proof fn law_passed_check_restores_budget(t: TaskView)
    ensures
        check_passed()(t).check_retries == 0,
        check_passed()(t).failure_reason is None,
        check_passed()(t).status == t.status,
        check_passed()(t).review_cycles == t.review_cycles,
{
}

// ------------------------------------------------------------------ the life of a task

/// What a failed check leaves behind. The check counts; below the limit the task goes
/// on with the reason noted, and at the limit it fails, says so with the last reason,
/// and nobody holds it any more. No other row changes, and the event tells the count.
pub proof fn law_failed_check_counts(
    s: StoreView,
    i: int,
    reason: Seq<char>,
    max_retries: u32,
    now: Instant,
)
    requires
        store::keyed(s),
        0 <= i < s.tasks.len(),
        s.tasks[i].check_retries < u32::MAX,
    ensures
        ({
            let t = s.tasks[i];
            let n = t.check_retries + 1;
            let after = check_failure_recorded(s, t.id, reason, max_retries, now);
            &&& known_retries(s, t.id) == t.check_retries
            &&& claims::row_alone(
                s,
                after,
                i,
                if n >= max_retries {
                    TaskView {
                        status: "failed"@,
                        check_retries: n as u32,
                        failure_reason: Some(
                            "Check failed "@ + text::decimal(max_retries as nat)
                                + " consecutive times. Last failure:\n"@ + reason,
                        ),
                        claimed_by: None,
                        lease_until: None,
                        last_heartbeat: None,
                        ..t
                    }
                } else {
                    TaskView { check_retries: n as u32, failure_reason: Some(reason), ..t }
                },
            )
            &&& after.events.last() == store::draft(
                None,
                if n >= max_retries {
                    "task_check_limit_exceeded"@
                } else {
                    "task_check_failed"@
                },
                seq![
                    store::text_item("task_id"@, t.id),
                    store::number_item("retries"@, n),
                    store::number_item("max_retries"@, max_retries as int),
                ],
                now,
            )
        }),
{
    let t = s.tasks[i];
    store::law_rows_are_found_by_id(s, t.id, i);
    let after = check_failure_recorded(s, t.id, reason, max_retries, now);
    claims::lemma_change_at(s, i, check_failed(reason, max_retries), after.events.last());
}

/// What a rejected review leaves behind. The rejection counts, and nobody holds the task
/// any more. Below the limit it is to be addressed, with its checks counted afresh and no
/// reason noted; at the limit it fails and says so. No other row changes, and the event
/// tells the count.
pub proof fn law_rejection_counts(s: StoreView, i: int, max_cycles: u32, now: Instant)
    requires
        store::keyed(s),
        0 <= i < s.tasks.len(),
        s.tasks[i].review_cycles < u32::MAX,
    ensures
        ({
            let t = s.tasks[i];
            let n = t.review_cycles + 1;
            let free = TaskView { claimed_by: None, lease_until: None, last_heartbeat: None, ..t };
            let after = review_rejection_recorded(s, t.id, max_cycles, now);
            &&& known_cycles(s, t.id) == t.review_cycles
            &&& claims::row_alone(
                s,
                after,
                i,
                if n >= max_cycles {
                    TaskView {
                        status: "failed"@,
                        review_cycles: n as u32,
                        failure_reason: Some(
                            "Task rejected "@ + text::decimal(max_cycles as nat)
                                + " times without resolution."@,
                        ),
                        ..free
                    }
                } else {
                    TaskView {
                        status: "addressing"@,
                        review_cycles: n as u32,
                        check_retries: 0,
                        failure_reason: None,
                        ..free
                    }
                },
            )
            &&& after.events.last() == store::draft(
                None,
                if n >= max_cycles {
                    "task_review_limit_exceeded"@
                } else {
                    "task_rejected"@
                },
                seq![
                    store::text_item("task_id"@, t.id),
                    store::number_item("review_cycles"@, n),
                    store::number_item("max_review_cycles"@, max_cycles as int),
                ],
                now,
            )
        }),
{
    let t = s.tasks[i];
    store::law_rows_are_found_by_id(s, t.id, i);
    let after = review_rejection_recorded(s, t.id, max_cycles, now);
    claims::lemma_change_at(s, i, review_rejected(max_cycles), after.events.last());
}

/// What a passed check and a failed integration do to a row: the one clears the count
/// of failed checks and the reason, the other notes the reason, and nothing else
/// changes.
pub proof fn law_outcomes_are_noted(s: StoreView, i: int, reason: Seq<char>, event: store::DraftView)
    requires
        store::keyed(s),
        0 <= i < s.tasks.len(),
    ensures
        ({
            let t = s.tasks[i];
            &&& claims::row_alone(
                s,
                store::with_event(row_changed(s, t.id, check_passed()), event),
                i,
                TaskView { check_retries: 0, failure_reason: None, ..t },
            )
            &&& claims::row_alone(
                s,
                store::with_event(row_changed(s, t.id, integration_failed(reason)), event),
                i,
                TaskView { failure_reason: Some(reason), ..t },
            )
        }),
{
    claims::lemma_change_at(s, i, check_passed(), event);
    claims::lemma_change_at(s, i, integration_failed(reason), event);
}

/// A pause keeps where the task stood and changes nothing else of it, its lease
/// included. It ends only for a task that stands in the status of the pause: then the
/// task stands where it stood, or executes where that is not known, and nothing else of
/// it changes. For any other task ending a pause changes nothing.
pub proof fn law_pause_keeps_the_place(
    s: StoreView,
    i: int,
    status: Seq<char>,
    stood: Seq<char>,
    kind: Seq<char>,
    now: Instant,
)
    requires
        store::keyed(s),
        0 <= i < s.tasks.len(),
    ensures
        ({
            let t = s.tasks[i];
            let waiting = pause_recorded(s, t.id, status, kind, stood, now);
            let after = pause_ended(s, t.id, status, kind, now);
            let resumes = if t.paused_status is Some {
                t.paused_status->0
            } else {
                "executing"@
            };
            &&& claims::row_alone(
                s,
                waiting,
                i,
                TaskView { status, paused_status: Some(stood), ..t },
            )
            &&& waiting.events.last() == store::draft(
                None,
                kind,
                seq![store::text_item("task_id"@, t.id), store::text_item("paused_status"@, stood)],
                now,
            )
            &&& stands_in(s, t.id, status) <==> t.status == status
            &&& if t.status == status {
                &&& resumed_status(t) == resumes
                &&& claims::row_alone(
                    s,
                    after,
                    i,
                    TaskView { status: resumes, paused_status: None, ..t },
                )
                &&& after.events.last() == store::draft(
                    None,
                    kind,
                    seq![
                        store::text_item("task_id"@, t.id),
                        store::text_item("resumed_status"@, resumes),
                    ],
                    now,
                )
            } else {
                after == s
            }
        }),
{
    let t = s.tasks[i];
    store::law_rows_are_found_by_id(s, t.id, i);
    let waiting = pause_recorded(s, t.id, status, kind, stood, now);
    claims::lemma_change_at(s, i, paused(status, stood), waiting.events.last());
    if t.status == status {
        let after = pause_ended(s, t.id, status, kind, now);
        claims::lemma_change_at(s, i, resumed(), after.events.last());
    }
}

/// What recording a status does to the row of a task: it takes the status and the path,
/// and the origin where one is named. Its lease ends when the task goes idle, is reset,
/// goes to review, is to be addressed, is complete or has failed, and else stays. All
/// that is counted and noted of the task stays, and so does every other row.
pub proof fn law_status_changes_little(
    s: StoreView,
    i: int,
    path: Seq<char>,
    status: Seq<char>,
    spec_path: Option<Seq<char>>,
    milestone_id: Option<Seq<char>>,
    now: Instant,
)
    requires
        store::keyed(s),
        0 <= i < s.tasks.len(),
    ensures
        ({
            let t = s.tasks[i];
            let after = status_recorded(s, t.id, path, status, spec_path, milestone_id, now);
            let ends = status == "idle"@ || status == "reset"@ || status == "reviewing"@ || status
                == "addressing"@ || status == "complete"@ || status == "failed"@;
            &&& claims::row_alone(
                s,
                after,
                i,
                TaskView {
                    path,
                    status,
                    spec_path: if spec_path is Some {
                        spec_path
                    } else {
                        t.spec_path
                    },
                    milestone_id: if milestone_id is Some {
                        milestone_id
                    } else {
                        t.milestone_id
                    },
                    claimed_by: if ends {
                        None
                    } else {
                        t.claimed_by
                    },
                    lease_until: if ends {
                        None
                    } else {
                        t.lease_until
                    },
                    last_heartbeat: if ends {
                        None
                    } else {
                        t.last_heartbeat
                    },
                    ..t
                },
            )
            &&& after.events == s.events.push(
                store::draft(
                    None,
                    "task_status_changed"@,
                    seq![store::text_item("task_id"@, t.id), store::text_item("status"@, status)],
                    now,
                ),
            )
        }),
{
    let t = s.tasks[i];
    store::law_rows_are_found_by_id(s, t.id, i);
    claims::lemma_keyed_index(s, i);
    let after = status_recorded(s, t.id, path, status, spec_path, milestone_id, now);
    assert(s.events =~= after.events.take(s.events.len() as int));
}

/// Recording a status of a task that the tables lack puts it behind the others, with
/// nothing counted, nothing held and no pause.
pub proof fn law_new_task_starts_clean(
    s: StoreView,
    id: Seq<char>,
    path: Seq<char>,
    status: Seq<char>,
    spec_path: Option<Seq<char>>,
    milestone_id: Option<Seq<char>>,
    now: Instant,
)
    requires
        store::keyed(s),
        forall|i: int| 0 <= i < s.tasks.len() ==> (#[trigger] s.tasks[i]).id != id,
    ensures
        status_recorded(s, id, path, status, spec_path, milestone_id, now).tasks == s.tasks.push(
            TaskView {
                id,
                path,
                spec_path,
                milestone_id,
                status,
                paused_status: None,
                claimed_by: None,
                lease_until: None,
                last_heartbeat: None,
                check_retries: 0,
                review_cycles: 0,
                failure_reason: None,
            },
        ),
        status_recorded(s, id, path, status, spec_path, milestone_id, now).runs == s.runs,
{
    store::law_rows_are_found_by_id(s, id, 0);
    if let Some(t) = store::find_task(s.tasks, id) {
        let k = choose|k: int| 0 <= k < s.tasks.len() && s.tasks[k] == t;
        assert(s.tasks[k].id != id);
    }
}

/// The task under way is the one that the state names; without one it is that of a
/// project without task artifacts.
pub proof fn law_current_task_is_the_active_one(state: StateView)
    ensures
        current_id(Some(state)) == if state.active_task_id is Some {
            state.active_task_id->0
        } else {
            "current"@
        },
        current_path(Some(state)) == if state.active_task_path is Some {
            state.active_task_path->0
        } else {
            CURRENT_TASK_PATH@
        },
        current_id(None) == "current"@,
        current_path(None) == CURRENT_TASK_PATH@,
{
}

/// A state and the status that stands for it have the same name, but for its letters:
/// every state has a status of its own.
pub proof fn law_states_have_their_own_status(a: TaskState, b: TaskState)
    ensures
        status_of_state(a) == status_of_state(b) ==> a == b,
        status_of_state(TaskState::Executing) == "executing"@,
        status_of_state(TaskState::Reviewing) == "reviewing"@,
        status_of_state(TaskState::Addressing) == "addressing"@,
        status_of_state(TaskState::Consultation) == "consultation"@,
        status_of_state(TaskState::AwaitingHuman) == "awaiting_human"@,
        status_of_state(TaskState::Complete) == "complete"@,
        status_of_state(TaskState::Failed) == "failed"@,
        status_of_state(TaskState::Idle) == "idle"@,
{
    reveal_strlit("idle");
    reveal_strlit("executing");
    reveal_strlit("reviewing");
    reveal_strlit("addressing");
    reveal_strlit("consultation");
    reveal_strlit("awaiting_human");
    reveal_strlit("complete");
    reveal_strlit("failed");
    assert("idle"@[0] == 'i' && "executing"@[0] == 'e' && "reviewing"@[0] == 'r');
    assert("addressing"@[1] == 'd' && "awaiting_human"@[1] == 'w' && "failed"@[0] == 'f');
    assert("addressing"@[0] == 'a' && "awaiting_human"@[0] == 'a');
    assert("consultation"@[2] == 'n' && "complete"@[2] == 'm');
    assert("consultation"@[0] == 'c' && "complete"@[0] == 'c');
}

/// An event may be recorded for no run, or for one that the tables have.
pub proof fn law_events_need_their_run(s: StoreView, run_id: Seq<char>)
    ensures
        run_known(s, None),
        run_known(s, Some(run_id)) <==> exists|i: int|
            0 <= i < s.runs.len() && (#[trigger] s.runs[i]).id == run_id,
{
    let ids = store::run_ids(s.runs);
    text::lemma_index_of(ids, run_id);
    if run_known(s, Some(run_id)) {
        let k = store::run_index(s.runs, run_id);
        assert(ids[k] == s.runs[k].id);
    }
    if exists|i: int| 0 <= i < s.runs.len() && (#[trigger] s.runs[i]).id == run_id {
        let i = choose|i: int| 0 <= i < s.runs.len() && (#[trigger] s.runs[i]).id == run_id;
        assert(ids[i] == run_id);
    }
}

} // verus!
