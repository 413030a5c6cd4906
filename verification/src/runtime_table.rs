//! Tables of tasks, runs and events as they are shown.
use vstd::prelude::*;
use vstd::string::*;

use crate::project::{EventRecord, RunRecord, RunView, TaskRecord, TaskView};
use crate::text;

verus! {

/// A row with one more cell, filled up to its width, and the gap after it.
pub open spec fn cell(row: Seq<char>, value: Seq<char>, width: nat) -> Seq<char> {
    row + text::pad_end(value, width) + " "@
}

/// Adds a cell to a row.
fn add_cell(row: &mut String, value: &str, width: usize)
    ensures
        final(row)@ == cell(old(row)@, value@, width as nat),
{
    row.append(text::pad_end_string(value, width).as_str());
    row.append(" ");
}

/// What is shown of an optional text.
pub open spec fn shown(value: Option<Seq<char>>) -> Seq<char> {
    match value {
        Some(s) => s,
        None => "-"@,
    }
}

/// What is shown of an optional text.
fn show(value: &Option<String>) -> (out: &str)
    ensures
        out@ == shown(text::opt_view(*value)),
{
    match value {
        Some(s) => s.as_str(),
        None => "-",
    }
}

/// The start of a text, with a mark where something was left out.
pub open spec fn compacted(value: Seq<char>, max_chars: nat) -> Seq<char> {
    if value.len() <= max_chars {
        value
    } else {
        value.take(max_chars as int) + "..."@
    }
}

/// The start of a text, with a mark where something was left out.
pub fn compact(value: &str, max_chars: usize) -> (out: String)
    ensures
        out@ == compacted(value@, max_chars as nat),
{
    let chars: Vec<char> = text::chars_of(value);
    if chars.len() <= max_chars {
        return value.to_owned();
    }
    let mut out: String = text::string_of(&chars, 0, max_chars);
    assert(out@ =~= value@.take(max_chars as int));
    out.append("...");
    out
}

// ------------------------------------------------------------------ tasks

/// A row of the table of tasks.
pub open spec fn task_cells(
    id: Seq<char>,
    status: Seq<char>,
    claimed_by: Seq<char>,
    lease_until: Seq<char>,
    heartbeat: Seq<char>,
    path: Seq<char>,
) -> Seq<char> {
    cell(
        cell(cell(cell(cell(Seq::empty(), id, 14), status, 14), claimed_by, 24), lease_until, 22),
        heartbeat,
        22,
    ) + path
}

/// The row of a task.
pub open spec fn task_row(task: TaskView) -> Seq<char> {
    task_cells(
        task.id,
        task.status,
        shown(task.claimed_by),
        shown(task.lease_until),
        shown(task.last_heartbeat),
        task.path,
    )
}

/// The head of the table of tasks.
pub open spec fn task_head() -> Seq<char> {
    task_cells("ID"@, "Status"@, "Claimed by"@, "Lease until"@, "Heartbeat"@, "Path"@)
}

/// The table of tasks.
pub open spec fn task_table(tasks: Seq<TaskRecord>) -> Seq<Seq<char>> {
    if tasks.len() == 0 {
        seq!["No tasks recorded in ferrus.db."@]
    } else {
        seq![task_head()] + tasks.map_values(|t: TaskRecord| task_row(t@))
    }
}

/// A row of the table of tasks.
fn make_task_row(
    id: &str,
    status: &str,
    claimed_by: &str,
    lease_until: &str,
    heartbeat: &str,
    path: &str,
) -> (out: String)
    ensures
        out@ == task_cells(id@, status@, claimed_by@, lease_until@, heartbeat@, path@),
{
    let mut row: String = String::new();
    assert(row@ =~= Seq::empty());
    add_cell(&mut row, id, 14);
    add_cell(&mut row, status, 14);
    add_cell(&mut row, claimed_by, 24);
    add_cell(&mut row, lease_until, 22);
    add_cell(&mut row, heartbeat, 22);
    row.append(path);
    row
}

/// The table of tasks.
pub fn task_lines(tasks: &[TaskRecord]) -> (out: Vec<String>)
    ensures
        text::views(out@) == task_table(tasks@),
{
    if tasks.len() == 0 {
        return text::one_text("No tasks recorded in ferrus.db.");
    }
    let head: String = make_task_row(
        "ID",
        "Status",
        "Claimed by",
        "Lease until",
        "Heartbeat",
        "Path",
    );
    let mut out: Vec<String> = text::one_text(head.as_str());
    let ghost all = tasks@.map_values(|t: TaskRecord| task_row(t@));
    assert(seq![task_head()] + all.take(0) =~= seq![task_head()]);
    let mut i: usize = 0;
    while i < tasks.len()
        invariant
            i <= tasks@.len(),
            all == tasks@.map_values(|t: TaskRecord| task_row(t@)),
            text::views(out@) == seq![task_head()] + all.take(i as int),
        decreases tasks@.len() - i,
    {
        let task: &TaskRecord = &tasks[i];
        let row: String = make_task_row(
            task.id.as_str(),
            task.status.as_str(),
            show(&task.claimed_by),
            show(&task.lease_until),
            show(&task.last_heartbeat),
            task.path.as_str(),
        );
        text::add_text(&mut out, row.as_str());
        assert(all.take(i + 1) =~= all.take(i as int).push(all[i as int]));
        assert(text::views(out@) =~= seq![task_head()] + all.take(i + 1));
        i = i + 1;
    }
    assert(all.take(i as int) =~= all);
    out
}

// ------------------------------------------------------------------ runs

/// A row of the table of runs.
pub open spec fn run_cells(
    id: Seq<char>,
    task: Seq<char>,
    role: Seq<char>,
    agent: Seq<char>,
    status: Seq<char>,
    pid: Seq<char>,
    started: Seq<char>,
    updated: Seq<char>,
    workspace: Seq<char>,
) -> Seq<char> {
    let start = cell(cell(cell(Seq::empty(), id, 31), task, 10), role, 10);
    cell(cell(cell(cell(cell(start, agent, 12), status, 12), pid, 8), started, 20), updated, 20)
        + workspace
}

/// What is shown of a process number.
pub open spec fn pid_text(pid: Option<u32>) -> Seq<char> {
    match pid {
        Some(n) => text::decimal(n as nat),
        None => "-"@,
    }
}

/// The row of a run.
pub open spec fn run_row(run: RunView) -> Seq<char> {
    run_cells(
        run.id,
        run.task_id,
        run.role,
        compacted(run.agent, 12),
        run.status,
        pid_text(run.pid),
        run.started_at,
        run.updated_at,
        run.workspace_path,
    )
}

/// The head of the table of runs.
pub open spec fn run_head() -> Seq<char> {
    run_cells(
        "ID"@,
        "Task"@,
        "Role"@,
        "Agent"@,
        "Status"@,
        "PID"@,
        "Started"@,
        "Updated"@,
        "Workspace"@,
    )
}

/// The table of runs.
pub open spec fn run_table(runs: Seq<RunRecord>) -> Seq<Seq<char>> {
    if runs.len() == 0 {
        seq!["No runs recorded in ferrus.db."@]
    } else {
        seq![run_head()] + runs.map_values(|r: RunRecord| run_row(r@))
    }
}

/// A row of the table of runs.
fn make_run_row(
    id: &str,
    task: &str,
    role: &str,
    agent: &str,
    status: &str,
    pid: &str,
    started: &str,
    updated: &str,
    workspace: &str,
) -> (out: String)
    ensures
        out@ == run_cells(
            id@,
            task@,
            role@,
            agent@,
            status@,
            pid@,
            started@,
            updated@,
            workspace@,
        ),
{
    let mut row: String = String::new();
    assert(row@ =~= Seq::empty());
    add_cell(&mut row, id, 31);
    add_cell(&mut row, task, 10);
    add_cell(&mut row, role, 10);
    add_cell(&mut row, agent, 12);
    add_cell(&mut row, status, 12);
    add_cell(&mut row, pid, 8);
    add_cell(&mut row, started, 20);
    add_cell(&mut row, updated, 20);
    row.append(workspace);
    row
}

/// The table of runs.
pub fn run_lines(runs: &[RunRecord]) -> (out: Vec<String>)
    ensures
        text::views(out@) == run_table(runs@),
{
    if runs.len() == 0 {
        return text::one_text("No runs recorded in ferrus.db.");
    }
    let head: String = make_run_row(
        "ID",
        "Task",
        "Role",
        "Agent",
        "Status",
        "PID",
        "Started",
        "Updated",
        "Workspace",
    );
    let mut out: Vec<String> = text::one_text(head.as_str());
    let ghost all = runs@.map_values(|r: RunRecord| run_row(r@));
    assert(seq![run_head()] + all.take(0) =~= seq![run_head()]);
    let mut i: usize = 0;
    while i < runs.len()
        invariant
            i <= runs@.len(),
            all == runs@.map_values(|r: RunRecord| run_row(r@)),
            text::views(out@) == seq![run_head()] + all.take(i as int),
        decreases runs@.len() - i,
    {
        let run: &RunRecord = &runs[i];
        let pid: String = match run.pid {
            Some(n) => text::decimal_string(n as u64),
            None => "-".to_owned(),
        };
        let agent: String = compact(run.agent.as_str(), 12);
        let row: String = make_run_row(
            run.id.as_str(),
            run.task_id.as_str(),
            run.role.as_str(),
            agent.as_str(),
            run.status.as_str(),
            pid.as_str(),
            run.started_at.as_str(),
            run.updated_at.as_str(),
            run.workspace_path.as_str(),
        );
        text::add_text(&mut out, row.as_str());
        assert(all.take(i + 1) =~= all.take(i as int).push(all[i as int]));
        assert(text::views(out@) =~= seq![run_head()] + all.take(i + 1));
        i = i + 1;
    }
    assert(all.take(i as int) =~= all);
    out
}

// ------------------------------------------------------------------ events

/// A row of the table of events.
pub open spec fn event_cells(
    id: Seq<char>,
    run: Seq<char>,
    kind: Seq<char>,
    created: Seq<char>,
    payload: Seq<char>,
) -> Seq<char> {
    cell(cell(cell(cell(Seq::empty(), id, 6), run, 31), kind, 24), created, 20) + payload
}

/// The row of an event.
pub open spec fn event_row(event: EventRecord) -> Seq<char> {
    event_cells(
        text::signed_decimal(event.id as int),
        shown(text::opt_view(event.run_id)),
        event.event_type@,
        event.created_at@,
        compacted(event.payload_json@, 96),
    )
}

/// The head of the table of events.
pub open spec fn event_head() -> Seq<char> {
    event_cells("ID"@, "Run"@, "Type"@, "Created"@, "Payload"@)
}

/// The table of events.
pub open spec fn event_table(events: Seq<EventRecord>, run_filter: Option<Seq<char>>) -> Seq<
    Seq<char>,
> {
    if events.len() == 0 {
        match run_filter {
            Some(run_id) => seq!["No events recorded for run "@ + run_id + "."@],
            None => seq!["No events recorded in ferrus.db."@],
        }
    } else {
        seq![event_head()] + events.map_values(|e: EventRecord| event_row(e))
    }
}

/// A row of the table of events.
fn make_event_row(id: &str, run: &str, kind: &str, created: &str, payload: &str) -> (out: String)
    ensures
        out@ == event_cells(id@, run@, kind@, created@, payload@),
{
    let mut row: String = String::new();
    assert(row@ =~= Seq::empty());
    add_cell(&mut row, id, 6);
    add_cell(&mut row, run, 31);
    add_cell(&mut row, kind, 24);
    add_cell(&mut row, created, 20);
    row.append(payload);
    row
}

/// The table of events, which may be those of one run.
pub fn event_lines(events: &[EventRecord], run_filter: Option<&str>) -> (out: Vec<String>)
    ensures
        text::views(out@) == event_table(events@, text::opt_str_view(run_filter)),
{
    if events.len() == 0 {
        return match run_filter {
            Some(run_id) => {
                let mut line: String = "No events recorded for run ".to_owned();
                line.append(run_id);
                line.append(".");
                text::one_text(line.as_str())
            },
            None => text::one_text("No events recorded in ferrus.db."),
        };
    }
    let head: String = make_event_row("ID", "Run", "Type", "Created", "Payload");
    let mut out: Vec<String> = text::one_text(head.as_str());
    let ghost all = events@.map_values(|e: EventRecord| event_row(e));
    assert(seq![event_head()] + all.take(0) =~= seq![event_head()]);
    let mut i: usize = 0;
    while i < events.len()
        invariant
            i <= events@.len(),
            all == events@.map_values(|e: EventRecord| event_row(e)),
            text::views(out@) == seq![event_head()] + all.take(i as int),
        decreases events@.len() - i,
    {
        let event: &EventRecord = &events[i];
        let id: String = text::signed_decimal_string(event.id);
        let payload: String = compact(event.payload_json.as_str(), 96);
        let row: String = make_event_row(
            id.as_str(),
            show(&event.run_id),
            event.event_type.as_str(),
            event.created_at.as_str(),
            payload.as_str(),
        );
        text::add_text(&mut out, row.as_str());
        assert(all.take(i + 1) =~= all.take(i as int).push(all[i as int]));
        assert(text::views(out@) =~= seq![event_head()] + all.take(i + 1));
        i = i + 1;
    }
    assert(all.take(i as int) =~= all);
    out
}

/// A cell stands behind what the row holds, at least as wide as it should be, and
/// its value is not cut.
proof fn lemma_cell(row: Seq<char>, value: Seq<char>, width: nat)
    ensures
        (row + value).is_prefix_of(cell(row, value, width)),
        value.len() <= width ==> cell(row, value, width).len() == row.len() + width + 1,
        row.is_prefix_of(cell(row, value, width)),
{
    reveal_strlit(" ");
    let whole = cell(row, value, width);
    assert(whole.subrange(0, (row + value).len() as int) =~= row + value);
    assert(whole.subrange(0, row.len() as int) =~= row);
}

/// What is too long to be shown is cut, with a mark in place of the rest; what is not
/// too long is shown whole.
pub proof fn law_long_texts_are_cut(value: Seq<char>, max_chars: nat)
    ensures
        value.len() <= max_chars ==> compacted(value, max_chars) == value,
        value.len() > max_chars ==> {
            &&& compacted(value, max_chars).len() == max_chars + 3
            &&& compacted(value, max_chars).take(max_chars as int) == value.take(max_chars as int)
            &&& "..."@.is_suffix_of(compacted(value, max_chars))
        },
{
    reveal_strlit("...");
    if value.len() > max_chars {
        let shown = compacted(value, max_chars);
        assert(shown.subrange(max_chars as int, shown.len() as int) =~= "..."@);
        assert(shown.take(max_chars as int) =~= value.take(max_chars as int));
    }
}

/// What is not known is shown as a dash, which no process number is.
pub proof fn law_unknown_is_a_dash(value: Seq<char>, pid: u32)
    ensures
        shown(None) == "-"@,
        shown(Some(value)) == value,
        pid_text(None) == "-"@,
        pid_text(Some(pid)) != "-"@,
        text::digits_value(pid_text(Some(pid))) == pid,
{
    reveal_strlit("-");
    text::lemma_decimal_round_trip(pid as nat);
    assert(pid_text(Some(pid)).len() > 0);
    assert("-"@[0] == '-');
    if pid_text(Some(pid)) == "-"@ {
        assert(text::is_digit(pid_text(Some(pid))[0]));
    }
}

/// Each row of the table of tasks is of one task, in their order, and shows its parts
/// in columns of their own.
pub proof fn law_tasks_are_shown(tasks: Seq<TaskRecord>, i: int)
    requires
        0 <= i < tasks.len(),
        tasks[i]@.id.len() <= 14,
        tasks[i]@.status.len() <= 14,
        shown(tasks[i]@.claimed_by).len() <= 24,
        shown(tasks[i]@.lease_until).len() <= 22,
        shown(tasks[i]@.last_heartbeat).len() <= 22,
    ensures
        task_table(tasks).len() == tasks.len() + 1,
        ({
            let row = task_table(tasks)[i + 1];
            let task = tasks[i]@;
            &&& task.id.is_prefix_of(row)
            &&& task.status.is_prefix_of(row.skip(15))
            &&& shown(task.claimed_by).is_prefix_of(row.skip(30))
            &&& shown(task.lease_until).is_prefix_of(row.skip(55))
            &&& shown(task.last_heartbeat).is_prefix_of(row.skip(78))
            &&& row.skip(101) == task.path
        }),
{
    let task = tasks[i]@;
    let row = task_row(task);
    let one = cell(Seq::empty(), task.id, 14);
    let two = cell(one, task.status, 14);
    let three = cell(two, shown(task.claimed_by), 24);
    let four = cell(three, shown(task.lease_until), 22);
    let five = cell(four, shown(task.last_heartbeat), 22);
    lemma_cell(Seq::empty(), task.id, 14);
    lemma_cell(one, task.status, 14);
    lemma_cell(two, shown(task.claimed_by), 24);
    lemma_cell(three, shown(task.lease_until), 22);
    lemma_cell(four, shown(task.last_heartbeat), 22);
    assert(task_table(tasks)[i + 1] == row);
    assert(row.skip(101) =~= task.path);
    lemma_column(Seq::empty(), task.id, one, row);
    lemma_column(one, task.status, two, row);
    lemma_column(two, shown(task.claimed_by), three, row);
    lemma_column(three, shown(task.lease_until), four, row);
    lemma_column(four, shown(task.last_heartbeat), five, row);
    assert(row.skip(0) =~= row);
}

/// A value that stands behind the start of a row stands there in the whole row.
proof fn lemma_column(start: Seq<char>, value: Seq<char>, more: Seq<char>, row: Seq<char>)
    requires
        (start + value).is_prefix_of(more),
        more.is_prefix_of(row),
    ensures
        value.is_prefix_of(row.skip(start.len() as int)),
{
    let rest = row.skip(start.len() as int);
    assert(rest.len() >= value.len());
    assert(rest.subrange(0, value.len() as int) =~= value) by {
        assert forall|k: int| 0 <= k < value.len() implies rest[k] == value[k] by {
            assert((start + value)[start.len() + k] == value[k]);
            assert(more[start.len() + k] == (start + value)[start.len() + k]);
            assert(row[start.len() + k] == more[start.len() + k]);
        }
    }
}

/// Each row of the table of runs is of one run, in their order, and shows its parts
/// in columns of their own.
pub proof fn law_runs_are_shown(runs: Seq<RunRecord>, i: int)
    requires
        0 <= i < runs.len(),
        runs[i]@.id.len() <= 31,
        runs[i]@.task_id.len() <= 10,
        runs[i]@.role.len() <= 10,
        runs[i]@.agent.len() <= 12,
        runs[i]@.status.len() <= 12,
        pid_text(runs[i]@.pid).len() <= 8,
        runs[i]@.started_at.len() <= 20,
        runs[i]@.updated_at.len() <= 20,
    ensures
        run_table(runs).len() == runs.len() + 1,
        ({
            let row = run_table(runs)[i + 1];
            let run = runs[i]@;
            &&& run.id.is_prefix_of(row)
            &&& run.task_id.is_prefix_of(row.skip(32))
            &&& run.role.is_prefix_of(row.skip(43))
            &&& run.agent.is_prefix_of(row.skip(54))
            &&& run.status.is_prefix_of(row.skip(67))
            &&& pid_text(run.pid).is_prefix_of(row.skip(80))
            &&& run.started_at.is_prefix_of(row.skip(89))
            &&& run.updated_at.is_prefix_of(row.skip(110))
            &&& row.skip(131) == run.workspace_path
        }),
{
    let run = runs[i]@;
    let row = run_row(run);
    let one = cell(Seq::empty(), run.id, 31);
    let two = cell(one, run.task_id, 10);
    let three = cell(two, run.role, 10);
    let four = cell(three, run.agent, 12);
    let five = cell(four, run.status, 12);
    let six = cell(five, pid_text(run.pid), 8);
    let seven = cell(six, run.started_at, 20);
    let eight = cell(seven, run.updated_at, 20);
    lemma_cell(Seq::empty(), run.id, 31);
    lemma_cell(one, run.task_id, 10);
    lemma_cell(two, run.role, 10);
    lemma_cell(three, run.agent, 12);
    lemma_cell(four, run.status, 12);
    lemma_cell(five, pid_text(run.pid), 8);
    lemma_cell(six, run.started_at, 20);
    lemma_cell(seven, run.updated_at, 20);
    assert(run_table(runs)[i + 1] == row);
    assert(row == eight + run.workspace_path);
    assert(row.skip(131) =~= run.workspace_path);
    lemma_column(Seq::empty(), run.id, one, row);
    lemma_column(one, run.task_id, two, row);
    lemma_column(two, run.role, three, row);
    lemma_column(three, run.agent, four, row);
    lemma_column(four, run.status, five, row);
    lemma_column(five, pid_text(run.pid), six, row);
    lemma_column(six, run.started_at, seven, row);
    lemma_column(seven, run.updated_at, eight, row);
    assert(row.skip(0) =~= row);
}

/// Each row of the table of events is of one event, in their order, and shows its
/// parts in columns of their own, the payload as far as it fits.
pub proof fn law_events_are_shown(
    events: Seq<EventRecord>,
    run_filter: Option<Seq<char>>,
    i: int,
)
    requires
        0 <= i < events.len(),
        text::signed_decimal(events[i].id as int).len() <= 6,
        shown(text::opt_view(events[i].run_id)).len() <= 31,
        events[i].event_type@.len() <= 24,
        events[i].created_at@.len() <= 20,
    ensures
        event_table(events, run_filter).len() == events.len() + 1,
        ({
            let row = event_table(events, run_filter)[i + 1];
            let event = events[i];
            &&& text::signed_decimal(event.id as int).is_prefix_of(row)
            &&& shown(text::opt_view(event.run_id)).is_prefix_of(row.skip(7))
            &&& event.event_type@.is_prefix_of(row.skip(39))
            &&& event.created_at@.is_prefix_of(row.skip(64))
            &&& event.payload_json@.len() <= 96 ==> row.skip(85) == event.payload_json@
            &&& row.skip(85).len() <= 99
        }),
{
    let event = events[i];
    let row = event_row(event);
    let id = text::signed_decimal(event.id as int);
    let run = shown(text::opt_view(event.run_id));
    let one = cell(Seq::empty(), id, 6);
    let two = cell(one, run, 31);
    let three = cell(two, event.event_type@, 24);
    let four = cell(three, event.created_at@, 20);
    lemma_cell(Seq::empty(), id, 6);
    lemma_cell(one, run, 31);
    lemma_cell(two, event.event_type@, 24);
    lemma_cell(three, event.created_at@, 20);
    law_long_texts_are_cut(event.payload_json@, 96);
    assert(event_table(events, run_filter)[i + 1] == row);
    assert(row.skip(85) =~= compacted(event.payload_json@, 96));
    lemma_column(Seq::empty(), id, one, row);
    lemma_column(one, run, two, row);
    lemma_column(two, event.event_type@, three, row);
    lemma_column(three, event.created_at@, four, row);
    assert(row.skip(0) =~= row);
}

} // verus!
