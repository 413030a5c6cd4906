//! Reading the runtime tables: lists of tasks, runs, events and projects.
use vstd::prelude::*;

use crate::project::claims;
use crate::project::order;
use crate::project::recovery;
use crate::project::store;
use crate::project::store::Store;
use crate::project::EventRecord;
use crate::project::registry::MetadataView;
use crate::project::HumanQuestion;
use crate::project::ProjectListEntry;
use crate::project::ProjectMetadata;
use crate::project::RunRecord;
use crate::project::RunView;
use crate::project::TaskRecord;
use crate::project::TaskView;
use crate::rows;
use crate::text;

verus! {

impl rows::Ordered for TaskRecord {
    open spec fn before() -> spec_fn(TaskView, TaskView) -> bool {
        order::by_listing()
    }

    fn precedes(&self, other: &TaskRecord) -> (out: bool) {
        order::listed_before(self, other)
    }
}

impl rows::Ordered for RunRecord {
    open spec fn before() -> spec_fn(RunView, RunView) -> bool {
        order::by_recency()
    }

    fn precedes(&self, other: &RunRecord) -> (out: bool) {
        order::more_recent(self, other)
    }
}

/// The contents of an event.
#[verifier::ext_equal]
pub struct EventRowView {
    pub id: i64,
    pub run_id: Option<Seq<char>>,
    pub event_type: Seq<char>,
    pub payload_json: Seq<char>,
    pub created_at: Seq<char>,
}

impl View for EventRecord {
    type V = EventRowView;

    open spec fn view(&self) -> EventRowView {
        EventRowView {
            id: self.id,
            run_id: text::opt_view(self.run_id),
            event_type: self.event_type@,
            payload_json: self.payload_json@,
            created_at: self.created_at@,
        }
    }
}

/// Events with the newest first.
pub open spec fn newest_first() -> spec_fn(EventRowView, EventRowView) -> bool {
    |a: EventRowView, b: EventRowView| a.id > b.id
}

impl rows::Ordered for EventRecord {
    open spec fn before() -> spec_fn(EventRowView, EventRowView) -> bool {
        newest_first()
    }

    fn precedes(&self, other: &EventRecord) -> (out: bool) {
        self.id > other.id
    }
}

/// The contents of a row of the project list.
#[verifier::ext_equal]
pub struct ProjectRowView {
    pub id: Seq<char>,
    pub name: Option<Seq<char>>,
    pub workspace_dir: Option<Seq<char>>,
    pub data_dir: Seq<char>,
    pub database_exists: bool,
    pub last_opened_at: Option<Seq<char>>,
    pub error: Option<Seq<char>>,
}

impl View for ProjectListEntry {
    type V = ProjectRowView;

    open spec fn view(&self) -> ProjectRowView {
        ProjectRowView {
            id: self.id@,
            name: text::opt_view(self.name),
            workspace_dir: text::opt_view(self.workspace_dir),
            data_dir: self.data_dir@,
            database_exists: self.database_exists,
            last_opened_at: text::opt_view(self.last_opened_at),
            error: text::opt_view(self.error),
        }
    }
}

/// Projects with the one that was opened last first, then those of which that
/// is not known; equal ones by id.
pub open spec fn by_opening() -> spec_fn(ProjectRowView, ProjectRowView) -> bool {
    |a: ProjectRowView, b: ProjectRowView|
        match (a.last_opened_at, b.last_opened_at) {
            (Some(x), Some(y)) => text::text_lt(y, x) || (x == y && text::text_lt(a.id, b.id)),
            (Some(_), None) => true,
            (None, Some(_)) => false,
            (None, None) => text::text_lt(a.id, b.id),
        }
}

impl rows::Ordered for ProjectListEntry {
    open spec fn before() -> spec_fn(ProjectRowView, ProjectRowView) -> bool {
        by_opening()
    }

    fn precedes(&self, other: &ProjectListEntry) -> (out: bool) {
        match (&self.last_opened_at, &other.last_opened_at) {
            (Some(x), Some(y)) => text::text_less(y.as_str(), x.as_str()) || (text::same(
                x.as_str(),
                y.as_str(),
            ) && text::text_less(self.id.as_str(), other.id.as_str())),
            (Some(_), None) => true,
            (None, Some(_)) => false,
            (None, None) => text::text_less(self.id.as_str(), other.id.as_str()),
        }
    }
}

/// At most `limit` rows from the front.
pub open spec fn front<T>(rows: Seq<T>, limit: usize) -> Seq<T> {
    if limit < rows.len() {
        rows.take(limit as int)
    } else {
        rows
    }
}

fn cut<T>(list: &mut Vec<T>, limit: usize)
    ensures
        final(list)@ == front(old(list)@, limit),
{
    if limit < list.len() {
        list.truncate(limit);
        assert(list@ =~= front(old(list)@, limit));
    }
}

/// The tasks of the table, ordered for a listing.
pub fn list_tasks(tables: &Store) -> (out: Vec<TaskRecord>)
    ensures
        rows::contents(out@) == rows::in_order(tables@.tasks, order::by_listing()),
{
    let mut copies: Vec<TaskRecord> = Vec::new();
    let mut i: usize = 0;
    while i < tables.tasks.len()
        invariant
            i <= tables.tasks@.len(),
            copies@ == tables.tasks@.take(i as int),
        decreases tables.tasks@.len() - i,
    {
        copies.push(tables.tasks[i].copy());
        i = i + 1;
        assert(tables.tasks@.take(i as int) =~= tables.tasks@.take(i - 1).push(
            tables.tasks@[i - 1],
        ));
    }
    assert(copies@ =~= tables.tasks@);
    assert(rows::contents(copies@) =~= tables@.tasks);
    rows::sort(copies)
}

/// The latest runs of the table.
pub fn list_runs(tables: &Store, limit: usize) -> (out: Vec<RunRecord>)
    ensures
        rows::contents(out@) == front(rows::in_order(tables@.runs, order::by_recency()), limit),
{
    let mut copies: Vec<RunRecord> = Vec::new();
    let mut i: usize = 0;
    while i < tables.runs.len()
        invariant
            i <= tables.runs@.len(),
            copies@ == tables.runs@.take(i as int),
        decreases tables.runs@.len() - i,
    {
        copies.push(tables.runs[i].copy());
        i = i + 1;
        assert(tables.runs@.take(i as int) =~= tables.runs@.take(i - 1).push(tables.runs@[i - 1]));
    }
    assert(copies@ =~= tables.runs@);
    assert(rows::contents(copies@) =~= tables@.runs);
    let mut out: Vec<RunRecord> = rows::sort(copies);
    let ghost sorted = out@;
    cut(&mut out, limit);
    assert(rows::contents(out@) =~= front(rows::contents(sorted), limit));
    out
}

/// The events of a run, or all of them.
pub open spec fn of_run(run_id: Option<Seq<char>>) -> spec_fn(EventRowView) -> bool {
    |e: EventRowView| run_id is None || e.run_id == run_id
}

/// The latest events, of one run or of all.
pub fn list_events(events: &Vec<EventRecord>, limit: usize, run_id: Option<&str>) -> (out: Vec<
    EventRecord,
>)
    ensures
        rows::contents(out@) == front(
            rows::in_order(
                rows::contents(events@).filter(of_run(text::opt_str_view(run_id))),
                newest_first(),
            ),
            limit,
        ),
{
    let ghost all = rows::contents(events@);
    let ghost wanted = of_run(text::opt_str_view(run_id));
    let mut kept: Vec<EventRecord> = Vec::new();
    let mut i: usize = 0;
    proof {
        reveal(Seq::filter);
        assert(rows::contents(kept@) =~= all.take(0).filter(wanted));
    }
    while i < events.len()
        invariant
            i <= events@.len(),
            all == rows::contents(events@),
            wanted == of_run(text::opt_str_view(run_id)),
            rows::contents(kept@) == all.take(i as int).filter(wanted),
        decreases events@.len() - i,
    {
        let ghost more = all.take(i + 1);
        assert(more.drop_last() =~= all.take(i as int));
        assert(more.last() == all[i as int]);
        assert(all[i as int] == events@[i as int]@);
        proof {
            reveal(Seq::filter);
        }
        let fits: bool = match run_id {
            Some(id) => text::opt_is(&events[i].run_id, id),
            None => true,
        };
        if fits {
            let row = EventRecord {
                id: events[i].id,
                run_id: text::opt_clone(&events[i].run_id),
                event_type: events[i].event_type.clone(),
                payload_json: events[i].payload_json.clone(),
                created_at: events[i].created_at.clone(),
            };
            let ghost before = rows::contents(kept@);
            kept.push(row);
            assert(rows::contents(kept@) =~= before.push(row@));
            assert(more.filter(wanted) =~= before.push(row@));
        }
        i = i + 1;
    }
    assert(all.take(i as int) =~= all);
    let mut out: Vec<EventRecord> = rows::sort(kept);
    let ghost sorted = out@;
    cut(&mut out, limit);
    assert(rows::contents(out@) =~= front(rows::contents(sorted), limit));
    out
}

/// The row of the project list for the directory `dir_name`, which stands at
/// `data_dir`: from the project's metadata, or from what is wrong with them.
pub open spec fn project_row(
    dir_name: Seq<char>,
    data_dir: Seq<char>,
    database_exists: bool,
    metadata: Result<MetadataView, Seq<char>>,
) -> ProjectRowView {
    match metadata {
        Ok(known) => ProjectRowView {
            id: known.id,
            name: Some(known.name),
            workspace_dir: Some(known.workspace_dir),
            data_dir,
            database_exists,
            last_opened_at: Some(known.last_opened_at),
            error: None,
        },
        Err(error) => ProjectRowView {
            id: dir_name,
            name: None,
            workspace_dir: None,
            data_dir,
            database_exists,
            last_opened_at: None,
            error: Some(error),
        },
    }
}

/// The row of the project list for a directory, from the project's metadata or
/// from what is wrong with them.
pub fn list_entry(
    dir_name: &str,
    data_dir: &str,
    database_exists: bool,
    metadata: Result<&ProjectMetadata, &str>,
) -> (out: ProjectListEntry)
    ensures
        out@ == project_row(
            dir_name@,
            data_dir@,
            database_exists,
            match metadata {
                Ok(known) => Ok(known@),
                Err(error) => Err(error@),
            },
        ),
{
    match metadata {
        Ok(known) => ProjectListEntry {
            id: known.id.clone(),
            name: Some(known.name.clone()),
            workspace_dir: Some(known.workspace_dir.clone()),
            data_dir: data_dir.to_owned(),
            database_exists,
            last_opened_at: Some(known.last_opened_at.clone()),
            error: None,
        },
        Err(error) => ProjectListEntry {
            id: dir_name.to_owned(),
            name: None,
            workspace_dir: None,
            data_dir: data_dir.to_owned(),
            database_exists,
            last_opened_at: None,
            error: Some(error.to_owned()),
        },
    }
}

/// The registered projects, the one that was opened last first.
pub fn list_registered_projects(entries: Vec<ProjectListEntry>) -> (out: Vec<ProjectListEntry>)
    ensures
        rows::contents(out@) == rows::in_order(rows::contents(entries@), by_opening()),
{
    rows::sort(entries)
}

/// The tasks that wait for a human.
pub open spec fn waits_for_human() -> spec_fn(TaskView) -> bool {
    |t: TaskView| t.status == "awaiting_human"@
}

/// The tasks that wait for a human, ordered for a listing.
pub fn tasks_awaiting_human(tables: &Store) -> (out: Vec<TaskRecord>)
    ensures
        rows::contents(out@) == rows::in_order(tables@.tasks, order::by_listing()).filter(
            waits_for_human(),
        ),
{
    let list: Vec<TaskRecord> = list_tasks(tables);
    let ghost all = rows::contents(list@);
    let ghost wanted = waits_for_human();
    let mut out: Vec<TaskRecord> = Vec::new();
    let mut i: usize = 0;
    proof {
        reveal(Seq::filter);
        assert(rows::contents(out@) =~= all.take(0).filter(wanted));
    }
    while i < list.len()
        invariant
            i <= list@.len(),
            all == rows::contents(list@),
            wanted == waits_for_human(),
            rows::contents(out@) == all.take(i as int).filter(wanted),
        decreases list@.len() - i,
    {
        let ghost more = all.take(i + 1);
        assert(more.drop_last() =~= all.take(i as int));
        assert(more.last() == all[i as int]);
        assert(all[i as int] == list@[i as int]@);
        proof {
            reveal(Seq::filter);
        }
        if text::same(list[i].status.as_str(), "awaiting_human") {
            let row: TaskRecord = list[i].copy();
            let ghost before = rows::contents(out@);
            out.push(row);
            assert(rows::contents(out@) =~= before.push(row@));
            assert(more.filter(wanted) =~= before.push(row@));
        }
        i = i + 1;
    }
    assert(all.take(i as int) =~= all);
    out
}

/// The question of a waiting task, from what its question file holds.
pub fn human_question(task: &TaskRecord, contents: &str) -> (out: HumanQuestion)
    ensures
        out.task_id@ == task.id@,
        out.task_path@ == task.path@,
        out.run_dir@ == claims::run_dir(task.id@),
        out.question@ == text::trim(contents@),
{
    HumanQuestion {
        task_id: task.id.clone(),
        task_path: task.path.clone(),
        run_dir: claims::run_dir_for_task(task.id.as_str()),
        question: text::trim_string(contents),
    }
}

/// The tasks from one milestone of a spec that are still worked on.
pub open spec fn from_origin(spec_path: Seq<char>, milestone_id: Seq<char>) -> spec_fn(
    TaskView,
) -> bool {
    |t: TaskView|
        t.spec_path == Some(spec_path) && t.milestone_id == Some(milestone_id)
            && !recovery::terminal(t.status)
}

/// The first task by id from one milestone of a spec that is still worked on.
pub fn find_non_terminal_task_by_origin(
    tables: &Store,
    spec_path: &str,
    milestone_id: &str,
) -> (out: Option<TaskRecord>)
    ensures
        ({
            let k = rows::pick(
                tables@.tasks,
                from_origin(spec_path@, milestone_id@),
                order::by_id(),
            );
            match out {
                Some(t) => k >= 0 && t@ == tables@.tasks[k],
                None => k < 0,
            }
        }),
{
    let ghost all = tables@.tasks;
    let ghost wanted = from_origin(spec_path@, milestone_id@);
    let mut best: Option<usize> = None;
    let mut i: usize = 0;
    while i < tables.tasks.len()
        invariant
            i <= tables.tasks@.len(),
            all == tables@.tasks,
            wanted == from_origin(spec_path@, milestone_id@),
            order::at_or_none(best) == rows::pick(all.take(i as int), wanted, order::by_id()),
            best is Some ==> best->0 < i,
        decreases tables.tasks@.len() - i,
    {
        proof {
            order::lemma_pick_next(all, i as int, wanted, order::by_id());
        }
        let t: &TaskRecord = &tables.tasks[i];
        assert(all[i as int] == t@);
        let fits: bool = text::opt_is(&t.spec_path, spec_path) && text::opt_is(
            &t.milestone_id,
            milestone_id,
        ) && !recovery::is_terminal_status(t.status.as_str());
        assert(fits == wanted(all[i as int]));
        if fits {
            let better: bool = match best {
                Some(b) => {
                    assert(all[b as int] == tables.tasks@[b as int]@);
                    text::text_less(t.id.as_str(), tables.tasks[b].id.as_str())
                },
                None => true,
            };
            if better {
                best = Some(i);
            }
        }
        i = i + 1;
    }
    assert(all.take(i as int) =~= all);
    match best {
        Some(b) => Some(tables.tasks[b].copy()),
        None => None,
    }
}

/// A listing loses no task and invents none, and puts them in order.
pub proof fn law_listing_is_complete(tasks: Seq<TaskView>)
    ensures
        rows::in_order(tasks, order::by_listing()).to_multiset() == tasks.to_multiset(),
        rows::is_in_order(rows::in_order(tasks, order::by_listing()), order::by_listing()),
{
    order::lemma_by_listing();
    rows::lemma_in_order(tasks, order::by_listing());
}

proof fn lemma_opened_before(a: ProjectRowView, b: ProjectRowView, c: ProjectRowView)
    ensures
        !by_opening()(a, a),
        by_opening()(a, b) && by_opening()(b, c) ==> by_opening()(a, c),
        by_opening()(a, b) && !by_opening()(a, c) ==> by_opening()(c, b),
{
    order::lemma_text_order(a.id, b.id, c.id);
    order::lemma_text_order(a.id, c.id, b.id);
    if let (Some(x), Some(y)) = (a.last_opened_at, b.last_opened_at) {
        order::lemma_text_order(y, x, x);
        order::lemma_text_order(x, y, x);
    }
    if let (Some(x), Some(z)) = (a.last_opened_at, c.last_opened_at) {
        order::lemma_text_order(z, x, x);
        order::lemma_text_order(x, z, x);
    }
    if let Some(x) = a.last_opened_at {
        order::lemma_text_order(x, x, x);
    }
    if let (Some(x), Some(y), Some(z)) = (a.last_opened_at, b.last_opened_at, c.last_opened_at) {
        order::lemma_text_order(z, y, x);
        order::lemma_text_order(y, z, x);
    }
}

/// The order of openings is one.
proof fn lemma_by_opening()
    ensures
        rows::is_order(by_opening()),
{
    let f = by_opening();
    assert forall|a: ProjectRowView| !#[trigger] f(a, a) by {
        lemma_opened_before(a, a, a);
    }
    assert forall|a: ProjectRowView, b: ProjectRowView, c: ProjectRowView| #[trigger]
        f(a, b) && #[trigger] f(b, c) implies f(a, c) by {
        lemma_opened_before(a, b, c);
    }
    assert forall|a: ProjectRowView, b: ProjectRowView, c: ProjectRowView| #[trigger]
        f(a, b) && !(#[trigger] f(a, c)) implies f(c, b) by {
        lemma_opened_before(a, b, c);
    }
}

/// The project list loses no project and invents none, and puts them in the
/// order of their openings: the one that was opened last first, then those of
/// which that is not known, and equal ones by id.
pub proof fn law_project_list_is_complete(rows: Seq<ProjectRowView>)
    ensures
        rows::in_order(rows, by_opening()).to_multiset() == rows.to_multiset(),
        rows::in_order(rows, by_opening()).len() == rows.len(),
        rows::is_in_order(rows::in_order(rows, by_opening()), by_opening()),
{
    lemma_by_opening();
    rows::lemma_in_order(rows, by_opening());
}

/// The latest runs are the latest: no run that is left out comes before one
/// that is listed.
pub proof fn law_latest_runs_are_latest(runs: Seq<RunView>, limit: usize, i: int, j: int)
    requires
        0 <= i < limit <= j < runs.len(),
    ensures
        ({
            let sorted = rows::in_order(runs, order::by_recency());
            &&& sorted.to_multiset() == runs.to_multiset()
            &&& front(sorted, limit).len() == limit
            &&& front(sorted, limit)[i] == sorted[i]
            &&& !order::by_recency()(sorted[j], sorted[i])
        }),
{
    order::lemma_by_recency();
    rows::lemma_in_order(runs, order::by_recency());
}

/// In a listing the task of a project without task artifacts comes first, and every
/// other task before those with greater ids.
pub proof fn law_tasks_are_listed_by_id(tasks: Seq<TaskView>, i: int, j: int)
    requires
        0 <= i < j < tasks.len(),
    ensures
        ({
            let sorted = rows::in_order(tasks, order::by_listing());
            &&& sorted[j].id == "current"@ ==> sorted[i].id == "current"@
            &&& sorted[i].id != "current"@ ==> !text::text_lt(sorted[j].id, sorted[i].id)
        }),
{
    order::lemma_by_listing();
    rows::lemma_in_order(tasks, order::by_listing());
    let sorted = rows::in_order(tasks, order::by_listing());
    assert(!order::by_listing()(sorted[j], sorted[i]));
}

/// Of any two runs that are listed the first changed no earlier, and started no
/// earlier where they changed at one time.
pub proof fn law_runs_are_listed_by_change(runs: Seq<RunView>, limit: usize, i: int, j: int)
    requires
        0 <= i < j < runs.len(),
        j < limit,
    ensures
        ({
            let listed = front(rows::in_order(runs, order::by_recency()), limit);
            &&& listed.len() == if runs.len() <= limit {
                runs.len()
            } else {
                limit as nat
            }
            &&& !text::text_lt(listed[i].updated_at, listed[j].updated_at)
            &&& listed[i].updated_at == listed[j].updated_at ==> !text::text_lt(
                listed[i].started_at,
                listed[j].started_at,
            )
            &&& listed[i].updated_at == listed[j].updated_at && listed[i].started_at
                == listed[j].started_at ==> !text::text_lt(listed[i].id, listed[j].id)
        }),
{
    order::lemma_by_recency();
    rows::lemma_in_order(runs, order::by_recency());
    let sorted = rows::in_order(runs, order::by_recency());
    assert(!order::by_recency()(sorted[j], sorted[i]));
}

/// The order of events is one.
proof fn lemma_newest_first()
    ensures
        rows::is_order(newest_first()),
{
}

/// The events that are listed are those of the run that is asked for, or of any run
/// where none is, the newest first. They are as many as there are or as the limit
/// allows, and no event of that run that is left out is newer than one of them.
pub proof fn law_newest_events_are_listed(
    events: Seq<EventRowView>,
    run_id: Option<Seq<char>>,
    limit: usize,
    i: int,
    left_out: EventRowView,
)
    requires
        ({
            let listed = front(
                rows::in_order(events.filter(of_run(run_id)), newest_first()),
                limit,
            );
            0 <= i < listed.len()
        }),
    ensures
        ({
            let listed = front(
                rows::in_order(events.filter(of_run(run_id)), newest_first()),
                limit,
            );
            &&& events.contains(listed[i])
            &&& run_id is Some ==> listed[i].run_id == run_id
            &&& forall|j: int| i < j < listed.len() ==> listed[i].id >= (#[trigger] listed[j]).id
            &&& events.contains(left_out) && (run_id is None || left_out.run_id == run_id)
                && !listed.contains(left_out) ==> listed.len() == limit && left_out.id
                <= listed[i].id
        }),
{
    let kept = events.filter(of_run(run_id));
    let sorted = rows::in_order(kept, newest_first());
    let listed = front(sorted, limit);
    lemma_newest_first();
    rows::lemma_in_order(kept, newest_first());
    rows::lemma_in_order_contains(kept, newest_first(), listed[i]);
    rows::lemma_in_order_contains(kept, newest_first(), left_out);
    rows::lemma_kept(events, of_run(run_id), listed[i]);
    rows::lemma_kept(events, of_run(run_id), left_out);
    assert(sorted.contains(listed[i]));
    assert forall|j: int| i < j < listed.len() implies listed[i].id >= (#[trigger]
    listed[j]).id by {
        assert(!newest_first()(sorted[j], sorted[i]));
    }
    if kept.contains(left_out) && !listed.contains(left_out) {
        let at = choose|at: int| 0 <= at < sorted.len() && sorted[at] == left_out;
        if at < listed.len() {
            assert(listed[at] == left_out);
        }
        assert(!newest_first()(sorted[at], sorted[i]));
    }
}

/// The row of a project tells where it is in any case; whether the rest is known or
/// what is wrong, and never both.
pub proof fn law_project_row_tells_what_is_known(
    dir_name: Seq<char>,
    data_dir: Seq<char>,
    database_exists: bool,
    metadata: Result<MetadataView, Seq<char>>,
)
    ensures
        project_row(dir_name, data_dir, database_exists, metadata).data_dir == data_dir,
        project_row(dir_name, data_dir, database_exists, metadata).database_exists
            == database_exists,
        metadata matches Ok(known) ==> {
            let row = project_row(dir_name, data_dir, database_exists, metadata);
            &&& row.id == known.id
            &&& row.name == Some(known.name)
            &&& row.workspace_dir == Some(known.workspace_dir)
            &&& row.last_opened_at == Some(known.last_opened_at)
            &&& row.error is None
        },
        metadata matches Err(error) ==> {
            let row = project_row(dir_name, data_dir, database_exists, metadata);
            &&& row.id == dir_name
            &&& row.name is None
            &&& row.workspace_dir is None
            &&& row.last_opened_at is None
            &&& row.error == Some(error)
        },
{
}

/// Projects whose opening is known are listed before the others, the one that was
/// opened last first.
pub proof fn law_last_opened_comes_first(rows: Seq<ProjectRowView>, i: int, j: int)
    requires
        0 <= i < j < rows.len(),
    ensures
        ({
            let listed = rows::in_order(rows, by_opening());
            &&& listed[j].last_opened_at is Some ==> listed[i].last_opened_at is Some
            &&& listed[j].last_opened_at matches Some(later) ==> !text::text_lt(
                listed[i].last_opened_at->0,
                later,
            )
            &&& listed[i].last_opened_at == listed[j].last_opened_at ==> !text::text_lt(
                listed[j].id,
                listed[i].id,
            )
        }),
{
    law_project_list_is_complete(rows);
    let listed = rows::in_order(rows, by_opening());
    assert(!by_opening()(listed[j], listed[i]));
}

/// A human is asked about exactly the tasks that wait for one.
pub proof fn law_waiting_tasks_are_asked_about(tasks: Seq<TaskView>, task: TaskView)
    ensures
        rows::in_order(tasks, order::by_listing()).filter(waits_for_human()).contains(task)
            <==> tasks.contains(task) && task.status == "awaiting_human"@,
{
    order::lemma_by_listing();
    rows::lemma_in_order_contains(tasks, order::by_listing(), task);
    rows::lemma_kept(rows::in_order(tasks, order::by_listing()), waits_for_human(), task);
}

/// A milestone has a task that is worked on exactly where a task comes from that
/// milestone of that spec and is not over, and the task that is found is the first
/// of them by id.
pub proof fn law_open_task_of_a_milestone(
    tasks: Seq<TaskView>,
    spec_path: Seq<char>,
    milestone_id: Seq<char>,
    i: int,
)
    requires
        0 <= i < tasks.len(),
    ensures
        ({
            let k = rows::pick(tasks, from_origin(spec_path, milestone_id), order::by_id());
            let open = tasks[i].spec_path == Some(spec_path) && tasks[i].milestone_id == Some(
                milestone_id,
            ) && tasks[i].status != "idle"@ && tasks[i].status != "reset"@ && tasks[i].status
                != "complete"@ && tasks[i].status != "failed"@;
            &&& open ==> 0 <= k < tasks.len() && !text::text_lt(tasks[i].id, tasks[k].id)
            &&& k == i ==> open
        }),
{
    order::lemma_by_id();
    rows::lemma_pick(tasks, from_origin(spec_path, milestone_id), order::by_id());
}

} // verus!
