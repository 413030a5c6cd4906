//! The runtime tables and the elementary ways of changing them.
//!
//! A host loads the rows it needs, applies one operation, and writes back the
//! rows that changed and the events that were recorded.
use vstd::prelude::*;

use crate::clock;
use crate::clock::Instant;
use crate::json;
use crate::json::{Format, Json, JsonView};
use crate::project::RunRecord;
use crate::project::RunView;
use crate::project::TaskRecord;
use crate::project::TaskView;
use crate::text;

verus! {

/// A value in an event's payload.
#[derive(Debug, Clone, PartialEq, Eq)]
pub enum Payload {
    Text(String),
    Number(i64),
    Null,
}

/// The contents of a payload value.
pub enum PayloadView {
    Text(Seq<char>),
    Number(i64),
    Null,
}

impl View for Payload {
    type V = PayloadView;

    open spec fn view(&self) -> PayloadView {
        match *self {
            Payload::Text(s) => PayloadView::Text(s@),
            Payload::Number(n) => PayloadView::Number(n),
            Payload::Null => PayloadView::Null,
        }
    }
}

/// A payload value in a document.
pub open spec fn payload_json(value: PayloadView) -> JsonView {
    match value {
        PayloadView::Text(s) => JsonView::Text(s),
        PayloadView::Number(n) => if n < 0 {
            JsonView::Integer(n)
        } else {
            JsonView::Unsigned(n as u64)
        },
        PayloadView::Null => JsonView::Null,
    }
}

/// A payload as the entries of a document. Of entries with the same key the last
/// counts.
pub open spec fn payload_entries(payload: Seq<(Seq<char>, PayloadView)>) -> Seq<
    (Seq<char>, JsonView),
>
    decreases payload.len(),
{
    if payload.len() == 0 {
        Seq::empty()
    } else {
        json::set_key(
            payload_entries(payload.drop_last()),
            payload.last().0,
            payload_json(payload.last().1),
        )
    }
}

/// An event that has been recorded but not numbered yet.
#[derive(Debug, PartialEq, Eq)]
pub struct EventDraft {
    pub run_id: Option<String>,
    pub event_type: String,
    pub payload: serde_json::Value,
    pub created_at: String,
}

/// The contents of a recorded event.
#[verifier::ext_equal]
pub struct DraftView {
    pub run_id: Option<Seq<char>>,
    pub event_type: Seq<char>,
    pub payload: JsonView,
    pub created_at: Seq<char>,
}

/// The contents of a payload, in order.
pub open spec fn payload_view(payload: Seq<(String, Payload)>) -> Seq<(Seq<char>, PayloadView)> {
    payload.map_values(|e: (String, Payload)| (e.0@, e.1@))
}

impl View for EventDraft {
    type V = DraftView;

    open spec fn view(&self) -> DraftView {
        DraftView {
            run_id: text::opt_view(self.run_id),
            event_type: self.event_type@,
            payload: json::value_contents(self.payload),
            created_at: self.created_at@,
        }
    }
}

/// The runtime tables.
#[derive(Debug, PartialEq, Eq)]
pub struct Store {
    pub tasks: Vec<TaskRecord>,
    pub runs: Vec<RunRecord>,
    /// Events recorded since the tables were loaded, oldest first.
    pub events: Vec<EventDraft>,
}

/// The contents of the runtime tables.
#[verifier::ext_equal]
pub struct StoreView {
    pub tasks: Seq<TaskView>,
    pub runs: Seq<RunView>,
    pub events: Seq<DraftView>,
}

/// The contents of a list of tasks.
pub open spec fn task_views(tasks: Seq<TaskRecord>) -> Seq<TaskView> {
    tasks.map_values(|t: TaskRecord| t@)
}

/// The contents of a list of runs.
pub open spec fn run_views(runs: Seq<RunRecord>) -> Seq<RunView> {
    runs.map_values(|r: RunRecord| r@)
}

/// The contents of a list of recorded events.
pub open spec fn draft_views(events: Seq<EventDraft>) -> Seq<DraftView> {
    events.map_values(|e: EventDraft| e@)
}

impl View for Store {
    type V = StoreView;

    open spec fn view(&self) -> StoreView {
        StoreView {
            tasks: task_views(self.tasks@),
            runs: run_views(self.runs@),
            events: draft_views(self.events@),
        }
    }
}

// -------------------------------------------------------------------- model

/// The ids of a list of tasks.
pub open spec fn task_ids(tasks: Seq<TaskView>) -> Seq<Seq<char>> {
    tasks.map_values(|t: TaskView| t.id)
}

/// The ids of a list of runs.
pub open spec fn run_ids(runs: Seq<RunView>) -> Seq<Seq<char>> {
    runs.map_values(|r: RunView| r.id)
}

/// The position of a task in the table; the table's length where it is missing.
pub open spec fn task_index(tasks: Seq<TaskView>, id: Seq<char>) -> int {
    text::index_of(task_ids(tasks), id)
}

/// The position of a run in the table; the table's length where it is missing.
pub open spec fn run_index(runs: Seq<RunView>, id: Seq<char>) -> int {
    text::index_of(run_ids(runs), id)
}

/// The row of a task.
pub open spec fn find_task(tasks: Seq<TaskView>, id: Seq<char>) -> Option<TaskView> {
    if task_index(tasks, id) < tasks.len() {
        Some(tasks[task_index(tasks, id)])
    } else {
        None
    }
}

/// The row of a run.
pub open spec fn find_run(runs: Seq<RunView>, id: Seq<char>) -> Option<RunView> {
    if run_index(runs, id) < runs.len() {
        Some(runs[run_index(runs, id)])
    } else {
        None
    }
}

/// The table with a task's row replaced; unchanged where the task is missing.
pub open spec fn set_task(tasks: Seq<TaskView>, id: Seq<char>, row: TaskView) -> Seq<TaskView> {
    if task_index(tasks, id) < tasks.len() {
        tasks.update(task_index(tasks, id), row)
    } else {
        tasks
    }
}

/// The table with a run's row replaced; unchanged where the run is missing.
pub open spec fn set_run(runs: Seq<RunView>, id: Seq<char>, row: RunView) -> Seq<RunView> {
    if run_index(runs, id) < runs.len() {
        runs.update(run_index(runs, id), row)
    } else {
        runs
    }
}

/// The tables are keyed: no two tasks and no two runs have the same id.
pub open spec fn keyed(s: StoreView) -> bool {
    &&& task_ids(s.tasks).no_duplicates()
    &&& run_ids(s.runs).no_duplicates()
}

/// A task that nothing but its id, path and status is known of.
pub open spec fn fresh_task(id: Seq<char>, path: Seq<char>, status: Seq<char>) -> TaskView {
    TaskView {
        id,
        path,
        spec_path: None,
        milestone_id: None,
        status,
        paused_status: None,
        claimed_by: None,
        lease_until: None,
        last_heartbeat: None,
        check_retries: 0,
        review_cycles: 0,
        failure_reason: None,
    }
}

/// A task without a lease.
pub open spec fn released(t: TaskView) -> TaskView {
    TaskView { claimed_by: None, lease_until: None, last_heartbeat: None, ..t }
}

/// A text in a payload.
pub open spec fn text_item(key: Seq<char>, value: Seq<char>) -> (Seq<char>, PayloadView) {
    (key, PayloadView::Text(value))
}

/// A number in a payload.
pub open spec fn number_item(key: Seq<char>, value: int) -> (Seq<char>, PayloadView) {
    (key, PayloadView::Number(value as i64))
}

/// A text that may be missing in a payload.
pub open spec fn opt_text_item(key: Seq<char>, value: Option<Seq<char>>) -> (
    Seq<char>,
    PayloadView,
) {
    match value {
        Some(v) => (key, PayloadView::Text(v)),
        None => (key, PayloadView::Null),
    }
}

/// The event with a payload that is recorded now.
pub open spec fn draft_of(
    run_id: Option<Seq<char>>,
    event_type: Seq<char>,
    payload: JsonView,
    now: Instant,
) -> DraftView {
    DraftView { run_id, event_type, payload, created_at: clock::stamp(now) }
}

/// The event with these items that is recorded now.
pub open spec fn draft(
    run_id: Option<Seq<char>>,
    event_type: Seq<char>,
    payload: Seq<(Seq<char>, PayloadView)>,
    now: Instant,
) -> DraftView {
    draft_of(run_id, event_type, JsonView::Object(payload_entries(payload)), now)
}

/// The tables with one more event.
pub open spec fn with_event(s: StoreView, event: DraftView) -> StoreView {
    StoreView { events: s.events.push(event), ..s }
}

// ------------------------------------------------------------------- lemmas

/// Replacing a row by one with the same id keeps the table keyed and every
/// other row.
pub proof fn lemma_set_task(tasks: Seq<TaskView>, id: Seq<char>, row: TaskView)
    requires
        row.id == id,
    ensures
        task_ids(set_task(tasks, id, row)) == task_ids(tasks),
        find_task(tasks, id) is Some ==> find_task(set_task(tasks, id, row), id) == Some(row),
        forall|other: Seq<char>|
            other != id ==> #[trigger] find_task(set_task(tasks, id, row), other) == find_task(
                tasks,
                other,
            ),
{
    text::lemma_index_of(task_ids(tasks), id);
    assert(task_ids(set_task(tasks, id, row)) =~= task_ids(tasks));
    assert forall|other: Seq<char>| other != id implies #[trigger] find_task(
        set_task(tasks, id, row),
        other,
    ) == find_task(tasks, other) by {
        text::lemma_index_of(task_ids(tasks), other);
    }
}

/// Replacing a run by one with the same id keeps the table keyed and every
/// other run.
pub proof fn lemma_set_run(runs: Seq<RunView>, id: Seq<char>, row: RunView)
    requires
        row.id == id,
    ensures
        run_ids(set_run(runs, id, row)) == run_ids(runs),
        find_run(runs, id) is Some ==> find_run(set_run(runs, id, row), id) == Some(row),
        forall|other: Seq<char>|
            other != id ==> #[trigger] find_run(set_run(runs, id, row), other) == find_run(
                runs,
                other,
            ),
{
    text::lemma_index_of(run_ids(runs), id);
    assert(run_ids(set_run(runs, id, row)) =~= run_ids(runs));
    assert forall|other: Seq<char>| other != id implies #[trigger] find_run(
        set_run(runs, id, row),
        other,
    ) == find_run(runs, other) by {
        text::lemma_index_of(run_ids(runs), other);
    }
}

/// A new row with a new id keeps the table keyed and every row.
pub proof fn lemma_push_task(tasks: Seq<TaskView>, row: TaskView)
    requires
        find_task(tasks, row.id) is None,
        task_ids(tasks).no_duplicates(),
    ensures
        task_ids(tasks.push(row)).no_duplicates(),
        find_task(tasks.push(row), row.id) == Some(row),
        forall|other: Seq<char>|
            other != row.id ==> #[trigger] find_task(tasks.push(row), other) == find_task(
                tasks,
                other,
            ),
{
    let ids = task_ids(tasks);
    let more = task_ids(tasks.push(row));
    text::lemma_index_of(ids, row.id);
    assert(more =~= ids.push(row.id));
    assert(more.drop_last() =~= ids);
    assert forall|other: Seq<char>| other != row.id implies #[trigger] find_task(
        tasks.push(row),
        other,
    ) == find_task(tasks, other) by {
        text::lemma_index_of(ids, other);
    }
}

// ---------------------------------------------------------------- execution

/// A text in a payload.
pub fn text_entry(key: &str, value: &str) -> (out: (String, Payload))
    ensures
        (out.0@, out.1@) == text_item(key@, value@),
{
    (key.to_owned(), Payload::Text(value.to_owned()))
}

/// A number in a payload.
pub fn number_entry(key: &str, value: i64) -> (out: (String, Payload))
    ensures
        (out.0@, out.1@) == number_item(key@, value as int),
{
    (key.to_owned(), Payload::Number(value))
}

/// A text that may be missing in a payload.
pub fn opt_text_entry(key: &str, value: &Option<String>) -> (out: (String, Payload))
    ensures
        (out.0@, out.1@) == opt_text_item(key@, text::opt_view(*value)),
{
    match value {
        Some(v) => (key.to_owned(), Payload::Text(v.clone())),
        None => (key.to_owned(), Payload::Null),
    }
}

/// A payload of one item.
pub fn payload_of_1(a: (String, Payload)) -> (out: Vec<(String, Payload)>)
    ensures
        payload_view(out@) == seq![(a.0@, a.1@)],
{
    let mut out: Vec<(String, Payload)> = Vec::new();
    out.push(a);
    assert(payload_view(out@) =~= seq![(a.0@, a.1@)]);
    out
}

/// A payload of two items.
pub fn payload_of_2(a: (String, Payload), b: (String, Payload)) -> (out: Vec<(String, Payload)>)
    ensures
        payload_view(out@) == seq![(a.0@, a.1@), (b.0@, b.1@)],
{
    let mut out: Vec<(String, Payload)> = Vec::new();
    out.push(a);
    out.push(b);
    assert(payload_view(out@) =~= seq![(a.0@, a.1@), (b.0@, b.1@)]);
    out
}

/// A payload of three items.
pub fn payload_of_3(a: (String, Payload), b: (String, Payload), c: (String, Payload)) -> (out: Vec<
    (String, Payload),
>)
    ensures
        payload_view(out@) == seq![(a.0@, a.1@), (b.0@, b.1@), (c.0@, c.1@)],
{
    let mut out: Vec<(String, Payload)> = Vec::new();
    out.push(a);
    out.push(b);
    out.push(c);
    assert(payload_view(out@) =~= seq![(a.0@, a.1@), (b.0@, b.1@), (c.0@, c.1@)]);
    out
}

/// A payload of four items.
pub fn payload_of_4(
    a: (String, Payload),
    b: (String, Payload),
    c: (String, Payload),
    d: (String, Payload),
) -> (out: Vec<(String, Payload)>)
    ensures
        payload_view(out@) == seq![(a.0@, a.1@), (b.0@, b.1@), (c.0@, c.1@), (d.0@, d.1@)],
{
    let mut out: Vec<(String, Payload)> = Vec::new();
    out.push(a);
    out.push(b);
    out.push(c);
    out.push(d);
    assert(payload_view(out@) =~= seq![(a.0@, a.1@), (b.0@, b.1@), (c.0@, c.1@), (d.0@, d.1@)]);
    out
}

/// A row that nothing but its id, path and status is known of.
pub fn new_task(id: &str, path: &str, status: &str) -> (out: TaskRecord)
    ensures
        out@ == fresh_task(id@, path@, status@),
{
    TaskRecord {
        id: id.to_owned(),
        path: path.to_owned(),
        spec_path: None,
        milestone_id: None,
        status: status.to_owned(),
        paused_status: None,
        claimed_by: None,
        lease_until: None,
        last_heartbeat: None,
        check_retries: 0,
        review_cycles: 0,
        failure_reason: None,
    }
}

impl Store {
    /// Empty tables.
    pub fn new() -> (out: Store)
        ensures
            out@ == (StoreView { tasks: Seq::empty(), runs: Seq::empty(), events: Seq::empty() }),
            keyed(out@),
    {
        let out = Store { tasks: Vec::new(), runs: Vec::new(), events: Vec::new() };
        assert(out@ =~= (StoreView {
            tasks: Seq::empty(),
            runs: Seq::empty(),
            events: Seq::empty(),
        }));
        out
    }

    /// The position of a task in the table.
    pub fn task_position(&self, id: &str) -> (out: Option<usize>)
        ensures
            match out {
                Some(i) => i < self.tasks@.len() && i == task_index(self@.tasks, id@)
                    && self.tasks@[i as int].id@ == id@,
                None => task_index(self@.tasks, id@) == self@.tasks.len(),
            },
    {
        let ghost ids = task_ids(self@.tasks);
        let mut i: usize = 0;
        while i < self.tasks.len()
            invariant
                i <= self.tasks@.len(),
                ids == task_ids(self@.tasks),
                forall|k: int| 0 <= k < i ==> #[trigger] ids[k] != id@,
            decreases self.tasks@.len() - i,
        {
            assert(ids[i as int] == self.tasks@[i as int].id@);
            if text::same(self.tasks[i].id.as_str(), id) {
                proof {
                    text::lemma_index_of_unique(ids, id@, i as int);
                }
                return Some(i);
            }
            i = i + 1;
        }
        proof {
            text::lemma_index_of_unique(ids, id@, i as int);
        }
        None
    }

    /// The position of a run in the table.
    pub fn run_position(&self, id: &str) -> (out: Option<usize>)
        ensures
            match out {
                Some(i) => i < self.runs@.len() && i == run_index(self@.runs, id@)
                    && self.runs@[i as int].id@ == id@,
                None => run_index(self@.runs, id@) == self@.runs.len(),
            },
    {
        let ghost ids = run_ids(self@.runs);
        let mut i: usize = 0;
        while i < self.runs.len()
            invariant
                i <= self.runs@.len(),
                ids == run_ids(self@.runs),
                forall|k: int| 0 <= k < i ==> #[trigger] ids[k] != id@,
            decreases self.runs@.len() - i,
        {
            assert(ids[i as int] == self.runs@[i as int].id@);
            if text::same(self.runs[i].id.as_str(), id) {
                proof {
                    text::lemma_index_of_unique(ids, id@, i as int);
                }
                return Some(i);
            }
            i = i + 1;
        }
        proof {
            text::lemma_index_of_unique(ids, id@, i as int);
        }
        None
    }

    /// Replaces the row at a position.
    pub fn put_task(&mut self, i: usize, row: TaskRecord)
        requires
            i < old(self).tasks@.len(),
        ensures
            final(self)@ == (StoreView {
                tasks: old(self)@.tasks.update(i as int, row@),
                ..old(self)@
            }),
            final(self).tasks@ == old(self).tasks@.update(i as int, row),
            final(self).runs == old(self).runs,
            final(self).events == old(self).events,
    {
        self.tasks.set(i, row);
        assert(task_views(self.tasks@) =~= task_views(old(self).tasks@).update(i as int, row@));
    }

    /// Replaces the run at a position.
    pub fn put_run(&mut self, i: usize, row: RunRecord)
        requires
            i < old(self).runs@.len(),
        ensures
            final(self)@ == (StoreView {
                runs: old(self)@.runs.update(i as int, row@),
                ..old(self)@
            }),
            final(self).runs@ == old(self).runs@.update(i as int, row),
            final(self).tasks == old(self).tasks,
            final(self).events == old(self).events,
    {
        self.runs.set(i, row);
        assert(run_views(self.runs@) =~= run_views(old(self).runs@).update(i as int, row@));
    }

    /// Adds a row.
    pub fn push_task(&mut self, row: TaskRecord)
        ensures
            final(self)@ == (StoreView { tasks: old(self)@.tasks.push(row@), ..old(self)@ }),
    {
        self.tasks.push(row);
        assert(task_views(self.tasks@) =~= task_views(old(self).tasks@).push(row@));
    }

    /// Adds a run.
    pub fn push_run(&mut self, row: RunRecord)
        ensures
            final(self)@ == (StoreView { runs: old(self)@.runs.push(row@), ..old(self)@ }),
    {
        self.runs.push(row);
        assert(run_views(self.runs@) =~= run_views(old(self).runs@).push(row@));
    }

    /// Records an event with a payload.
    pub fn record_value(
        &mut self,
        run_id: Option<String>,
        event_type: &str,
        payload: serde_json::Value,
        now: Instant,
    )
        requires
            now.wf(),
        ensures
            final(self)@ == with_event(
                old(self)@,
                draft_of(
                    text::opt_view(run_id),
                    event_type@,
                    json::value_contents(payload),
                    now,
                ),
            ),
            final(self).tasks == old(self).tasks,
            final(self).runs == old(self).runs,
    {
        let event = EventDraft {
            run_id,
            event_type: event_type.to_owned(),
            payload,
            created_at: clock::timestamp(now),
        };
        self.events.push(event);
        assert(draft_views(self.events@) =~= draft_views(old(self).events@).push(event@));
    }

    /// Records an event with some items.
    pub fn record(
        &mut self,
        run_id: Option<String>,
        event_type: &str,
        payload: Vec<(String, Payload)>,
        now: Instant,
    )
        requires
            now.wf(),
        ensures
            final(self)@ == with_event(
                old(self)@,
                draft(text::opt_view(run_id), event_type@, payload_view(payload@), now),
            ),
            final(self).tasks == old(self).tasks,
            final(self).runs == old(self).runs,
    {
        self.record_value(run_id, event_type, payload_value(&payload), now);
    }
}

// ------------------------------------------------------------------ payloads as documents

proof fn lemma_payload_entries(payload: Seq<(Seq<char>, PayloadView)>)
    ensures
        json::is_of(JsonView::Object(payload_entries(payload)), Format::Json),
        forall|i: int|
            0 <= i < payload_entries(payload).len() ==> json::plain_within(
                (#[trigger] payload_entries(payload)[i]).1,
                0,
            ),
    decreases payload.len(),
{
    let entries = payload_entries(payload);
    if payload.len() > 0 {
        let before = payload_entries(payload.drop_last());
        let (key, value) = payload.last();
        let shown = payload_json(value);
        lemma_payload_entries(payload.drop_last());
        json::lemma_set_key_format(before, key, shown, Format::Json);
        json::lemma_key_index(before, key);
        json::lemma_slot(before, key);
        let at = json::slot(before, key);
        assert forall|i: int| 0 <= i < entries.len() implies json::plain_within(
            (#[trigger] entries[i]).1,
            0,
        ) by {
            if json::key_index(before, key) < before.len() {
                if i != json::key_index(before, key) {
                    assert(entries[i] == before[i]);
                }
            } else if i < at {
                assert(entries[i] == before[i]);
            } else if i > at {
                assert(entries[i] == before[i - 1]);
            }
        }
    }
}

/// The document that holds some items.
pub fn payload_value(payload: &Vec<(String, Payload)>) -> (out: serde_json::Value)
    ensures
        json::value_contents(out) == JsonView::Object(payload_entries(payload_view(payload@))),
{
    let ghost all = payload_view(payload@);
    let mut entries: Vec<(String, Json)> = Vec::new();
    assert(json::entries_view(entries@) =~= payload_entries(all.take(0)));
    let mut i: usize = 0;
    while i < payload.len()
        invariant
            i <= payload@.len(),
            all == payload_view(payload@),
            json::entries_view(entries@) == payload_entries(all.take(i as int)),
        decreases payload@.len() - i,
    {
        assert(all.take(i + 1).drop_last() =~= all.take(i as int));
        assert(all.take(i + 1).last() == all[i as int]);
        let value: Json = match &payload[i].1 {
            Payload::Text(s) => Json::Text(s.clone()),
            Payload::Number(n) => if *n < 0 {
                Json::Integer(*n)
            } else {
                Json::Unsigned(*n as u64)
            },
            Payload::Null => Json::Null,
        };
        json::put_key(&mut entries, payload[i].0.as_str(), value);
        i = i + 1;
    }
    assert(all.take(i as int) =~= all);
    proof {
        lemma_payload_entries(all);
    }
    json::value_of(Json::Object(entries))
}

/// The payload of an event as a JSON text. Where it is known to, the text reads
/// back as the payload.
pub fn payload_text(event: &EventDraft) -> (out: String)
    ensures
        out@ == json::json_line(event@.payload),
        json::reads_back(event@.payload) ==> json::json_document(out@) == Some(event@.payload),
{
    json::print_value_line(&event.payload)
}

/// The payload of every event that the library records of its own reads back from
/// its text.
pub proof fn law_items_read_back(
    run_id: Option<Seq<char>>,
    event_type: Seq<char>,
    payload: Seq<(Seq<char>, PayloadView)>,
    now: Instant,
)
    ensures
        json::reads_back(draft(run_id, event_type, payload, now).payload),
{
    lemma_payload_entries(payload);
    lemma_plain_entries(payload_entries(payload));
}

/// An object of plain scalars is plain.
proof fn lemma_plain_entries(entries: Seq<(Seq<char>, JsonView)>)
    requires
        forall|i: int|
            0 <= i < entries.len() ==> json::plain_within((#[trigger] entries[i]).1, 0),
    ensures
        json::reads_back(JsonView::Object(entries)),
{
    let whole = JsonView::Object(entries);
    assert forall|i: int| 0 <= i < whole->Object_0.len() implies json::plain_within(
        (#[trigger] whole->Object_0[i]).1,
        126,
    ) by {
        assert(json::plain_within(entries[i].1, 0));
    }
}

/// The payload of an event tells every item under its key, where the keys differ, and
/// nothing under any other key. A text is told as a text, a number as a number, and
/// what is missing as null. The event is stamped with the present.
pub proof fn law_event_tells_its_items(
    run_id: Option<Seq<char>>,
    event_type: Seq<char>,
    payload: Seq<(Seq<char>, PayloadView)>,
    now: Instant,
    key: Seq<char>,
    i: int,
)
    requires
        forall|a: int, b: int|
            0 <= a < b < payload.len() ==> (#[trigger] payload[a]).0 != (#[trigger] payload[b]).0,
    ensures
        ({
            let event = draft(run_id, event_type, payload, now);
            &&& event.run_id == run_id && event.event_type == event_type
            &&& event.created_at == clock::rfc3339_text(now.secs, now.nanos, true)
            &&& 0 <= i < payload.len() ==> json::field(event.payload, payload[i].0) == Some(
                match payload[i].1 {
                    PayloadView::Text(s) => JsonView::Text(s),
                    PayloadView::Number(n) => if n < 0 {
                        JsonView::Integer(n)
                    } else {
                        JsonView::Unsigned(n as u64)
                    },
                    PayloadView::Null => JsonView::Null,
                },
            )
            &&& (forall|a: int| 0 <= a < payload.len() ==> (#[trigger] payload[a]).0 != key)
                ==> json::field(event.payload, key) is None
        }),
    decreases payload.len(),
{
    let event = draft(run_id, event_type, payload, now);
    if payload.len() > 0 {
        let front = payload.drop_last();
        assert forall|a: int, b: int| 0 <= a < b < front.len() implies (#[trigger] front[a]).0 != (
        #[trigger] front[b]).0 by {
            assert(payload[a].0 != payload[b].0);
        }
        law_event_tells_its_items(run_id, event_type, front, now, key, i);
        let before = payload_entries(front);
        let last = payload.last();
        json::law_set_key_is_found(before, last.0, payload_json(last.1));
        if 0 <= i < front.len() {
            assert(front[i] == payload[i]);
            assert(payload[i].0 != payload[payload.len() - 1].0);
            json::law_set_key_is_local(before, last.0, payload_json(last.1), payload[i].0);
        }
        if forall|a: int| 0 <= a < payload.len() ==> (#[trigger] payload[a]).0 != key {
            assert(payload[payload.len() - 1].0 != key);
            assert forall|a: int| 0 <= a < front.len() implies (#[trigger] front[a]).0 != key by {
                assert(payload[a].0 != key);
            }
            json::law_set_key_is_local(before, last.0, payload_json(last.1), key);
        }
    }
}

/// The row of a task is the one with its id, and there is none only where no row has
/// it. The same goes for runs.
pub proof fn law_rows_are_found_by_id(s: StoreView, id: Seq<char>, i: int)
    requires
        keyed(s),
    ensures
        0 <= i < s.tasks.len() && s.tasks[i].id == id ==> find_task(s.tasks, id) == Some(
            s.tasks[i],
        ),
        find_task(s.tasks, id) matches Some(t) ==> t.id == id && s.tasks.contains(t),
        0 <= i < s.runs.len() && s.runs[i].id == id ==> find_run(s.runs, id) == Some(s.runs[i]),
        find_run(s.runs, id) matches Some(r) ==> r.id == id && s.runs.contains(r),
        forall|a: int, b: int|
            0 <= a < b < s.tasks.len() ==> (#[trigger] s.tasks[a]).id != (#[trigger] s.tasks[b]).id,
        forall|a: int, b: int|
            0 <= a < b < s.runs.len() ==> (#[trigger] s.runs[a]).id != (#[trigger] s.runs[b]).id,
{
    let tasks = task_ids(s.tasks);
    let runs = run_ids(s.runs);
    text::lemma_index_of(tasks, id);
    text::lemma_index_of(runs, id);
    assert forall|a: int, b: int| 0 <= a < b < s.tasks.len() implies (#[trigger] s.tasks[a]).id != (
    #[trigger] s.tasks[b]).id by {
        assert(tasks[a] != tasks[b]);
    }
    assert forall|a: int, b: int| 0 <= a < b < s.runs.len() implies (#[trigger] s.runs[a]).id != (
    #[trigger] s.runs[b]).id by {
        assert(runs[a] != runs[b]);
    }
    if 0 <= i < s.tasks.len() && s.tasks[i].id == id {
        assert(tasks[i] == id);
        assert forall|k: int| 0 <= k < i implies #[trigger] tasks[k] != id by {
            assert(s.tasks[k].id != s.tasks[i].id);
        }
        text::lemma_index_of_unique(tasks, id, i);
    }
    if 0 <= i < s.runs.len() && s.runs[i].id == id {
        assert(runs[i] == id);
        assert forall|k: int| 0 <= k < i implies #[trigger] runs[k] != id by {
            assert(s.runs[k].id != s.runs[i].id);
        }
        text::lemma_index_of_unique(runs, id, i);
    }
    if find_task(s.tasks, id) is Some {
        assert(tasks[task_index(s.tasks, id)] == s.tasks[task_index(s.tasks, id)].id);
    }
    if find_run(s.runs, id) is Some {
        assert(runs[run_index(s.runs, id)] == s.runs[run_index(s.runs, id)].id);
    }
}

} // verus!
