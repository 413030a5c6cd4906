//! Planning tasks from the milestones of a specification.
use vstd::prelude::*;
use vstd::string::*;

use crate::hq::agent_manager;
use crate::hq::specs;
use crate::hq::specs::{ItemView, Milestone, MilestoneReadiness, MilestoneView, PlanItem};
use crate::project::listing;
use crate::project::order;
use crate::project::store::Store;
use crate::project::TaskView;
use crate::rows;
use crate::state::{StateData, StateView};
use crate::text;

verus! {

/// A milestone that a task can be made from.
#[derive(Debug, Clone, PartialEq, Eq)]
pub struct RunPlanMilestone {
    pub id: String,
    pub marker: String,
    pub title: String,
}

/// A milestone that is left out, and why.
#[derive(Debug, Clone, PartialEq, Eq)]
pub struct SkippedRunMilestone {
    pub id: String,
    pub marker: String,
    pub title: String,
    pub reason: String,
}

/// Which milestones of a specification tasks can be made from.
#[derive(Debug, Clone, PartialEq, Eq)]
pub struct RunPlan {
    pub spec_path: String,
    pub eligible: Vec<RunPlanMilestone>,
    pub skipped: Vec<SkippedRunMilestone>,
}

/// The contents of a milestone that a task can be made from.
#[verifier::ext_equal]
pub struct EligibleView {
    pub id: Seq<char>,
    pub marker: Seq<char>,
    pub title: Seq<char>,
}

/// The contents of a milestone that is left out.
#[verifier::ext_equal]
pub struct SkippedView {
    pub id: Seq<char>,
    pub marker: Seq<char>,
    pub title: Seq<char>,
    pub reason: Seq<char>,
}

impl View for RunPlanMilestone {
    type V = EligibleView;

    open spec fn view(&self) -> EligibleView {
        EligibleView { id: self.id@, marker: self.marker@, title: self.title@ }
    }
}

impl View for SkippedRunMilestone {
    type V = SkippedView;

    open spec fn view(&self) -> SkippedView {
        SkippedView {
            id: self.id@,
            marker: self.marker@,
            title: self.title@,
            reason: self.reason@,
        }
    }
}

/// The contents of milestones that tasks can be made from.
pub open spec fn eligible_views(list: Seq<RunPlanMilestone>) -> Seq<EligibleView> {
    list.map_values(|m: RunPlanMilestone| m@)
}

/// The contents of milestones that are left out.
pub open spec fn skipped_views(list: Seq<SkippedRunMilestone>) -> Seq<SkippedView> {
    list.map_values(|m: SkippedRunMilestone| m@)
}

/// The task that is already made from a milestone and not over yet.
pub open spec fn task_of(
    tasks: Seq<TaskView>,
    spec_path: Seq<char>,
    milestone_id: Seq<char>,
) -> Option<TaskView> {
    let k = rows::pick(tasks, listing::from_origin(spec_path, milestone_id), order::by_id());
    if k >= 0 {
        Some(tasks[k])
    } else {
        None
    }
}

/// Why a milestone is left out; nothing where a task can be made from it.
pub open spec fn skip_reason(tasks: Seq<TaskView>, spec_path: Seq<char>, item: ItemView) -> Option<
    Seq<char>,
> {
    match item.readiness {
        MilestoneReadiness::Done => Some("done"@),
        MilestoneReadiness::Pending => Some("waiting for "@ + text::join(item.blocked_by, ", "@)),
        MilestoneReadiness::Ready => match task_of(tasks, spec_path, item.milestone.id) {
            Some(task) => Some("task "@ + task.id + " is "@ + task.status),
            None => None,
        },
    }
}

/// The milestones that tasks can be made from, in their order.
pub open spec fn eligible(tasks: Seq<TaskView>, spec_path: Seq<char>, items: Seq<ItemView>) -> Seq<
    EligibleView,
>
    decreases items.len(),
{
    if items.len() == 0 {
        Seq::empty()
    } else {
        let before = eligible(tasks, spec_path, items.drop_last());
        let item = items.last();
        match skip_reason(tasks, spec_path, item) {
            None => before.push(
                EligibleView {
                    id: item.milestone.id,
                    marker: item.milestone.marker,
                    title: item.milestone.title,
                },
            ),
            Some(_) => before,
        }
    }
}

/// The milestones that are left out, in their order.
pub open spec fn skipped(tasks: Seq<TaskView>, spec_path: Seq<char>, items: Seq<ItemView>) -> Seq<
    SkippedView,
>
    decreases items.len(),
{
    if items.len() == 0 {
        Seq::empty()
    } else {
        let before = skipped(tasks, spec_path, items.drop_last());
        let item = items.last();
        match skip_reason(tasks, spec_path, item) {
            None => before,
            Some(reason) => before.push(
                SkippedView {
                    id: item.milestone.id,
                    marker: item.milestone.marker,
                    title: item.milestone.title,
                    reason,
                },
            ),
        }
    }
}

/// Why a milestone is left out.
fn find_skip_reason(tables: &Store, spec_path: &str, item: &PlanItem) -> (out: Option<String>)
    ensures
        text::opt_view(out) == skip_reason(tables@.tasks, spec_path@, item@),
{
    match item.readiness {
        MilestoneReadiness::Done => Some("done".to_owned()),
        MilestoneReadiness::Pending => {
            let mut out: String = "waiting for ".to_owned();
            out.append(text::join_strings(&item.blocked_by, ", ").as_str());
            Some(out)
        },
        MilestoneReadiness::Ready => match listing::find_non_terminal_task_by_origin(
            tables,
            spec_path,
            item.milestone.id.as_str(),
        ) {
            Some(task) => {
                let mut out: String = "task ".to_owned();
                out.append(task.id.as_str());
                out.append(" is ");
                out.append(task.status.as_str());
                Some(out)
            },
            None => None,
        },
    }
}

/// Which milestones of a specification tasks can be made from.
pub fn build_run_plan(spec_path: &str, items: &Vec<PlanItem>, tables: &Store) -> (out: RunPlan)
    ensures
        out.spec_path@ == spec_path@,
        eligible_views(out.eligible@) == eligible(
            tables@.tasks,
            spec_path@,
            specs::item_views(items@),
        ),
        skipped_views(out.skipped@) == skipped(
            tables@.tasks,
            spec_path@,
            specs::item_views(items@),
        ),
{
    let ghost all = specs::item_views(items@);
    let ghost tasks = tables@.tasks;
    let mut chosen: Vec<RunPlanMilestone> = Vec::new();
    let mut left_out: Vec<SkippedRunMilestone> = Vec::new();
    assert(eligible_views(chosen@) =~= Seq::empty());
    assert(skipped_views(left_out@) =~= Seq::empty());
    let mut i: usize = 0;
    while i < items.len()
        invariant
            i <= items@.len(),
            all == specs::item_views(items@),
            tasks == tables@.tasks,
            eligible_views(chosen@) == eligible(tasks, spec_path@, all.take(i as int)),
            skipped_views(left_out@) == skipped(tasks, spec_path@, all.take(i as int)),
        decreases items@.len() - i,
    {
        assert(all.take(i + 1).drop_last() =~= all.take(i as int));
        assert(all.take(i + 1).last() == items@[i as int]@);
        let m: &Milestone = &items[i].milestone;
        let ghost before = eligible_views(chosen@);
        let ghost before_skipped = skipped_views(left_out@);
        match find_skip_reason(tables, spec_path, &items[i]) {
            None => {
                chosen.push(
                    RunPlanMilestone {
                        id: m.id.clone(),
                        marker: m.marker.clone(),
                        title: m.title.clone(),
                    },
                );
                assert(eligible_views(chosen@) =~= before.push(chosen@.last()@));
            },
            Some(reason) => {
                left_out.push(
                    SkippedRunMilestone {
                        id: m.id.clone(),
                        marker: m.marker.clone(),
                        title: m.title.clone(),
                        reason,
                    },
                );
                assert(skipped_views(left_out@) =~= before_skipped.push(left_out@.last()@));
            },
        }
        i = i + 1;
    }
    assert(all.take(i as int) =~= all);
    RunPlan { spec_path: spec_path.to_owned(), eligible: chosen, skipped: left_out }
}

/// Every milestone is either one that a task can be made from, or left out for
/// a reason.
pub proof fn law_plan_covers_all(tasks: Seq<TaskView>, spec_path: Seq<char>, items: Seq<ItemView>)
    ensures
        eligible(tasks, spec_path, items).len() + skipped(tasks, spec_path, items).len()
            == items.len(),
    decreases items.len(),
{
    if items.len() > 0 {
        law_plan_covers_all(tasks, spec_path, items.drop_last());
    }
}

/// A milestone from which a task is under way is not planned again.
pub proof fn law_no_second_task(
    tasks: Seq<TaskView>,
    spec_path: Seq<char>,
    items: Seq<ItemView>,
    at: int,
)
    requires
        0 <= at < eligible(tasks, spec_path, items).len(),
    ensures
        task_of(tasks, spec_path, eligible(tasks, spec_path, items)[at].id) is None,
    decreases items.len(),
{
    let before = eligible(tasks, spec_path, items.drop_last());
    if at < before.len() {
        law_no_second_task(tasks, spec_path, items.drop_last(), at);
    }
}

// ------------------------------------------------------------------ what is shown

/// The line of a milestone that a task can be made from.
pub open spec fn eligible_line(m: EligibleView) -> Seq<char> {
    "  "@ + m.marker + "  "@ + text::pad_end(m.id, 8) + " "@ + m.title
}

/// The line of a milestone that is left out.
pub open spec fn skipped_line(m: SkippedView) -> Seq<char> {
    "  "@ + m.marker + "  "@ + text::pad_end(m.id, 8) + " "@ + m.title + " ("@ + m.reason + ")"@
}

/// The first of some milestones.
pub open spec fn chosen(list: Seq<EligibleView>, count: nat) -> Seq<EligibleView> {
    if list.len() <= count {
        list
    } else {
        list.take(count as int)
    }
}

/// The lines that show a plan.
pub open spec fn plan_lines(
    spec_path: Seq<char>,
    can: Seq<EligibleView>,
    cannot: Seq<SkippedView>,
    selected: nat,
) -> Seq<Seq<char>> {
    seq![
        "Run plan"@,
        "spec      : "@ + spec_path,
        "eligible  : "@ + text::decimal(can.len()),
        "selected  : "@ + text::decimal(selected),
    ] + (if can.len() == 0 {
        Seq::empty()
    } else {
        seq![""@, "selected milestones:"@] + chosen(can, selected).map_values(
            |m: EligibleView| eligible_line(m),
        )
    }) + (if cannot.len() == 0 {
        Seq::empty()
    } else {
        seq![""@, "skipped milestones:"@] + cannot.map_values(|m: SkippedView| skipped_line(m))
    })
}

/// A label followed by a text.
fn labelled(label: &str, value: &str) -> (out: String)
    ensures
        out@ == label@ + value@,
{
    let mut out: String = label.to_owned();
    out.append(value);
    out
}

/// Adds the lines of the first milestones that tasks can be made from.
fn add_eligible(lines: &mut Vec<String>, list: &Vec<RunPlanMilestone>, selected: usize)
    ensures
        text::views(final(lines)@) == text::views(old(lines)@) + chosen(
            eligible_views(list@),
            selected as nat,
        ).map_values(|m: EligibleView| eligible_line(m)),
{
    let ghost start = text::views(lines@);
    let ghost shown = eligible_views(list@);
    let ghost all = chosen(shown, selected as nat).map_values(|m: EligibleView| eligible_line(m));
    let count: usize = if list.len() <= selected {
        list.len()
    } else {
        selected
    };
    assert(start + all.take(0) =~= start);
    let mut i: usize = 0;
    while i < count
        invariant
            i <= count <= list@.len(),
            shown == eligible_views(list@),
            all == chosen(shown, selected as nat).map_values(|m: EligibleView| eligible_line(m)),
            count == all.len(),
            text::views(lines@) == start + all.take(i as int),
        decreases count - i,
    {
        let m: &RunPlanMilestone = &list[i];
        assert(chosen(shown, selected as nat)[i as int] == m@);
        let mut line: String = "  ".to_owned();
        line.append(m.marker.as_str());
        line.append("  ");
        line.append(text::pad_end_string(m.id.as_str(), 8).as_str());
        line.append(" ");
        line.append(m.title.as_str());
        text::add_text(lines, line.as_str());
        assert(all.take(i + 1) =~= all.take(i as int).push(all[i as int]));
        assert(text::views(lines@) =~= start + all.take(i + 1));
        i = i + 1;
    }
    assert(all.take(i as int) =~= all);
}

/// Adds the lines of the milestones that are left out.
fn add_skipped(lines: &mut Vec<String>, list: &Vec<SkippedRunMilestone>)
    ensures
        text::views(final(lines)@) == text::views(old(lines)@) + skipped_views(
            list@,
        ).map_values(|m: SkippedView| skipped_line(m)),
{
    let ghost start = text::views(lines@);
    let ghost shown = skipped_views(list@);
    let ghost all = shown.map_values(|m: SkippedView| skipped_line(m));
    assert(start + all.take(0) =~= start);
    let mut i: usize = 0;
    while i < list.len()
        invariant
            i <= list@.len(),
            shown == skipped_views(list@),
            all == shown.map_values(|m: SkippedView| skipped_line(m)),
            text::views(lines@) == start + all.take(i as int),
        decreases list@.len() - i,
    {
        let m: &SkippedRunMilestone = &list[i];
        assert(shown[i as int] == m@);
        let mut line: String = "  ".to_owned();
        line.append(m.marker.as_str());
        line.append("  ");
        line.append(text::pad_end_string(m.id.as_str(), 8).as_str());
        line.append(" ");
        line.append(m.title.as_str());
        line.append(" (");
        line.append(m.reason.as_str());
        line.append(")");
        text::add_text(lines, line.as_str());
        assert(all.take(i + 1) =~= all.take(i as int).push(all[i as int]));
        assert(text::views(lines@) =~= start + all.take(i + 1));
        i = i + 1;
    }
    assert(all.take(i as int) =~= all);
}

/// The lines that show a plan.
pub fn run_plan_lines(plan: &RunPlan, selected_count: usize) -> (out: Vec<String>)
    ensures
        text::views(out@) == plan_lines(
            plan.spec_path@,
            eligible_views(plan.eligible@),
            skipped_views(plan.skipped@),
            selected_count as nat,
        ),
{
    let mut out: Vec<String> = text::one_text("Run plan");
    text::add_text(&mut out, labelled("spec      : ", plan.spec_path.as_str()).as_str());
    text::add_text(
        &mut out,
        labelled(
            "eligible  : ",
            text::decimal_string(plan.eligible.len() as u64).as_str(),
        ).as_str(),
    );
    text::add_text(
        &mut out,
        labelled("selected  : ", text::decimal_string(selected_count as u64).as_str()).as_str(),
    );
    let ghost head = text::views(out@);
    if plan.eligible.len() > 0 {
        text::add_text(&mut out, "");
        text::add_text(&mut out, "selected milestones:");
        add_eligible(&mut out, &plan.eligible, selected_count);
    }
    if plan.skipped.len() > 0 {
        text::add_text(&mut out, "");
        text::add_text(&mut out, "skipped milestones:");
        add_skipped(&mut out, &plan.skipped);
    }
    assert(text::views(out@) =~= plan_lines(
        plan.spec_path@,
        eligible_views(plan.eligible@),
        skipped_views(plan.skipped@),
        selected_count as nat,
    ));
    out
}

/// What a supervisor is told of a milestone.
pub open spec fn milestone_context(m: EligibleView) -> Seq<char> {
    "- Milestone ID: "@ + m.id + "\n  Marker: "@ + m.marker + "\n  Title: "@ + m.title
}

/// What a supervisor is told of a plan.
pub open spec fn plan_context(
    spec_path: Seq<char>,
    can: Seq<EligibleView>,
    selected: nat,
) -> Seq<char> {
    text::join(
        seq![
            "Spec: "@ + spec_path,
            "Task count: "@ + text::decimal(selected),
            "Milestones:"@,
        ] + chosen(can, selected).map_values(|m: EligibleView| milestone_context(m)),
        "\n"@,
    )
}

/// What a supervisor is told of a plan.
pub fn run_plan_prompt_context(plan: &RunPlan, selected_count: usize) -> (out: String)
    ensures
        out@ == plan_context(
            plan.spec_path@,
            eligible_views(plan.eligible@),
            selected_count as nat,
        ),
{
    let mut lines: Vec<String> = text::one_text(
        labelled("Spec: ", plan.spec_path.as_str()).as_str(),
    );
    text::add_text(
        &mut lines,
        labelled("Task count: ", text::decimal_string(selected_count as u64).as_str()).as_str(),
    );
    text::add_text(&mut lines, "Milestones:");
    let ghost start = text::views(lines@);
    let ghost shown = eligible_views(plan.eligible@);
    let ghost all = chosen(shown, selected_count as nat).map_values(
        |m: EligibleView| milestone_context(m),
    );
    let count: usize = if plan.eligible.len() <= selected_count {
        plan.eligible.len()
    } else {
        selected_count
    };
    assert(start + all.take(0) =~= start);
    let mut i: usize = 0;
    while i < count
        invariant
            i <= count <= plan.eligible@.len(),
            shown == eligible_views(plan.eligible@),
            all == chosen(shown, selected_count as nat).map_values(
                |m: EligibleView| milestone_context(m),
            ),
            count == all.len(),
            text::views(lines@) == start + all.take(i as int),
        decreases count - i,
    {
        let m: &RunPlanMilestone = &plan.eligible[i];
        assert(chosen(shown, selected_count as nat)[i as int] == m@);
        let mut line: String = "- Milestone ID: ".to_owned();
        line.append(m.id.as_str());
        line.append("\n  Marker: ");
        line.append(m.marker.as_str());
        line.append("\n  Title: ");
        line.append(m.title.as_str());
        text::add_text(&mut lines, line.as_str());
        assert(all.take(i + 1) =~= all.take(i as int).push(all[i as int]));
        assert(text::views(lines@) =~= start + all.take(i + 1));
        i = i + 1;
    }
    assert(all.take(i as int) =~= all);
    assert(start =~= seq![
        "Spec: "@ + plan.spec_path@,
        "Task count: "@ + text::decimal(selected_count as nat),
        "Milestones:"@,
    ]);
    text::join_strings(&lines, "\n")
}

/// A milestone that a task is made from.
#[derive(Debug, Clone, PartialEq, Eq)]
pub struct SelectedMilestone {
    pub spec_path: String,
    pub milestone: Milestone,
}

/// What a supervisor is told of the milestone that a task is made from.
pub open spec fn selected_context(spec_path: Seq<char>, m: MilestoneView) -> Seq<char> {
    "spec_path: "@ + spec_path + "\nmilestone: "@ + specs::full_title(m) + "\nmilestone_id: "@
        + m.id + "\ncompleted: "@ + (if m.completed {
        "yes"@
    } else {
        "no"@
    }) + "\ndepends_on: "@ + m.depends_on
}

/// What a supervisor is told of the milestone that a task is made from.
pub fn selected_milestone_prompt_context(selected: &SelectedMilestone) -> (out: String)
    ensures
        out@ == selected_context(selected.spec_path@, selected.milestone@),
{
    let mut out: String = "spec_path: ".to_owned();
    out.append(selected.spec_path.as_str());
    out.append("\nmilestone: ");
    out.append(selected.milestone.display_title().as_str());
    out.append("\nmilestone_id: ");
    out.append(selected.milestone.id.as_str());
    out.append("\ncompleted: ");
    out.append(
        if selected.milestone.completed {
            "yes"
        } else {
            "no"
        },
    );
    out.append("\ndepends_on: ");
    out.append(selected.milestone.depends_on.as_str());
    out
}

// ------------------------------------------------------------------ decisions

/// The selected specification, if there is one.
pub open spec fn chosen_spec(selected: Option<Seq<char>>) -> Option<Seq<char>> {
    match selected {
        Some(path) => if text::trim(path).len() == 0 {
            None
        } else {
            Some(text::trim(path))
        },
        None => None,
    }
}

/// The selected specification, if there is one.
pub fn selected_spec(selected: Option<&str>) -> (out: Option<String>)
    ensures
        text::opt_view(out) == chosen_spec(text::opt_str_view(selected)),
{
    match selected {
        Some(path) => {
            let trimmed: String = text::trim_string(path);
            let chars: Vec<char> = text::chars_of(trimmed.as_str());
            if chars.len() == 0 {
                None
            } else {
                Some(trimmed)
            }
        },
        None => None,
    }
}

/// What a batch run does next.
#[derive(Debug, Clone, PartialEq, Eq)]
pub enum BatchStep {
    /// The request is refused.
    Refuse(&'static str),
    /// Plan the milestones of the specification.
    Plan(String),
}

/// What a batch run with a limit does first.
pub fn start_batch(limit: Option<usize>, selected: Option<&str>) -> (out: BatchStep)
    ensures
        if limit == Some(0usize) {
            out matches BatchStep::Refuse(s) && s@ == "/run --limit must be greater than 0."@
        } else {
            match chosen_spec(text::opt_str_view(selected)) {
                None => out matches BatchStep::Refuse(s) && s@
                    == "No selected spec. Run /milestones or /spec before /run."@,
                Some(path) => out matches BatchStep::Plan(p) && p@ == path,
            }
        },
{
    if let Some(n) = limit {
        if n == 0 {
            return BatchStep::Refuse("/run --limit must be greater than 0.");
        }
    }
    match selected_spec(selected) {
        Some(path) => BatchStep::Plan(path),
        None => BatchStep::Refuse("No selected spec. Run /milestones or /spec before /run."),
    }
}

/// How a batch run goes on with its plan.
#[derive(Debug, Clone, PartialEq, Eq)]
pub struct BatchPlan {
    /// How many milestones are taken.
    pub selected: usize,
    /// What to tell and what to ask first, where more were wanted than there
    /// are.
    pub ask: Option<(String, String)>,
    /// What is shown of the plan.
    pub lines: Vec<String>,
    /// What the supervisor is told; nothing where no milestone is taken.
    pub prompt: Option<String>,
}

/// How many milestones are taken.
pub open spec fn taken(limit: Option<usize>, available: nat) -> nat {
    match limit {
        Some(n) => if n < available {
            n as nat
        } else {
            available
        },
        None => available,
    }
}

/// What is told where more milestones were wanted than there are.
pub open spec fn over_limit_text(limit: nat, available: nat) -> Seq<char> {
    "/run --limit "@ + text::decimal(limit) + " requested, but only "@ + text::decimal(available)
        + " ready milestone(s) are eligible."@
}

/// How a batch run goes on with its plan: with as many milestones as were
/// wanted, or with all there are after asking, where there are fewer.
pub fn run_batch_plan(plan: &RunPlan, limit: Option<usize>, program: &str) -> (out: BatchPlan)
    ensures
        ({
            let can = eligible_views(plan.eligible@);
            let available = can.len();
            let count = taken(limit, available);
            &&& out.selected == count
            &&& text::views(out.lines@) == plan_lines(
                plan.spec_path@,
                can,
                skipped_views(plan.skipped@),
                count,
            )
            &&& match out.ask {
                Some((told, asked)) => available > 0 && limit is Some && limit->0 > available
                    && told@ == over_limit_text(limit->0 as nat, available) && asked@
                    == "Proceed with "@ + text::decimal(available) + "?"@,
                None => available == 0 || limit is None || limit->0 <= available,
            }
            &&& match out.prompt {
                Some(prompt) => count > 0 && prompt@ == agent_manager::batch_prompt(
                    plan_context(plan.spec_path@, can, count),
                    count,
                    program@,
                ),
                None => count == 0,
            }
        }),
{
    let available: usize = plan.eligible.len();
    assert(eligible_views(plan.eligible@).len() == available);
    let wanted: usize = match limit {
        Some(n) => n,
        None => available,
    };
    let selected: usize = if wanted < available {
        wanted
    } else {
        available
    };
    let mut ask: Option<(String, String)> = None;
    if wanted > available && available > 0 {
        let mut told: String = "/run --limit ".to_owned();
        told.append(text::decimal_string(wanted as u64).as_str());
        told.append(" requested, but only ");
        told.append(text::decimal_string(available as u64).as_str());
        told.append(" ready milestone(s) are eligible.");
        let mut asked: String = "Proceed with ".to_owned();
        asked.append(text::decimal_string(available as u64).as_str());
        asked.append("?");
        ask = Some((told, asked));
    }
    let lines: Vec<String> = run_plan_lines(plan, selected);
    let prompt: Option<String> = if selected > 0 {
        let context: String = run_plan_prompt_context(plan, selected);
        Some(agent_manager::supervisor_batch_task_prompt(context.as_str(), selected, program))
    } else {
        None
    };
    BatchPlan { selected, ask, lines, prompt }
}

/// A batch takes no more milestones than were wanted, and none that a task
/// cannot be made from.
pub proof fn law_batch_is_limited(limit: Option<usize>, can: Seq<EligibleView>)
    ensures
        taken(limit, can.len()) <= can.len(),
        limit is Some ==> taken(limit, can.len()) <= limit->0,
        chosen(can, taken(limit, can.len())) == can.take(taken(limit, can.len()) as int),
{
    assert(can.take(can.len() as int) =~= can);
}

/// What the definition of a task starts from.
#[derive(Debug, Clone, PartialEq, Eq)]
pub enum TaskMilestoneSelection {
    /// No milestone.
    UseFallback,
    /// The next milestone that is ready.
    Use(SelectedMilestone),
    /// The specification is gone.
    Gone(String),
    /// No milestone is ready.
    NoneReady,
    /// The milestone that the plan names is not there.
    Disappeared(String),
}

/// The position of the first milestone with an id; the number of milestones
/// where there is none.
pub open spec fn milestone_at(all: Seq<MilestoneView>, id: Seq<char>) -> int {
    text::index_of(all.map_values(|m: MilestoneView| m.id), id)
}

/// What the definition of a task starts from: the first milestone of the plan.
pub open spec fn task_start(
    spec_path: Option<Seq<char>>,
    exists_on_disk: bool,
    can: Seq<EligibleView>,
    all: Seq<MilestoneView>,
    out: TaskMilestoneSelection,
) -> bool {
    match chosen_spec(spec_path) {
        None => out == TaskMilestoneSelection::UseFallback,
        Some(path) => if !exists_on_disk {
            out matches TaskMilestoneSelection::Gone(message) && message@
                == "Selected spec no longer exists:\n"@ + path
                + "\n\nRun /milestones to select a valid spec."@
        } else if can.len() == 0 {
            out == TaskMilestoneSelection::NoneReady
        } else {
            let at = milestone_at(all, can[0].id);
            if at < all.len() {
                out matches TaskMilestoneSelection::Use(selected) && selected.spec_path@ == path
                    && selected.milestone@ == all[at]
            } else {
                out matches TaskMilestoneSelection::Disappeared(message) && message@
                    == "Ready milestone "@ + can[0].id + " disappeared"@
            }
        },
    }
}

/// What the definition of a task starts from.
pub fn selected_milestone_for_task(
    selected: Option<&str>,
    exists_on_disk: bool,
    eligible: &Vec<RunPlanMilestone>,
    milestones: &Vec<Milestone>,
) -> (out: TaskMilestoneSelection)
    ensures
        task_start(
            text::opt_str_view(selected),
            exists_on_disk,
            eligible_views(eligible@),
            specs::milestone_views(milestones@),
            out,
        ),
{
    let path: String = match selected_spec(selected) {
        Some(path) => path,
        None => {
            return TaskMilestoneSelection::UseFallback;
        },
    };
    if !exists_on_disk {
        let mut message: String = "Selected spec no longer exists:\n".to_owned();
        message.append(path.as_str());
        message.append("\n\nRun /milestones to select a valid spec.");
        return TaskMilestoneSelection::Gone(message);
    }
    if eligible.len() == 0 {
        return TaskMilestoneSelection::NoneReady;
    }
    let ghost all = specs::milestone_views(milestones@);
    let ghost ids = all.map_values(|m: MilestoneView| m.id);
    assert(eligible_views(eligible@)[0] == eligible@[0]@);
    let wanted: &str = eligible[0].id.as_str();
    let mut names: Vec<String> = Vec::new();
    assert(text::views(names@) =~= ids.take(0));
    let mut i: usize = 0;
    while i < milestones.len()
        invariant
            i <= milestones@.len(),
            all == specs::milestone_views(milestones@),
            ids == all.map_values(|m: MilestoneView| m.id),
            text::views(names@) == ids.take(i as int),
        decreases milestones@.len() - i,
    {
        text::add_text(&mut names, milestones[i].id.as_str());
        assert(ids.take(i + 1) =~= ids.take(i as int).push(ids[i as int]));
        i = i + 1;
    }
    assert(ids.take(i as int) =~= ids);
    let at: usize = text::find_in(&names, wanted);
    proof {
        text::lemma_index_of(ids, wanted@);
    }
    if at < milestones.len() {
        assert(all[at as int] == milestones@[at as int]@);
        TaskMilestoneSelection::Use(
            SelectedMilestone { spec_path: path, milestone: milestones[at].copy() },
        )
    } else {
        let mut message: String = "Ready milestone ".to_owned();
        message.append(wanted);
        message.append(" disappeared");
        TaskMilestoneSelection::Disappeared(message)
    }
}

/// What is shown of the milestone that a task is made from.
pub fn next_milestone_message(selected: &SelectedMilestone) -> (out: String)
    ensures
        out@ == "\n  • Using next ready milestone\n  ╰─ "@ + selected.spec_path@ + " / "@
            + specs::full_title(selected.milestone@) + "\n"@,
{
    let mut out: String = "\n  • Using next ready milestone\n  ╰─ ".to_owned();
    out.append(selected.spec_path.as_str());
    out.append(" / ");
    out.append(selected.milestone.display_title().as_str());
    out.append("\n");
    out
}

/// What the supervisor is told to define a task.
pub open spec fn task_prompt_text(
    selected: Option<(Seq<char>, MilestoneView)>,
    program: Seq<char>,
) -> Seq<char> {
    match selected {
        Some((path, milestone)) => agent_manager::milestone_prompt(
            selected_context(path, milestone),
            program,
        ),
        None => agent_manager::prompt(agent_manager::SUPERVISOR_TASK_START@, program),
    }
}

/// What the supervisor is told to define a task.
pub fn task_prompt(selected: Option<&SelectedMilestone>, program: &str) -> (out: String)
    ensures
        out@ == task_prompt_text(
            match selected {
                Some(s) => Some((s.spec_path@, s.milestone@)),
                None => None,
            },
            program@,
        ),
{
    match selected {
        Some(selected) => agent_manager::supervisor_task_prompt_for_milestone(
            selected_milestone_prompt_context(selected).as_str(),
            program,
        ),
        None => agent_manager::supervisor_task_prompt(program),
    }
}

/// What is said where no milestone is ready.
pub const NONE_READY: &'static str =
    "No ready milestone is available. Use /task --manual for an ad-hoc task.";

/// What is said when the user does not want the task.
pub const TASK_CANCELLED: &'static str = "Task cancelled.";

/// What is said where no queued task could start.
pub const NONE_STARTED: &'static str =
    "No queued task started. Use /tasks to inspect pending work.";

// ------------------------------------------------------------------ selecting a specification

/// What is said where there are no specifications.
pub const NO_SPECS: &'static str = "No specs found in the configured spec directory.";

/// What is said when no specification was selected.
pub const SELECTION_CANCELLED: &'static str = "Milestone selection cancelled.";

/// What is said of a specification without milestones.
pub const NO_MILESTONES: &'static str = "Selected spec has no milestones with IDs.";

/// The name under which a specification is offered.
pub open spec fn display_name(path: Seq<char>) -> Seq<char> {
    let file = text::after_last(path, '/');
    match text::before_suffix(file, ".md"@) {
        Some(stem) => stem,
        None => file,
    }
}

/// The name under which a specification is offered.
pub fn spec_display_name(path: &str) -> (out: String)
    ensures
        out@ == display_name(path@),
{
    let file: String = text::after_last_string(path, '/');
    match text::strip_suffix(file.as_str(), ".md") {
        Some(stem) => stem,
        None => file,
    }
}

/// The options from which a specification is selected.
pub open spec fn spec_options(paths: Seq<Seq<char>>) -> Seq<Seq<char>> {
    paths.map_values(|path: Seq<char>| display_name(path) + "  ("@ + path + ")"@)
}

/// The options from which a specification is selected; nothing where there are
/// none.
pub fn milestones(paths: &Vec<String>) -> (out: Option<Vec<String>>)
    ensures
        match out {
            Some(options) => paths@.len() > 0 && text::views(options@) == spec_options(
                text::views(paths@),
            ),
            None => paths@.len() == 0,
        },
{
    if paths.len() == 0 {
        return None;
    }
    let ghost shown = text::views(paths@);
    let ghost all = spec_options(shown);
    let mut options: Vec<String> = Vec::new();
    assert(text::views(options@) =~= all.take(0));
    let mut i: usize = 0;
    while i < paths.len()
        invariant
            i <= paths@.len(),
            shown == text::views(paths@),
            all == spec_options(shown),
            text::views(options@) == all.take(i as int),
        decreases paths@.len() - i,
    {
        let mut option: String = spec_display_name(paths[i].as_str());
        option.append("  (");
        option.append(paths[i].as_str());
        option.append(")");
        text::add_text(&mut options, option.as_str());
        assert(all.take(i + 1) =~= all.take(i as int).push(all[i as int]));
        i = i + 1;
    }
    assert(all.take(i as int) =~= all);
    Some(options)
}

/// Whether a specification can be selected, and what is said then.
pub fn select_spec(path: &str, milestones: &Vec<Milestone>) -> (out: Result<String, &'static str>)
    ensures
        match out {
            Ok(message) => milestones@.len() > 0 && message@ == "\n  • Selected spec\n  ╰─ "@
                + path@ + "\n"@,
            Err(message) => milestones@.len() == 0 && message@ == NO_MILESTONES@,
        },
{
    if milestones.len() == 0 {
        return Err(NO_MILESTONES);
    }
    let mut message: String = "\n  • Selected spec\n  ╰─ ".to_owned();
    message.append(path);
    message.append("\n");
    Ok(message)
}

/// Clears the selection of a specification and of a milestone, and says so.
pub fn reset_spec_selection(state: &mut StateData) -> (out: &'static str)
    ensures
        final(state)@ == (StateView { selected_spec: None, selected_milestone: None, ..old(state)@ }),
        out@ == if old(state)@.selected_spec is Some {
            "Selected spec reset. /task will use manual task definition."@
        } else {
            "No selected spec to reset."@
        },
{
    let message: &'static str = match &state.selected_spec {
        Some(_) => "Selected spec reset. /task will use manual task definition.",
        None => "No selected spec to reset.",
    };
    state.selected_spec = None;
    state.selected_milestone = None;
    message
}

// ------------------------------------------------------------------ drafting a specification

/// What happens while a specification is drafted.
#[derive(Debug, Clone, PartialEq, Eq)]
pub enum DraftEvent {
    /// The supervisor's session ended, well or not.
    Ended { success: bool },
    /// Time passed; the path of the last specification that was written.
    Tick { last_spec: Option<String> },
}

/// What to do while a specification is drafted.
#[derive(Debug, Clone, Copy, PartialEq, Eq, Structural)]
pub enum DraftStep {
    Wait,
    /// The specification is written: let the session end.
    StopSession,
    /// The session ended.
    Finish,
    /// The session ended with a fault.
    Fail,
}

/// What to do after an event, and the path that is known then.
pub fn spec_step(event: &DraftEvent) -> (out: (DraftStep, Option<String>))
    ensures
        match *event {
            DraftEvent::Ended { success } => out.0 == (if success {
                DraftStep::Finish
            } else {
                DraftStep::Fail
            }) && out.1 is None,
            DraftEvent::Tick { last_spec } => match text::opt_view(last_spec) {
                Some(path) if path.len() > 0 => out.0 == DraftStep::StopSession && text::opt_view(
                    out.1,
                ) == Some(path),
                _ => out.0 == DraftStep::Wait && out.1 is None,
            },
        },
{
    match event {
        DraftEvent::Ended { success } => {
            if *success {
                (DraftStep::Finish, None)
            } else {
                (DraftStep::Fail, None)
            }
        },
        DraftEvent::Tick { last_spec } => match last_spec {
            Some(path) => {
                let chars: Vec<char> = text::chars_of(path.as_str());
                if chars.len() > 0 {
                    (DraftStep::StopSession, Some(path.clone()))
                } else {
                    (DraftStep::Wait, None)
                }
            },
            None => (DraftStep::Wait, None),
        },
    }
}

/// What drafting a specification came to.
#[derive(Debug, Clone, PartialEq, Eq)]
pub enum SpecOutcome {
    /// It is there: what is shown, before the tip for what comes next.
    Ready(String),
    /// There is none.
    Missing,
}

/// The tip when a specification is there.
pub const SPEC_TIP: &'static str = "Tip: Use /task to queue the next ready milestone.";

/// What is shown when there is none.
pub const NO_SPEC: &'static str = "No specification created. Re-run /spec when ready.";

/// The path of the drafted specification: the one that was seen during the
/// session, or else the last one that was written.
pub open spec fn drafted(seen: Option<Seq<char>>, last: Option<Seq<char>>) -> Option<Seq<char>> {
    match seen {
        Some(path) => Some(path),
        None => match last {
            Some(path) if path.len() > 0 => Some(path),
            _ => None,
        },
    }
}

/// What drafting a specification came to.
pub fn spec(seen: Option<&str>, last: Option<&str>) -> (out: SpecOutcome)
    ensures
        match drafted(text::opt_str_view(seen), text::opt_str_view(last)) {
            Some(path) => out matches SpecOutcome::Ready(shown) && shown@
                == "\n  • Specification ready\n  ╰─ "@ + path + "\n"@,
            None => out == SpecOutcome::Missing,
        },
{
    let found: Option<&str> = match seen {
        Some(path) => Some(path),
        None => match last {
            Some(path) => {
                let chars: Vec<char> = text::chars_of(path);
                if chars.len() > 0 {
                    Some(path)
                } else {
                    None
                }
            },
            None => None,
        },
    };
    match found {
        Some(path) => {
            let mut shown: String = "\n  • Specification ready\n  ╰─ ".to_owned();
            shown.append(path);
            shown.append("\n");
            SpecOutcome::Ready(shown)
        },
        None => SpecOutcome::Missing,
    }
}

// ------------------------------------------------------------------ laws of planning

/// Whether a task is made from a milestone of a specification and is not over.
pub open spec fn is_under_way(t: TaskView, spec_path: Seq<char>, milestone_id: Seq<char>) -> bool {
    &&& t.spec_path == Some(spec_path)
    &&& t.milestone_id == Some(milestone_id)
    &&& t.status != "idle"@ && t.status != "reset"@ && t.status != "complete"@ && t.status
        != "failed"@
}

/// The task of a milestone is the first by id of those that are made from it and are not
/// over; there is none only where there is no such task.
pub proof fn law_milestone_has_its_task(
    tasks: Seq<TaskView>,
    spec_path: Seq<char>,
    milestone_id: Seq<char>,
    i: int,
)
    ensures
        match task_of(tasks, spec_path, milestone_id) {
            None => 0 <= i < tasks.len() ==> !is_under_way(tasks[i], spec_path, milestone_id),
            Some(t) => {
                &&& tasks.contains(t)
                &&& is_under_way(t, spec_path, milestone_id)
                &&& 0 <= i < tasks.len() && is_under_way(tasks[i], spec_path, milestone_id)
                    ==> !text::text_lt(tasks[i].id, t.id)
            },
        },
{
    order::lemma_by_id();
    let wanted = listing::from_origin(spec_path, milestone_id);
    rows::lemma_pick(tasks, wanted, order::by_id());
    if 0 <= i < tasks.len() {
        assert(wanted(tasks[i]) == is_under_way(tasks[i], spec_path, milestone_id));
    }
    let k = rows::pick(tasks, wanted, order::by_id());
    if k >= 0 {
        assert(wanted(tasks[k]));
    }
}

/// Whether a task can be made from a milestone: it is ready, and no task that is made from
/// it is under way.
pub open spec fn can_start(tasks: Seq<TaskView>, spec_path: Seq<char>, item: ItemView) -> bool {
    &&& item.readiness is Ready
    &&& forall|i: int|
        0 <= i < tasks.len() ==> !is_under_way(#[trigger] tasks[i], spec_path, item.milestone.id)
}

proof fn lemma_can_start(tasks: Seq<TaskView>, spec_path: Seq<char>, item: ItemView)
    ensures
        skip_reason(tasks, spec_path, item) is None <==> can_start(tasks, spec_path, item),
{
    let id = item.milestone.id;
    if task_of(tasks, spec_path, id) is None {
        assert forall|i: int| 0 <= i < tasks.len() implies !is_under_way(
            #[trigger] tasks[i],
            spec_path,
            id,
        ) by {
            law_milestone_has_its_task(tasks, spec_path, id, i);
        }
    } else {
        law_milestone_has_its_task(tasks, spec_path, id, 0);
        let t = task_of(tasks, spec_path, id)->0;
        let k = choose|k: int| 0 <= k < tasks.len() && tasks[k] == t;
        assert(is_under_way(tasks[k], spec_path, id));
    }
}

/// A plan offers exactly the milestones that a task can be made from, in their order and as
/// they are, and leaves out all others, in their order.
pub proof fn law_plan_offers_what_can_start(
    tasks: Seq<TaskView>,
    spec_path: Seq<char>,
    items: Seq<ItemView>,
)
    ensures
        eligible(tasks, spec_path, items) == items.filter(
            |item: ItemView| can_start(tasks, spec_path, item),
        ).map_values(
            |item: ItemView|
                EligibleView {
                    id: item.milestone.id,
                    marker: item.milestone.marker,
                    title: item.milestone.title,
                },
        ),
        skipped(tasks, spec_path, items).map_values(|m: SkippedView| (m.id, m.marker, m.title))
            == items.filter(|item: ItemView| !can_start(tasks, spec_path, item)).map_values(
            |item: ItemView| (item.milestone.id, item.milestone.marker, item.milestone.title),
        ),
    decreases items.len(),
{
    reveal(Seq::filter);
    let can = items.filter(|item: ItemView| can_start(tasks, spec_path, item)).map_values(
        |item: ItemView|
            EligibleView {
                id: item.milestone.id,
                marker: item.milestone.marker,
                title: item.milestone.title,
            },
    );
    let cannot = items.filter(|item: ItemView| !can_start(tasks, spec_path, item)).map_values(
        |item: ItemView| (item.milestone.id, item.milestone.marker, item.milestone.title),
    );
    if items.len() > 0 {
        law_plan_offers_what_can_start(tasks, spec_path, items.drop_last());
        lemma_can_start(tasks, spec_path, items.last());
        let left = items.filter(|item: ItemView| !can_start(tasks, spec_path, item));
        let before = items.drop_last().filter(
            |item: ItemView| !can_start(tasks, spec_path, item),
        );
        let shown = |item: ItemView|
            (item.milestone.id, item.milestone.marker, item.milestone.title);
        let told = |m: SkippedView| (m.id, m.marker, m.title);
        let item = items.last();
        let front = skipped(tasks, spec_path, items.drop_last());
        if can_start(tasks, spec_path, item) {
            assert(left == before);
            assert(skipped(tasks, spec_path, items) == front);
        } else {
            assert(left == before.push(item));
            assert(left.map_values(shown) =~= before.map_values(shown).push(shown(item)));
            let row = skipped(tasks, spec_path, items).last();
            assert(skipped(tasks, spec_path, items) == front.push(row));
            assert(skipped(tasks, spec_path, items).map_values(told) =~= front.map_values(
                told,
            ).push(shown(item)));
        }
    }
    assert(eligible(tasks, spec_path, items) =~= can);
    assert(skipped(tasks, spec_path, items).map_values(
        |m: SkippedView| (m.id, m.marker, m.title),
    ) =~= cannot);
}

/// Why a milestone is left out is told truly: that it is done, what it waits for, or which
/// task that is made from it is under way and how that stands.
pub proof fn law_reasons_are_true(tasks: Seq<TaskView>, spec_path: Seq<char>, item: ItemView)
    requires
        skip_reason(tasks, spec_path, item) is Some,
    ensures
        ({
            let reason = skip_reason(tasks, spec_path, item)->0;
            match item.readiness {
                MilestoneReadiness::Done => reason == "done"@,
                MilestoneReadiness::Pending => reason == "waiting for "@ + text::join(
                    item.blocked_by,
                    ", "@,
                ),
                MilestoneReadiness::Ready => exists|i: int|
                    0 <= i < tasks.len() && is_under_way(
                        #[trigger] tasks[i],
                        spec_path,
                        item.milestone.id,
                    ) && reason == "task "@ + tasks[i].id + " is "@ + tasks[i].status,
            }
        }),
{
    if item.readiness is Ready {
        law_milestone_has_its_task(tasks, spec_path, item.milestone.id, 0);
        let t = task_of(tasks, spec_path, item.milestone.id)->0;
        let k = choose|k: int| 0 <= k < tasks.len() && tasks[k] == t;
        assert(is_under_way(tasks[k], spec_path, item.milestone.id));
    }
}

/// A batch takes as many milestones as are wanted, or all where that is no limit, and they
/// are the first ones, in their order.
pub proof fn law_batch_takes_the_first(limit: Option<usize>, can: Seq<EligibleView>, i: int)
    ensures
        ({
            let count = taken(limit, can.len());
            &&& limit is None ==> count == can.len()
            &&& limit is Some && limit->0 <= can.len() ==> count == limit->0
            &&& limit is Some && limit->0 > can.len() ==> count == can.len()
            &&& chosen(can, count).len() == count
            &&& 0 <= i < count ==> chosen(can, count)[i] == can[i]
        }),
{
}

/// A specification that is selected is named without white space around it, and a blank
/// name is none.
pub proof fn law_blank_selection_is_none(path: Seq<char>)
    ensures
        chosen_spec(None) is None,
        chosen_spec(Some(path)) is None <==> text::is_blank(path),
        chosen_spec(Some(path)) is Some ==> chosen_spec(Some(path))->0 == text::trim(path),
{
    text::lemma_trim_empty(path);
}

/// A task starts from the first milestone that the plan offers, as the specification has it;
/// without a selected specification it starts from none, and one that is gone is named.
pub proof fn law_task_starts_from_the_first(
    path: Seq<char>,
    can: Seq<EligibleView>,
    all: Seq<MilestoneView>,
    out: TaskMilestoneSelection,
    i: int,
)
    ensures
        task_start(None, true, can, all, out) ==> out is UseFallback,
        !text::is_blank(path) && task_start(Some(path), false, can, all, out) ==> out is Gone,
        !text::is_blank(path) && can.len() == 0 && task_start(Some(path), true, can, all, out)
            ==> out is NoneReady,
        !text::is_blank(path) && can.len() > 0 && 0 <= i < all.len() && all[i].id == can[0].id
            && task_start(Some(path), true, can, all, out) ==> (
        out matches TaskMilestoneSelection::Use(selected) && selected.spec_path@ == text::trim(path)
            && selected.milestone@.id == can[0].id && all.contains(selected.milestone@)),
{
    law_blank_selection_is_none(path);
    if can.len() > 0 {
        let ids = all.map_values(|m: MilestoneView| m.id);
        text::lemma_index_of(ids, can[0].id);
        let at = milestone_at(all, can[0].id);
        if 0 <= i < all.len() && all[i].id == can[0].id {
            assert(ids[i] == can[0].id);
            assert(at < all.len());
            assert(ids[at] == all[at].id);
        }
    }
}

/// A specification is offered by the name of its file without `.md`.
pub proof fn law_spec_is_offered_by_its_file(dir: Seq<char>, stem: Seq<char>)
    requires
        !stem.contains('/'),
    ensures
        display_name(dir.push('/') + stem + ".md"@) == stem,
        display_name(stem + ".md"@) == stem,
{
    reveal_strlit(".md");
    let file = stem + ".md"@;
    assert(!file.contains('/')) by {
        if file.contains('/') {
            let k = choose|k: int| 0 <= k < file.len() && file[k] == '/';
            if k < stem.len() {
                assert(stem[k] == '/');
            } else {
                assert(file[k] == ".md"@[k - stem.len()]);
            }
        }
    }
    text::law_last_part_has_no_separator(dir, file, '/');
    assert(dir.push('/') + stem + ".md"@ =~= dir.push('/') + file);
    assert(file.subrange(stem.len() as int, file.len() as int) =~= ".md"@);
    assert(file.take(stem.len() as int) =~= stem);
}

/// The specification that was drafted is the one that was seen while it was drafted, before
/// the last one that was written; an empty path is none.
pub proof fn law_seen_draft_counts_first(seen: Option<Seq<char>>, last: Option<Seq<char>>)
    ensures
        seen is Some ==> drafted(seen, last) == seen,
        seen is None && last is Some && last->0.len() > 0 ==> drafted(seen, last) == last,
        seen is None && (last is None || last->0.len() == 0) ==> drafted(seen, last) is None,
{
}

/// A plan is shown with how many milestones can be started and how many are taken, then
/// each of those that are taken, then each that is left out with the reason for it.
pub proof fn law_plan_is_shown(
    spec_path: Seq<char>,
    can: Seq<EligibleView>,
    cannot: Seq<SkippedView>,
    selected: nat,
    i: int,
)
    requires
        selected <= can.len(),
    ensures
        plan_lines(spec_path, can, cannot, selected)[1] == "spec      : "@ + spec_path,
        plan_lines(spec_path, can, cannot, selected)[2] == "eligible  : "@ + text::decimal(
            can.len(),
        ),
        plan_lines(spec_path, can, cannot, selected)[3] == "selected  : "@ + text::decimal(
            selected,
        ),
        plan_lines(spec_path, can, cannot, selected).len() == 4 + (if can.len() == 0 {
            0int
        } else {
            2int + selected
        }) + (if cannot.len() == 0 {
            0int
        } else {
            2int + cannot.len()
        }),
        0 <= i < selected ==> ("  "@ + can[i].marker + "  "@ + can[i].id).is_prefix_of(
            plan_lines(spec_path, can, cannot, selected)[6 + i],
        ) && can[i].title.is_suffix_of(plan_lines(spec_path, can, cannot, selected)[6 + i]),
        0 <= i < cannot.len() ==> {
            let lines = plan_lines(spec_path, can, cannot, selected);
            let line = lines[lines.len() - cannot.len() + i];
            &&& ("  "@ + cannot[i].marker + "  "@ + cannot[i].id).is_prefix_of(line)
            &&& (cannot[i].title + " ("@ + cannot[i].reason + ")"@).is_suffix_of(line)
        },
{
    let lines = plan_lines(spec_path, can, cannot, selected);
    if 0 <= i < selected {
        let m = can[i];
        let line = eligible_line(m);
        assert(lines[6 + i] == line);
        let head = "  "@ + m.marker + "  "@ + m.id;
        assert(line.subrange(0, head.len() as int) =~= head);
        assert(line.subrange(line.len() - m.title.len(), line.len() as int) =~= m.title);
    }
    if 0 <= i < cannot.len() {
        let m = cannot[i];
        let line = skipped_line(m);
        assert(lines[lines.len() - cannot.len() + i] == line);
        let head = "  "@ + m.marker + "  "@ + m.id;
        let tail = m.title + " ("@ + m.reason + ")"@;
        assert(line.subrange(0, head.len() as int) =~= head);
        assert(line.subrange(line.len() - tail.len(), line.len() as int) =~= tail);
    }
}

/// A supervisor who makes tasks is told of the spec, of how many tasks there are to be,
/// and of each milestone that was taken, in their order: one more milestone adds what is
/// said of it.
pub proof fn law_supervisor_is_told_of_each_milestone(
    spec_path: Seq<char>,
    can: Seq<EligibleView>,
    selected: nat,
)
    requires
        selected <= can.len(),
    ensures
        plan_context(spec_path, can, 0) == "Spec: "@ + spec_path + "\n"@ + "Task count: "@
            + text::decimal(0) + "\n"@ + "Milestones:"@,
        selected > 0 ==> {
            let last = can[selected - 1];
            ("\n"@ + "- Milestone ID: "@ + last.id + "\n  Marker: "@ + last.marker
                + "\n  Title: "@ + last.title).is_suffix_of(
                plan_context(spec_path, can, selected),
            )
        },
        ("Spec: "@ + spec_path).is_prefix_of(plan_context(spec_path, can, selected)),
{
    let f = |m: EligibleView| milestone_context(m);
    let head = seq![
        "Spec: "@ + spec_path,
        "Task count: "@ + text::decimal(selected),
        "Milestones:"@,
    ];
    let none = seq!["Spec: "@ + spec_path, "Task count: "@ + text::decimal(0), "Milestones:"@];
    assert(none + chosen(can, 0).map_values(f) =~= none);
    reveal_with_fuel(text::join, 4);
    assert(none.drop_last().drop_last() =~= seq!["Spec: "@ + spec_path]);
    assert(plan_context(spec_path, can, 0) =~= "Spec: "@ + spec_path + "\n"@ + "Task count: "@
        + text::decimal(0) + "\n"@ + "Milestones:"@);
    let all = head + chosen(can, selected).map_values(f);
    if selected > 0 {
        let last = can[selected - 1];
        assert(all.last() == milestone_context(last));
        let whole = plan_context(spec_path, can, selected);
        let tail = "\n"@ + "- Milestone ID: "@ + last.id + "\n  Marker: "@ + last.marker
            + "\n  Title: "@ + last.title;
        assert(whole == text::join(all.drop_last(), "\n"@) + "\n"@ + all.last());
        assert(whole.subrange(whole.len() - tail.len(), whole.len() as int) =~= tail);
    }
    lemma_join_starts(all);
}

/// Joined texts start with the first of them.
proof fn lemma_join_starts(list: Seq<Seq<char>>)
    requires
        list.len() > 0,
    ensures
        list[0].is_prefix_of(text::join(list, "\n"@)),
    decreases list.len(),
{
    let whole = text::join(list, "\n"@);
    if list.len() > 1 {
        lemma_join_starts(list.drop_last());
        let front = text::join(list.drop_last(), "\n"@);
        assert(list.drop_last()[0] == list[0]);
        assert(whole.subrange(0, list[0].len() as int) =~= front.subrange(
            0,
            list[0].len() as int,
        ));
    } else {
        assert(whole.subrange(0, list[0].len() as int) =~= list[0]);
    }
}

/// A supervisor who makes a task from a milestone is told which one: where it stands,
/// what it is called, whether it is done and what it waits for. Without a milestone
/// nothing is said of any.
pub proof fn law_supervisor_is_told_the_milestone(
    spec_path: Seq<char>,
    m: MilestoneView,
    program: Seq<char>,
)
    ensures
        ("spec_path: "@ + spec_path + "\nmilestone: "@ + m.marker + " "@ + m.title
            + "\nmilestone_id: "@ + m.id).is_prefix_of(selected_context(spec_path, m)),
        ("\ncompleted: "@ + (if m.completed {
            "yes"@
        } else {
            "no"@
        }) + "\ndepends_on: "@ + m.depends_on).is_suffix_of(selected_context(spec_path, m)),
        selected_context(spec_path, m).is_suffix_of(
            task_prompt_text(Some((spec_path, m)), program),
        ),
        task_prompt_text(None, program) == agent_manager::prompt(
            agent_manager::SUPERVISOR_TASK_START@,
            program,
        ),
{
    let whole = selected_context(spec_path, m);
    let head = "spec_path: "@ + spec_path + "\nmilestone: "@ + m.marker + " "@ + m.title
        + "\nmilestone_id: "@ + m.id;
    let tail = "\ncompleted: "@ + (if m.completed {
        "yes"@
    } else {
        "no"@
    }) + "\ndepends_on: "@ + m.depends_on;
    assert(whole =~= head + tail);
    assert(whole.subrange(0, head.len() as int) =~= head);
    assert(whole.subrange(whole.len() - tail.len(), whole.len() as int) =~= tail);
    agent_manager::law_prompts_end_with_their_milestones(Seq::empty(), whole, 0, program);
}

} // verus!
