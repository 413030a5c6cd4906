//! What the workflow tells the shell.
use vstd::prelude::*;
use vstd::string::*;

use crate::agent_id;
use crate::hq::agent_manager;
use crate::hq::agent_manager::{AgentView, AgentsRegistry};
use crate::hq::state_watcher;
use crate::hq::state_watcher::{TransitionSnapshot, WatchedState};
use crate::hq::tui;
use crate::hq::tui::{StatusSnapshot, StatusView, UiMessage};
use crate::state;
use crate::state::{StateView, TaskState};
use crate::text;

verus! {

/// One message of several lines; nothing where they hold no text.
pub fn info_block(lines: &Vec<String>) -> (out: Option<UiMessage>)
    ensures
        match out {
            Some(message) => text::join(text::views(lines@), "\n"@).len() > 0
                && (message matches UiMessage::Info(s) && s@ == text::join(
                text::views(lines@),
                "\n"@,
            )),
            None => text::join(text::views(lines@), "\n"@).len() == 0,
        },
{
    let block: String = text::join_strings(lines, "\n");
    let chars: Vec<char> = text::chars_of(block.as_str());
    if chars.len() == 0 {
        None
    } else {
        Some(UiMessage::Info(block))
    }
}

// ------------------------------------------------------------------ changes of state

/// Whether the time of a change is left out: on the way from idle, and at the
/// end of a task.
pub open spec fn hides_elapsed(transition: TransitionSnapshot) -> bool {
    transition.from is Idle || transition.to is Complete
}

/// A state with the time that it took.
pub open spec fn timed(state: TaskState, secs: u64) -> Seq<char> {
    state::state_name(state) + " ("@ + state_watcher::elapsed_text(secs) + ")"@
}

/// What is shown of the state before a change; nothing where the time of the
/// whole task is shown.
pub open spec fn shown_from(transition: TransitionSnapshot) -> Option<Seq<char>> {
    if transition.used_total {
        None
    } else if hides_elapsed(transition) {
        Some(state::state_name(transition.from))
    } else {
        Some(timed(transition.from, transition.elapsed_secs))
    }
}

/// What is shown of the state after a change.
pub open spec fn shown_to(transition: TransitionSnapshot) -> Seq<char> {
    if transition.used_total && !hides_elapsed(transition) {
        timed(transition.to, transition.elapsed_secs)
    } else {
        state::state_name(transition.to)
    }
}

/// A state with the time that it took.
fn timed_string(state: TaskState, secs: u64) -> (out: String)
    ensures
        out@ == timed(state, secs),
{
    let mut out: String = state.name().to_owned();
    out.append(" (");
    out.append(state_watcher::format_elapsed(secs).as_str());
    out.append(")");
    out
}

/// What is shown of a change of state.
pub fn format_transition_parts(transition: &TransitionSnapshot) -> (out: (Option<String>, String))
    ensures
        text::opt_view(out.0) == shown_from(*transition),
        out.1@ == shown_to(*transition),
{
    let hide: bool = transition.from == TaskState::Idle || transition.to == TaskState::Complete;
    let from: Option<String> = if transition.used_total {
        None
    } else if hide {
        Some(transition.from.name().to_owned())
    } else {
        Some(timed_string(transition.from, transition.elapsed_secs))
    };
    let to: String = if transition.used_total && !hide {
        timed_string(transition.to, transition.elapsed_secs)
    } else {
        transition.to.name().to_owned()
    };
    (from, to)
}

/// The message of a change of state.
pub fn transition(change: &TransitionSnapshot) -> (out: UiMessage)
    ensures
        out matches UiMessage::Transition { from, to } && text::opt_view(from) == shown_from(
            *change,
        ) && to@ == shown_to(*change),
{
    let (from, to): (Option<String>, String) = format_transition_parts(change);
    UiMessage::Transition { from, to }
}

// ------------------------------------------------------------------ status

/// The word for what the first agent in a role does.
pub open spec fn role_status(agents: Seq<AgentView>, role: Seq<char>) -> Seq<char> {
    let at = agent_manager::role_at(agents, role);
    if at < agents.len() {
        agent_manager::status_word(agents[at].status)
    } else {
        "none"@
    }
}

/// The word for what the first agent in a role does.
pub fn agent_status_label(agents: &AgentsRegistry, role: &str) -> (out: &'static str)
    ensures
        out@ == role_status(agents@, role@),
{
    match agents.by_role(role) {
        Some(entry) => entry.status.word(),
        None => "none",
    }
}

/// A line that is shown only where there is something to show.
pub open spec fn optional_line(label: Seq<char>, value: Option<Seq<char>>) -> Seq<Seq<char>> {
    match value {
        Some(s) => seq![label + s],
        None => Seq::empty(),
    }
}

/// A line of a counter that has counted anything.
pub open spec fn counter_line(label: Seq<char>, count: u32) -> Seq<Seq<char>> {
    if count > 0 {
        seq![label + text::decimal(count as nat)]
    } else {
        Seq::empty()
    }
}

/// The line of an agent.
pub open spec fn agent_line(agent: AgentView) -> Seq<char> {
    "  ["@ + text::pad_end(agent.role, 10) + "] "@ + text::pad_end(
        agent_manager::status_word(agent.status),
        10,
    ) + match agent.pid {
        Some(pid) => " pid="@ + text::decimal(pid as nat),
        None => Seq::empty(),
    }
}

/// The lines of the agents.
pub open spec fn agent_lines(agents: Seq<AgentView>) -> Seq<Seq<char>> {
    if agents.len() == 0 {
        seq!["agents     : none"@]
    } else {
        agents.map_values(|a: AgentView| agent_line(a))
    }
}

/// The lines of a status report.
pub open spec fn status_lines(state: StateView, agents: Seq<AgentView>) -> Seq<Seq<char>> {
    seq!["state      : "@ + state::state_name(state.state)] + optional_line(
        "claimed_by : "@,
        state.claimed_by,
    ) + counter_line("retries    : "@, state.check_retries) + counter_line(
        "cycles     : "@,
        state.review_cycles,
    ) + optional_line("spec       : "@, state.selected_spec) + optional_line(
        "milestone  : "@,
        state.selected_milestone,
    ) + agent_lines(agents)
}

/// Adds a line that is shown only where there is something to show.
fn add_optional(lines: &mut Vec<String>, label: &str, value: &Option<String>)
    ensures
        text::views(final(lines)@) == text::views(old(lines)@) + optional_line(
            label@,
            text::opt_view(*value),
        ),
{
    let ghost before = text::views(lines@);
    if let Some(s) = value {
        let mut line: String = label.to_owned();
        line.append(s.as_str());
        text::add_text(lines, line.as_str());
    }
    assert(text::views(lines@) =~= before + optional_line(label@, text::opt_view(*value)));
}

/// Adds a line of a counter that has counted anything.
fn add_counter(lines: &mut Vec<String>, label: &str, count: u32)
    ensures
        text::views(final(lines)@) == text::views(old(lines)@) + counter_line(label@, count),
{
    let ghost before = text::views(lines@);
    if count > 0 {
        let mut line: String = label.to_owned();
        line.append(text::decimal_string(count as u64).as_str());
        text::add_text(lines, line.as_str());
    }
    assert(text::views(lines@) =~= before + counter_line(label@, count));
}

/// Adds the lines of the agents.
fn add_agents(lines: &mut Vec<String>, agents: &AgentsRegistry)
    ensures
        text::views(final(lines)@) == text::views(old(lines)@) + agent_lines(agents@),
{
    let ghost before = text::views(lines@);
    if agents.agents.len() == 0 {
        text::add_text(lines, "agents     : none");
        assert(text::views(lines@) =~= before + agent_lines(agents@));
        return;
    }
    let ghost all = agents@.map_values(|a: AgentView| agent_line(a));
    assert(before + all.take(0) =~= before);
    let mut i: usize = 0;
    while i < agents.agents.len()
        invariant
            i <= agents.agents@.len(),
            all == agents@.map_values(|a: AgentView| agent_line(a)),
            text::views(lines@) == before + all.take(i as int),
        decreases agents.agents@.len() - i,
    {
        let agent = &agents.agents[i];
        let mut line: String = "  [".to_owned();
        line.append(text::pad_end_string(agent.role.as_str(), 10).as_str());
        line.append("] ");
        line.append(text::pad_end_string(agent.status.word(), 10).as_str());
        if let Some(pid) = agent.pid {
            let mut shown: String = " pid=".to_owned();
            shown.append(text::decimal_string(pid as u64).as_str());
            line.append(shown.as_str());
        }
        assert(agents@[i as int] == agents.agents@[i as int]@);
        assert(line@ =~= all[i as int]);
        text::add_text(lines, line.as_str());
        assert(all.take(i + 1) =~= all.take(i as int).push(all[i as int]));
        assert(text::views(lines@) =~= before + all.take(i + 1));
        i = i + 1;
    }
    assert(all.take(i as int) =~= all);
}

/// What a status report tells: the status line, and one block of lines.
pub struct StatusReport {
    pub update: UiMessage,
    pub block: Option<UiMessage>,
}

/// What the status line shows of a state and the agents.
pub open spec fn status_update(state: StateView, agents: Seq<AgentView>) -> StatusView {
    StatusView {
        supervisor_status: role_status(agents, agent_id::ROLE_SUPERVISOR@),
        executor_status: role_status(agents, agent_id::ROLE_EXECUTOR@),
        ..tui::status_of(state)
    }
}

/// Reports on the state and the agents.
pub fn status(watched: &WatchedState, agents: &AgentsRegistry) -> (out: StatusReport)
    ensures
        out.update matches UiMessage::StatusUpdate(snapshot) && snapshot@ == status_update(
            watched.state@,
            agents@,
        ),
        out.block matches Some(UiMessage::Info(s)) && s@ == text::join(
            status_lines(watched.state@, agents@),
            "\n"@,
        ),
{
    let mut snapshot: StatusSnapshot = StatusSnapshot::from_watched_state(watched);
    snapshot.supervisor_status = agent_status_label(agents, agent_id::ROLE_SUPERVISOR).to_owned();
    snapshot.executor_status = agent_status_label(agents, agent_id::ROLE_EXECUTOR).to_owned();
    let mut first: String = "state      : ".to_owned();
    first.append(watched.state.state.name());
    let mut lines: Vec<String> = text::one_text(first.as_str());
    add_optional(&mut lines, "claimed_by : ", &watched.state.claimed_by);
    add_counter(&mut lines, "retries    : ", watched.state.check_retries);
    add_counter(&mut lines, "cycles     : ", watched.state.review_cycles);
    add_optional(&mut lines, "spec       : ", &watched.state.selected_spec);
    add_optional(&mut lines, "milestone  : ", &watched.state.selected_milestone);
    add_agents(&mut lines, agents);
    assert(text::views(lines@) == status_lines(watched.state@, agents@));
    proof {
        reveal_strlit("state      : ");
        let all = text::views(lines@);
        assert(all[0] == first@);
        assert(all[0].len() > 0);
        lemma_join_longer(all, 0);
    }
    StatusReport { update: UiMessage::StatusUpdate(snapshot), block: info_block(&lines) }
}

/// A block of lines is as long as each of them.
proof fn lemma_join_longer(lines: Seq<Seq<char>>, at: int)
    requires
        0 <= at < lines.len(),
    ensures
        text::join(lines, "\n"@).len() >= lines[at].len(),
    decreases lines.len(),
{
    if lines.len() > 1 && at < lines.len() - 1 {
        lemma_join_longer(lines.drop_last(), at);
    }
}

// ------------------------------------------------------------------ questions

/// A question for a yes or a no, with the keys that answer it.
pub open spec fn asks(
    message: UiMessage,
    question: Seq<char>,
    hint: Seq<char>,
    by_default: bool,
    accept: char,
) -> bool {
    message matches UiMessage::ConfirmationRequest {
        prompt,
        suffix,
        default,
        accept_keys,
        reject_keys,
    } && prompt@ == question && suffix@ == hint && default == by_default && accept_keys@ == seq![
        accept,
    ] && reject_keys@ == seq!['n']
}

/// A question for a yes or a no.
fn confirm_custom(prompt: &str, suffix: &str, default: bool, accept: char) -> (out: UiMessage)
    ensures
        asks(out, prompt@, suffix@, default, accept),
{
    let mut accept_keys: Vec<char> = Vec::new();
    accept_keys.push(accept);
    let mut reject_keys: Vec<char> = Vec::new();
    reject_keys.push('n');
    assert(accept_keys@ =~= seq![accept]);
    assert(reject_keys@ =~= seq!['n']);
    UiMessage::ConfirmationRequest {
        prompt: prompt.to_owned(),
        suffix: suffix.to_owned(),
        default,
        accept_keys,
        reject_keys,
    }
}

/// A question that is no by default.
pub fn confirm(prompt: &str) -> (out: UiMessage)
    ensures
        asks(out, prompt@, "[y/N]"@, false, 'y'),
{
    confirm_custom(prompt, "[y/N]", false, 'y')
}

/// A question that is yes by default.
pub fn confirm_yes(prompt: &str) -> (out: UiMessage)
    ensures
        asks(out, prompt@, "[Y/n]"@, true, 'y'),
{
    confirm_custom(prompt, "[Y/n]", true, 'y')
}

/// A question whether to continue, no by default.
pub fn confirm_continue(prompt: &str) -> (out: UiMessage)
    ensures
        asks(out, prompt@, "[c/N]"@, false, 'c'),
{
    confirm_custom(prompt, "[c/N]", false, 'c')
}

/// A question for one of several options.
pub fn select(prompt: &str, options: Vec<String>) -> (out: UiMessage)
    ensures
        out matches UiMessage::SelectionRequest { prompt: asked, options: offered } && asked@
            == prompt@ && offered == options,
{
    UiMessage::SelectionRequest { prompt: prompt.to_owned(), options }
}

/// A change of state names the new state, and the old one unless the time of the
/// whole task is shown. The time stands behind one of the two at most, and behind
/// neither on the way from idle or at the end of a task.
pub proof fn law_change_is_shown(change: TransitionSnapshot)
    ensures
        state::state_name(change.to).is_prefix_of(shown_to(change)),
        change.used_total <==> shown_from(change) is None,
        shown_from(change) is Some ==> state::state_name(change.from).is_prefix_of(
            shown_from(change)->0,
        ),
        change.from is Idle || change.to is Complete ==> {
            &&& shown_to(change) == state::state_name(change.to)
            &&& shown_from(change) is Some ==> shown_from(change)->0 == state::state_name(
                change.from,
            )
        },
        !(change.from is Idle) && !(change.to is Complete) ==> {
            let time = " ("@ + state_watcher::elapsed_text(change.elapsed_secs) + ")"@;
            &&& change.used_total ==> shown_to(change) == state::state_name(change.to) + time
            &&& !change.used_total ==> shown_to(change) == state::state_name(change.to)
                && shown_from(change) == Some(state::state_name(change.from) + time)
        },
{
    let time = " ("@ + state_watcher::elapsed_text(change.elapsed_secs) + ")"@;
    let secs = change.elapsed_secs;
    assert(timed(change.to, secs) =~= state::state_name(change.to) + time);
    assert(timed(change.from, secs) =~= state::state_name(change.from) + time);
    let to = state::state_name(change.to);
    let from = state::state_name(change.from);
    assert(to.is_prefix_of(timed(change.to, secs)));
    assert(from.is_prefix_of(timed(change.from, secs)));
}

/// The status line shows for each role what its first agent does, and that there is
/// none where there is none.
pub proof fn law_status_is_of_the_role(
    state: StateView,
    agents: Seq<AgentView>,
    role: Seq<char>,
    at: int,
)
    requires
        0 <= at <= agents.len(),
        at < agents.len() ==> agents[at].role == role,
        forall|i: int| 0 <= i < at ==> (#[trigger] agents[i]).role != role,
    ensures
        role_status(agents, role) == if at == agents.len() {
            "none"@
        } else {
            agent_manager::status_word(agents[at].status)
        },
        role == "supervisor"@ ==> status_update(state, agents).supervisor_status == role_status(
            agents,
            role,
        ),
        role == "executor"@ ==> status_update(state, agents).executor_status == role_status(
            agents,
            role,
        ),
        status_update(state, agents).task_state == state::state_name(state.state),
        status_update(state, agents).claimed_by == state.claimed_by,
        status_update(state, agents).retries == state.check_retries,
        status_update(state, agents).cycles == state.review_cycles,
{
    let roles = agents.map_values(|a: AgentView| a.role);
    agent_manager::law_role_is_found(agents, role);
    let found = agent_manager::role_at(agents, role);
    if found < at {
        assert(agents[found].role != role);
    } else if at < found {
        assert(agents[at].role != role);
    }
}

/// A status report has a line for the state, one for each thing that is known or was
/// counted, and one for each agent; without agents it says so.
pub proof fn law_report_shows_what_there_is(state: StateView, agents: Seq<AgentView>)
    ensures
        status_lines(state, agents)[0] == "state      : "@ + state::state_name(state.state),
        status_lines(state, agents).len() == 1 + (if state.claimed_by is Some {
            1int
        } else {
            0
        }) + (if state.check_retries > 0 {
            1int
        } else {
            0
        }) + (if state.review_cycles > 0 {
            1int
        } else {
            0
        }) + (if state.selected_spec is Some {
            1int
        } else {
            0
        }) + (if state.selected_milestone is Some {
            1int
        } else {
            0
        }) + (if agents.len() == 0 {
            1
        } else {
            agents.len() as int
        }),
        state.claimed_by matches Some(who) ==> status_lines(state, agents).contains(
            "claimed_by : "@ + who,
        ),
        state.check_retries > 0 ==> status_lines(state, agents).contains(
            "retries    : "@ + text::decimal(state.check_retries as nat),
        ),
        state.review_cycles > 0 ==> status_lines(state, agents).contains(
            "cycles     : "@ + text::decimal(state.review_cycles as nat),
        ),
        state.selected_spec matches Some(spec) ==> status_lines(state, agents).contains(
            "spec       : "@ + spec,
        ),
        state.selected_milestone matches Some(milestone) ==> status_lines(state, agents).contains(
            "milestone  : "@ + milestone,
        ),
        forall|i: int|
            0 <= i < agents.len() ==> status_lines(state, agents)[status_lines(state, agents).len()
                - agents.len() + i] == agent_line(#[trigger] agents[i]),
{
    let all = status_lines(state, agents);
    let one = seq!["state      : "@ + state::state_name(state.state)];
    let two = one + optional_line("claimed_by : "@, state.claimed_by);
    let three = two + counter_line("retries    : "@, state.check_retries);
    let four = three + counter_line("cycles     : "@, state.review_cycles);
    let five = four + optional_line("spec       : "@, state.selected_spec);
    let six = five + optional_line("milestone  : "@, state.selected_milestone);
    assert(all == six + agent_lines(agents));
    if state.claimed_by is Some {
        assert(all[one.len() as int] == "claimed_by : "@ + state.claimed_by->0);
    }
    if state.check_retries > 0 {
        assert(all[two.len() as int] == "retries    : "@ + text::decimal(
            state.check_retries as nat,
        ));
    }
    if state.review_cycles > 0 {
        assert(all[three.len() as int] == "cycles     : "@ + text::decimal(
            state.review_cycles as nat,
        ));
    }
    if state.selected_spec is Some {
        assert(all[four.len() as int] == "spec       : "@ + state.selected_spec->0);
    }
    if state.selected_milestone is Some {
        assert(all[five.len() as int] == "milestone  : "@ + state.selected_milestone->0);
    }
}

/// The line of an agent names its role, says what it does, and gives its process
/// where it has one.
pub proof fn law_agent_line_tells_the_agent(agent: AgentView)
    ensures
        ("  ["@ + agent.role).is_prefix_of(agent_line(agent)),
        agent.pid matches Some(pid) ==> (" pid="@ + text::decimal(pid as nat)).is_suffix_of(
            agent_line(agent),
        ),
        agent.role.len() <= 10 ==> agent_manager::status_word(agent.status).is_prefix_of(
            agent_line(agent).skip(15),
        ),
{
    reveal_strlit("  [");
    reveal_strlit("] ");
    let line = agent_line(agent);
    assert(line.subrange(0, 3int + agent.role.len()) =~= "  ["@ + agent.role);
    if agent.pid is Some {
        let end = " pid="@ + text::decimal(agent.pid->0 as nat);
        assert(line.subrange(line.len() - end.len(), line.len() as int) =~= end);
    }
    if agent.role.len() <= 10 {
        let word = agent_manager::status_word(agent.status);
        assert(line.skip(15).subrange(0, word.len() as int) =~= word);
    }
}

/// A question that is told waits for its own keys: the one that accepts it, in either case,
/// is a yes, the one that rejects it a no, and Enter what it suggests.
pub proof fn law_question_waits_for_its_keys(
    message: UiMessage,
    question: Seq<char>,
    hint: Seq<char>,
    by_default: bool,
    accept: char,
    f: tui::FrameView,
)
    requires
        asks(message, question, hint, by_default, accept),
        'a' <= accept <= 'z',
        accept != 'n',
    ensures
        tui::told_frame(f, message).confirmation matches Some(waiting) && {
            &&& waiting.prompt@ == question
            &&& waiting.suffix@ == hint
            &&& tui::answer_of(waiting, tui::KeyCode::Char(accept)) == Some(true)
            &&& tui::answer_of(waiting, tui::KeyCode::Char('n')) == Some(false)
            &&& tui::answer_of(waiting, tui::KeyCode::Char('N')) == Some(false)
            &&& tui::answer_of(waiting, tui::KeyCode::Enter) == Some(by_default)
        },
{
    let waiting = tui::told_frame(f, message).confirmation->0;
    assert(waiting.accept_keys@[0] == accept);
    assert(waiting.reject_keys@[0] == 'n');
    tui::law_questions_are_answered(waiting, accept);
    tui::law_questions_are_answered(waiting, 'n');
    assert((('n' as u32) - 32) as char == 'N');
}

} // verus!
