//! The shell's line editor and what it remembers between keys and messages.
use vstd::prelude::*;
use vstd::string::*;

use crate::clock::Instant;
use crate::hq::state_watcher;
use crate::hq::state_watcher::WatchedState;
use crate::state;
use crate::state::StateData;
use crate::text;

verus! {

/// How many lines of input are remembered.
pub const MAX_HISTORY: usize = 100;

/// How many completions are offered at once.
pub const MAX_COMPLETIONS: usize = 8;

/// How long, in seconds, the request to quit waits for its confirmation.
pub const QUIT_WINDOW_SECS: u64 = 2;

/// A command with its description.
pub type Completion = (&'static str, &'static str);

/// The contents of a command with its description.
pub type CompletionView = (Seq<char>, Seq<char>);

/// The contents of a list of completions.
pub open spec fn completion_views(list: Seq<Completion>) -> Seq<CompletionView> {
    list.map_values(|c: Completion| (c.0@, c.1@))
}

/// The commands that are completed.
pub open spec fn commands() -> Seq<CompletionView> {
    seq![
        ("/plan"@, "spawn supervisor, plan a task"@),
        ("/execute"@, "start executor manually"@),
        ("/review"@, "spawn supervisor in review mode"@),
        ("/status"@, "show task state and agents"@),
        ("/attach"@, "attach terminal to PTY session (supervisor only)"@),
        ("/stop"@, "stop all running sessions"@),
        ("/reset"@, "reset state to Idle"@),
        ("/init"@, "initialize ferrus in current directory"@),
        ("/register"@, "register agent configs"@),
        ("/help"@, "list all commands"@),
        ("/quit"@, "exit HQ"@),
    ]
}

/// The commands that are completed.
pub fn command_table() -> (out: Vec<Completion>)
    ensures
        completion_views(out@) == commands(),
{
    let mut out: Vec<Completion> = Vec::new();
    out.push(("/plan", "spawn supervisor, plan a task"));
    out.push(("/execute", "start executor manually"));
    out.push(("/review", "spawn supervisor in review mode"));
    out.push(("/status", "show task state and agents"));
    out.push(("/attach", "attach terminal to PTY session (supervisor only)"));
    out.push(("/stop", "stop all running sessions"));
    out.push(("/reset", "reset state to Idle"));
    out.push(("/init", "initialize ferrus in current directory"));
    out.push(("/register", "register agent configs"));
    out.push(("/help", "list all commands"));
    out.push(("/quit", "exit HQ"));
    assert(completion_views(out@) =~= commands());
    out
}

// ------------------------------------------------------------------ status

/// What the status line shows.
#[derive(Debug, Clone, PartialEq, Eq)]
pub struct StatusSnapshot {
    pub task_state: String,
    pub claimed_by: Option<String>,
    pub retries: u32,
    pub cycles: u32,
    pub supervisor_status: String,
    pub executor_status: String,
}

/// The contents of what the status line shows.
#[verifier::ext_equal]
pub struct StatusView {
    pub task_state: Seq<char>,
    pub claimed_by: Option<Seq<char>>,
    pub retries: u32,
    pub cycles: u32,
    pub supervisor_status: Seq<char>,
    pub executor_status: Seq<char>,
}

impl View for StatusSnapshot {
    type V = StatusView;

    open spec fn view(&self) -> StatusView {
        StatusView {
            task_state: self.task_state@,
            claimed_by: text::opt_view(self.claimed_by),
            retries: self.retries,
            cycles: self.cycles,
            supervisor_status: self.supervisor_status@,
            executor_status: self.executor_status@,
        }
    }
}

/// What the status line shows of a state, before anything is known of agents.
pub open spec fn status_of(state: state::StateView) -> StatusView {
    StatusView {
        task_state: state::state_name(state.state),
        claimed_by: state.claimed_by,
        retries: state.check_retries,
        cycles: state.review_cycles,
        supervisor_status: "none"@,
        executor_status: "none"@,
    }
}

impl StatusSnapshot {
    /// What the status line shows of a state.
    pub fn from_state_data(state: &StateData) -> (out: StatusSnapshot)
        ensures
            out@ == status_of(state@),
    {
        StatusSnapshot {
            task_state: state.state.name().to_owned(),
            claimed_by: text::opt_clone(&state.claimed_by),
            retries: state.check_retries,
            cycles: state.review_cycles,
            supervisor_status: "none".to_owned(),
            executor_status: "none".to_owned(),
        }
    }

    /// What the status line shows of a watched state.
    pub fn from_watched_state(watched: &WatchedState) -> (out: StatusSnapshot)
        ensures
            out@ == status_of(watched.state@),
    {
        StatusSnapshot::from_state_data(&watched.state)
    }

    /// What the status line shows before anything is known.
    pub fn empty() -> (out: StatusSnapshot)
        ensures
            out@ == empty_status(),
    {
        let out = StatusSnapshot {
            task_state: String::new(),
            claimed_by: None,
            retries: 0,
            cycles: 0,
            supervisor_status: String::new(),
            executor_status: String::new(),
        };
        assert(out@ =~= empty_status());
        out
    }
}

/// What the status line shows before anything is known.
pub open spec fn empty_status() -> StatusView {
    StatusView {
        task_state: Seq::empty(),
        claimed_by: None,
        retries: 0,
        cycles: 0,
        supervisor_status: Seq::empty(),
        executor_status: Seq::empty(),
    }
}

// ------------------------------------------------------------------ messages

/// What a line of the transcript is.
#[derive(Debug, Clone, Copy, PartialEq, Eq, Structural)]
pub enum TranscriptKind {
    Info,
    Tip,
    Muted,
    Error,
    Transition,
}

/// A line of the transcript.
#[derive(Debug, Clone, PartialEq, Eq)]
pub struct TranscriptLine {
    pub text: String,
    pub kind: TranscriptKind,
}

/// The contents of a line of the transcript.
#[verifier::ext_equal]
pub struct LineView {
    pub text: Seq<char>,
    pub kind: TranscriptKind,
}

impl View for TranscriptLine {
    type V = LineView;

    open spec fn view(&self) -> LineView {
        LineView { text: self.text@, kind: self.kind }
    }
}

/// The contents of lines of the transcript.
pub open spec fn line_views(list: Seq<TranscriptLine>) -> Seq<LineView> {
    list.map_values(|l: TranscriptLine| l@)
}

/// What the workflow tells the shell.
#[derive(Debug, Clone, PartialEq, Eq)]
pub enum UiMessage {
    Info(String),
    Tip(String),
    Muted(String),
    Error(String),
    Transition { from: Option<String>, to: String },
    StatusUpdate(StatusSnapshot),
    /// Give the terminal to an agent.
    Suspend,
    /// Take the terminal back.
    Resume,
    /// Ask for a yes or a no.
    ConfirmationRequest {
        prompt: String,
        suffix: String,
        default: bool,
        accept_keys: Vec<char>,
        reject_keys: Vec<char>,
    },
    /// Ask for one of several options.
    SelectionRequest { prompt: String, options: Vec<String> },
}

/// A question that waits for a yes or a no.
#[derive(Debug, Clone, PartialEq, Eq)]
pub struct ConfirmationState {
    pub prompt: String,
    pub suffix: String,
    pub default: bool,
    pub accept_keys: Vec<char>,
    pub reject_keys: Vec<char>,
}

/// A question that waits for a choice.
#[derive(Debug, Clone, PartialEq, Eq)]
pub struct SelectionState {
    pub prompt: String,
    pub options: Vec<String>,
    pub selected: usize,
}

// ------------------------------------------------------------------ the editor

/// What the shell remembers.
#[derive(Debug, Clone, PartialEq, Eq)]
pub struct App {
    pub status: StatusSnapshot,
    pub messages: Vec<TranscriptLine>,
    pub input: String,
    /// The position of the cursor, in characters.
    pub cursor_pos: usize,
    pub history: Vec<String>,
    pub history_idx: Option<usize>,
    pub history_saved: String,
    pub completion_candidates: Vec<Completion>,
    pub completion_selected: usize,
    pub completion_active: bool,
    pub completion_hidden: bool,
    pub confirmation: Option<ConfirmationState>,
    pub selection: Option<SelectionState>,
    pub suspended: bool,
    pub should_quit: bool,
    pub ctrl_c_pending: bool,
    pub ctrl_c_at: Option<Instant>,
}

/// The contents of what the editor works on.
#[verifier::ext_equal]
pub struct EditView {
    pub input: Seq<char>,
    pub cursor: int,
    pub history: Seq<Seq<char>>,
    pub history_idx: Option<int>,
    pub saved: Seq<char>,
    pub candidates: Seq<CompletionView>,
    pub selected: int,
    pub active: bool,
    pub hidden: bool,
}

/// What the shell remembers besides what the editor works on.
#[verifier::ext_equal]
pub struct FrameView {
    pub status: StatusView,
    pub messages: Seq<LineView>,
    pub confirmation: Option<ConfirmationState>,
    pub selection: Option<SelectionState>,
    pub suspended: bool,
    pub should_quit: bool,
    pub ctrl_c_pending: bool,
    pub ctrl_c_at: Option<Instant>,
}

impl App {
    /// What the editor works on.
    pub open spec fn edit(self) -> EditView {
        EditView {
            input: self.input@,
            cursor: self.cursor_pos as int,
            history: text::views(self.history@),
            history_idx: match self.history_idx {
                Some(i) => Some(i as int),
                None => None,
            },
            saved: self.history_saved@,
            candidates: completion_views(self.completion_candidates@),
            selected: self.completion_selected as int,
            active: self.completion_active,
            hidden: self.completion_hidden,
        }
    }

    /// What is remembered besides.
    pub open spec fn frame(self) -> FrameView {
        FrameView {
            status: self.status@,
            messages: line_views(self.messages@),
            confirmation: self.confirmation,
            selection: self.selection,
            suspended: self.suspended,
            should_quit: self.should_quit,
            ctrl_c_pending: self.ctrl_c_pending,
            ctrl_c_at: self.ctrl_c_at,
        }
    }
}

/// The cursor stands in the input, a remembered line that is shown is one that
/// there is, and so is the selected completion.
pub open spec fn edit_wf(e: EditView) -> bool {
    &&& 0 <= e.cursor <= e.input.len()
    &&& e.history_idx is Some ==> 0 <= e.history_idx->0 < e.history.len()
    &&& 0 <= e.selected
    &&& e.candidates.len() > 0 ==> e.selected < e.candidates.len()
    &&& e.candidates.len() == 0 ==> e.selected == 0
}

/// The text that is completed.
pub open spec fn prefix(e: EditView) -> Seq<char> {
    text::trim(e.input)
}

/// Whether a text starts a command.
pub open spec fn slashed(s: Seq<char>) -> bool {
    "/"@.is_prefix_of(s)
}

/// The commands that start with a text.
pub open spec fn starting_with(start: Seq<char>, all: Seq<CompletionView>) -> Seq<CompletionView>
    decreases all.len(),
{
    if all.len() == 0 {
        Seq::empty()
    } else {
        let front = starting_with(start, all.drop_last());
        if start.is_prefix_of(all.last().0) {
            front.push(all.last())
        } else {
            front
        }
    }
}

/// The first of a list.
pub open spec fn at_most(list: Seq<CompletionView>, n: int) -> Seq<CompletionView> {
    if list.len() <= n {
        list
    } else {
        list.take(n)
    }
}

/// The completions that a text is offered.
pub open spec fn offered(start: Seq<char>) -> Seq<CompletionView> {
    at_most(starting_with(start, commands()), MAX_COMPLETIONS as int)
}

/// The completions computed anew.
pub open spec fn computed(e: EditView) -> EditView {
    EditView { candidates: offered(prefix(e)), selected: 0, ..e }
}

/// Whether every candidate starts with a text.
pub open spec fn all_start(list: Seq<CompletionView>, start: Seq<char>) -> bool {
    forall|i: int| 0 <= i < list.len() ==> start.is_prefix_of((#[trigger] list[i]).0)
}

/// The completions computed anew where they do not fit the input.
pub open spec fn refreshed(e: EditView) -> EditView {
    if e.candidates.len() == 0 || !all_start(e.candidates, prefix(e)) {
        computed(e)
    } else {
        e
    }
}

/// No completions.
pub open spec fn cleared(e: EditView) -> EditView {
    EditView { candidates: Seq::empty(), selected: 0, active: false, hidden: false, ..e }
}

/// The completions that fit a changed input.
pub open spec fn in_context(e: EditView) -> EditView {
    if slashed(prefix(e)) {
        let next = computed(e);
        EditView { active: next.candidates.len() > 0 && e.active, hidden: false, ..next }
    } else {
        cleared(e)
    }
}

/// Another input, with the cursor at its end.
pub open spec fn with_input(e: EditView, input: Seq<char>) -> EditView {
    EditView { input, cursor: input.len() as int, ..e }
}

/// A character typed.
pub open spec fn typed(e: EditView, ch: char) -> EditView {
    in_context(
        EditView {
            input: e.input.insert(e.cursor, ch),
            cursor: e.cursor + 1,
            history_idx: None,
            ..e
        },
    )
}

/// The character before the cursor deleted.
pub open spec fn deleted_before(e: EditView) -> EditView {
    if e.cursor == 0 {
        e
    } else {
        in_context(
            EditView {
                input: e.input.remove(e.cursor - 1),
                cursor: e.cursor - 1,
                history_idx: None,
                ..e
            },
        )
    }
}

/// The character after the cursor deleted.
pub open spec fn deleted_after(e: EditView) -> EditView {
    if e.cursor >= e.input.len() {
        e
    } else {
        in_context(EditView { input: e.input.remove(e.cursor), history_idx: None, ..e })
    }
}

/// The selected completion taken over.
pub open spec fn accepted(e: EditView) -> EditView {
    if e.selected < e.candidates.len() {
        cleared(with_input(e, e.candidates[e.selected].0))
    } else {
        cleared(e)
    }
}

/// How many characters two texts share at their start.
pub open spec fn shared_len(a: Seq<char>, b: Seq<char>) -> int
    decreases a.len(),
{
    if a.len() == 0 || b.len() == 0 || a[0] != b[0] {
        0
    } else {
        1 + shared_len(a.skip(1), b.skip(1))
    }
}

/// How many characters the first command shares with every other of the first
/// `n`.
pub open spec fn shared_by_all(list: Seq<CompletionView>, n: int) -> int
    decreases n,
{
    if n <= 1 {
        list[0].0.len() as int
    } else {
        let before = shared_by_all(list, n - 1);
        let here = shared_len(list[0].0, list[n - 1].0);
        if here < before {
            here
        } else {
            before
        }
    }
}

/// The longest start that all candidates share.
pub open spec fn shared_prefix(list: Seq<CompletionView>) -> Seq<char> {
    if list.len() == 0 {
        Seq::empty()
    } else {
        list[0].0.take(shared_by_all(list, list.len() as int))
    }
}

/// The next completion: first what all candidates share is filled in, then
/// they are gone through.
pub open spec fn next(e: EditView) -> EditView {
    let fresh = refreshed(e);
    if fresh.candidates.len() == 0 {
        EditView { active: false, ..fresh }
    } else {
        let shown = EditView { hidden: false, ..fresh };
        let shared = shared_prefix(shown.candidates);
        if shared.len() > prefix(shown).len() {
            let longer = computed(with_input(shown, shared));
            if longer.candidates.len() == 1 {
                accepted(longer)
            } else {
                EditView { active: true, ..longer }
            }
        } else if shown.candidates.len() == 1 {
            accepted(shown)
        } else if !shown.active {
            EditView { active: true, selected: 0, ..shown }
        } else {
            EditView { selected: (shown.selected + 1) % (shown.candidates.len() as int), ..shown }
        }
    }
}

/// The completion before.
pub open spec fn previous(e: EditView) -> EditView {
    let fresh = refreshed(e);
    if fresh.candidates.len() == 0 {
        fresh
    } else {
        EditView {
            hidden: false,
            active: true,
            selected: if fresh.selected == 0 {
                fresh.candidates.len() - 1
            } else {
                fresh.selected - 1
            },
            ..fresh
        }
    }
}

/// Whether the completions are shown; a question comes before them.
pub open spec fn popup(e: EditView, asking: bool) -> bool {
    !asking && slashed(prefix(e)) && e.candidates.len() > 0 && !e.hidden
}

/// The line before in the history, or the completion before.
pub open spec fn up(e: EditView, asking: bool) -> EditView {
    if popup(e, asking) {
        previous(e)
    } else if e.history.len() == 0 {
        e
    } else {
        let at = match e.history_idx {
            None => e.history.len() - 1,
            Some(i) => if i == 0 {
                0
            } else {
                i - 1
            },
        };
        let saved = match e.history_idx {
            None => e.input,
            Some(_) => e.saved,
        };
        in_context(
            with_input(EditView { history_idx: Some(at), saved, ..e }, e.history[at]),
        )
    }
}

/// The line after in the history, or the next completion.
pub open spec fn down(e: EditView, asking: bool) -> EditView {
    if popup(e, asking) {
        next(e)
    } else {
        match e.history_idx {
            None => in_context(e),
            Some(i) => if i + 1 < e.history.len() {
                in_context(
                    with_input(EditView { history_idx: Some(i + 1), ..e }, e.history[i + 1]),
                )
            } else {
                in_context(with_input(EditView { history_idx: None, ..e }, e.saved))
            },
        }
    }
}

/// The last of the remembered lines, as many as are kept.
pub open spec fn kept_history(history: Seq<Seq<char>>) -> Seq<Seq<char>> {
    if history.len() > MAX_HISTORY {
        history.skip(history.len() - MAX_HISTORY)
    } else {
        history
    }
}

/// The history with one more line; the same line twice in a row is kept once.
pub open spec fn remembered(history: Seq<Seq<char>>, line: Seq<char>) -> Seq<Seq<char>> {
    if history.len() > 0 && history.last() == line {
        history
    } else {
        kept_history(history.push(line))
    }
}

/// The editor after its line was submitted.
pub open spec fn submitted(e: EditView) -> EditView {
    let line = prefix(e);
    if line.len() == 0 {
        e
    } else {
        cleared(
            EditView {
                input: Seq::empty(),
                cursor: 0,
                history: remembered(e.history, line),
                history_idx: None,
                saved: Seq::empty(),
                ..e
            },
        )
    }
}

/// The editor emptied.
pub open spec fn emptied(e: EditView) -> EditView {
    EditView {
        input: Seq::empty(),
        cursor: 0,
        history_idx: None,
        saved: Seq::empty(),
        ..e
    }
}

impl App {
    /// The shell before anything was typed or told.
    pub fn new(history: Vec<String>) -> (out: App)
        ensures
            edit_wf(out.edit()),
            out.edit() == (EditView {
                input: Seq::empty(),
                cursor: 0,
                history: text::views(history@),
                history_idx: None,
                saved: Seq::empty(),
                candidates: Seq::empty(),
                selected: 0,
                active: false,
                hidden: false,
            }),
            out.frame() == (FrameView {
                status: empty_status(),
                messages: Seq::empty(),
                confirmation: None,
                selection: None,
                suspended: false,
                should_quit: false,
                ctrl_c_pending: false,
                ctrl_c_at: None,
            }),
    {
        let out = App {
            status: StatusSnapshot::empty(),
            messages: Vec::new(),
            input: String::new(),
            cursor_pos: 0,
            history,
            history_idx: None,
            history_saved: String::new(),
            completion_candidates: Vec::new(),
            completion_selected: 0,
            completion_active: false,
            completion_hidden: false,
            confirmation: None,
            selection: None,
            suspended: false,
            should_quit: false,
            ctrl_c_pending: false,
            ctrl_c_at: None,
        };
        assert(out.input@ =~= Seq::empty());
        assert(out.history_saved@ =~= Seq::empty());
        assert(completion_views(out.completion_candidates@) =~= Seq::empty());
        assert(line_views(out.messages@) =~= Seq::empty());
        out
    }

    /// Drops the completions.
    pub fn clear_completion(&mut self)
        ensures
            final(self).edit() == cleared(old(self).edit()),
            final(self).frame() == old(self).frame(),
    {
        self.completion_candidates = Vec::new();
        self.completion_selected = 0;
        self.completion_active = false;
        self.completion_hidden = false;
        assert(completion_views(self.completion_candidates@) =~= Seq::empty());
    }

    /// Hides the completions until the input changes.
    pub fn hide_completion_popup(&mut self)
        ensures
            final(self).edit() == (EditView { active: false, hidden: true, ..old(self).edit() }),
            final(self).frame() == old(self).frame(),
    {
        self.completion_active = false;
        self.completion_hidden = true;
    }

    /// The text that is completed.
    pub fn completion_prefix(&self) -> (out: String)
        ensures
            out@ == prefix(self.edit()),
    {
        text::trim_string(self.input.as_str())
    }

    /// Whether there are completions for a command.
    pub fn has_command_context(&self) -> (out: bool)
        ensures
            out == (slashed(prefix(self.edit())) && self.edit().candidates.len() > 0),
    {
        let start: String = self.completion_prefix();
        text::starts_with(start.as_str(), "/") && self.completion_candidates.len() > 0
    }

    /// Whether the completions are shown.
    pub fn completion_popup_visible(&self) -> (out: bool)
        ensures
            out == popup(self.edit(), self.confirmation is Some),
    {
        self.confirmation.is_none() && self.has_command_context() && !self.completion_hidden
    }

    /// Computes the completions anew.
    pub fn compute_completions(&mut self)
        ensures
            final(self).edit() == computed(old(self).edit()),
            final(self).frame() == old(self).frame(),
    {
        let start: String = self.completion_prefix();
        let all: Vec<Completion> = command_table();
        let ghost table = completion_views(all@);
        let mut found: Vec<Completion> = Vec::new();
        assert(completion_views(found@) =~= Seq::empty());
        let mut i: usize = 0;
        while i < all.len()
            invariant
                i <= all@.len(),
                table == completion_views(all@),
                completion_views(found@) == starting_with(start@, table.take(i as int)),
            decreases all@.len() - i,
        {
            assert(table.take(i + 1).drop_last() =~= table.take(i as int));
            assert(table.take(i + 1).last() == (all@[i as int].0@, all@[i as int].1@));
            let ghost before = completion_views(found@);
            if text::starts_with(all[i].0, start.as_str()) {
                found.push(all[i]);
                assert(completion_views(found@) =~= before.push(table[i as int]));
            }
            i = i + 1;
        }
        assert(table.take(i as int) =~= table);
        let ghost whole = completion_views(found@);
        if found.len() > MAX_COMPLETIONS {
            found.truncate(MAX_COMPLETIONS);
            assert(completion_views(found@) =~= whole.take(MAX_COMPLETIONS as int));
        }
        self.completion_candidates = found;
        self.completion_selected = 0;
    }

    /// Computes the completions anew where they do not fit the input.
    pub fn refresh_completions(&mut self)
        ensures
            final(self).edit() == refreshed(old(self).edit()),
            final(self).frame() == old(self).frame(),
    {
        let start: String = self.completion_prefix();
        let ghost list = self.edit().candidates;
        let mut fits: bool = true;
        let mut i: usize = 0;
        while i < self.completion_candidates.len()
            invariant
                i <= self.completion_candidates@.len(),
                list == completion_views(self.completion_candidates@),
                fits == (forall|k: int|
                    0 <= k < i ==> start@.is_prefix_of((#[trigger] list[k]).0)),
            decreases self.completion_candidates@.len() - i,
        {
            assert(list[i as int].0 == self.completion_candidates@[i as int].0@);
            if !text::starts_with(self.completion_candidates[i].0, start.as_str()) {
                fits = false;
            }
            i = i + 1;
        }
        assert(fits == all_start(list, start@));
        if self.completion_candidates.len() == 0 || !fits {
            self.compute_completions();
        }
    }

    /// Fits the completions to a changed input.
    pub fn update_command_context(&mut self)
        ensures
            final(self).edit() == in_context(old(self).edit()),
            final(self).frame() == old(self).frame(),
    {
        let start: String = self.completion_prefix();
        if text::starts_with(start.as_str(), "/") {
            self.compute_completions();
            if self.completion_candidates.len() == 0 {
                self.completion_active = false;
            }
            self.completion_hidden = false;
        } else {
            self.clear_completion();
        }
    }

    /// Types a character at the cursor.
    pub fn insert_char(&mut self, ch: char)
        requires
            edit_wf(old(self).edit()),
            old(self).input@.len() < usize::MAX,
        ensures
            final(self).edit() == typed(old(self).edit(), ch),
            final(self).frame() == old(self).frame(),
    {
        let mut chars: Vec<char> = text::chars_of(self.input.as_str());
        chars.insert(self.cursor_pos, ch);
        self.input = text::string_of(&chars, 0, chars.len());
        assert(self.input@ =~= chars@);
        self.cursor_pos = self.cursor_pos + 1;
        self.history_idx = None;
        self.update_command_context();
    }

    /// Deletes the character before the cursor.
    pub fn delete_before_cursor(&mut self)
        requires
            edit_wf(old(self).edit()),
        ensures
            final(self).edit() == deleted_before(old(self).edit()),
            final(self).frame() == old(self).frame(),
    {
        if self.cursor_pos == 0 {
            return;
        }
        let mut chars: Vec<char> = text::chars_of(self.input.as_str());
        let _ = chars.remove(self.cursor_pos - 1);
        self.input = text::string_of(&chars, 0, chars.len());
        assert(self.input@ =~= chars@);
        self.cursor_pos = self.cursor_pos - 1;
        self.history_idx = None;
        self.update_command_context();
    }

    /// Deletes the character after the cursor.
    pub fn delete_after_cursor(&mut self)
        requires
            edit_wf(old(self).edit()),
        ensures
            final(self).edit() == deleted_after(old(self).edit()),
            final(self).frame() == old(self).frame(),
    {
        let mut chars: Vec<char> = text::chars_of(self.input.as_str());
        if self.cursor_pos >= chars.len() {
            return;
        }
        let _ = chars.remove(self.cursor_pos);
        self.input = text::string_of(&chars, 0, chars.len());
        assert(self.input@ =~= chars@);
        self.history_idx = None;
        self.update_command_context();
    }

    /// Moves the cursor one character to the left.
    pub fn move_left(&mut self)
        ensures
            final(self).edit() == (EditView {
                cursor: if old(self).edit().cursor == 0 {
                    0
                } else {
                    old(self).edit().cursor - 1
                },
                ..old(self).edit()
            }),
            final(self).frame() == old(self).frame(),
    {
        if self.cursor_pos > 0 {
            self.cursor_pos = self.cursor_pos - 1;
        }
    }

    /// The number of characters of the input.
    fn input_len(&self) -> (out: usize)
        ensures
            out == self.input@.len(),
    {
        let chars: Vec<char> = text::chars_of(self.input.as_str());
        chars.len()
    }

    /// Moves the cursor one character to the right.
    pub fn move_right(&mut self)
        requires
            edit_wf(old(self).edit()),
        ensures
            final(self).edit() == (EditView {
                cursor: if old(self).edit().cursor < old(self).edit().input.len() {
                    old(self).edit().cursor + 1
                } else {
                    old(self).edit().cursor
                },
                ..old(self).edit()
            }),
            final(self).frame() == old(self).frame(),
    {
        let len: usize = self.input_len();
        if self.cursor_pos < len {
            self.cursor_pos = self.cursor_pos + 1;
        }
    }

    /// Moves the cursor to the start.
    pub fn move_home(&mut self)
        ensures
            final(self).edit() == (EditView { cursor: 0, ..old(self).edit() }),
            final(self).frame() == old(self).frame(),
    {
        self.cursor_pos = 0;
    }

    /// Moves the cursor to the end.
    pub fn move_end(&mut self)
        ensures
            final(self).edit() == (EditView {
                cursor: old(self).edit().input.len() as int,
                ..old(self).edit()
            }),
            final(self).frame() == old(self).frame(),
    {
        self.cursor_pos = self.input_len();
    }

    /// Replaces the input and puts the cursor at its end.
    fn set_input(&mut self, input: &str)
        ensures
            final(self).edit() == with_input(old(self).edit(), input@),
            final(self).frame() == old(self).frame(),
    {
        self.input = input.to_owned();
        self.cursor_pos = self.input_len();
    }

    /// Goes to the line before in the history, or to the completion before.
    pub fn history_up(&mut self)
        requires
            edit_wf(old(self).edit()),
        ensures
            final(self).edit() == up(old(self).edit(), old(self).confirmation is Some),
            final(self).frame() == old(self).frame(),
    {
        let ghost before = self.edit();
        if self.completion_popup_visible() {
            self.previous_completion();
            return;
        }
        if self.history.len() == 0 {
            return;
        }
        let at: usize = match self.history_idx {
            None => {
                self.history_saved = self.input.clone();
                self.history.len() - 1
            },
            Some(i) => if i == 0 {
                0
            } else {
                i - 1
            },
        };
        self.history_idx = Some(at);
        let line: String = self.history[at].clone();
        assert(line@ == before.history[at as int]);
        self.set_input(line.as_str());
        self.update_command_context();
    }

    /// Goes to the line after in the history, or to the next completion.
    pub fn history_down(&mut self)
        requires
            edit_wf(old(self).edit()),
        ensures
            final(self).edit() == down(old(self).edit(), old(self).confirmation is Some),
            final(self).frame() == old(self).frame(),
    {
        let ghost before = self.edit();
        if self.completion_popup_visible() {
            self.next_completion();
            return;
        }
        match self.history_idx {
            None => {},
            Some(i) => {
                let len: usize = self.history.len();
                assert(before.history_idx == Some(i as int));
                assert(before.history.len() == len);
                if i + 1 < len {
                    self.history_idx = Some(i + 1);
                    let line: String = self.history[i + 1].clone();
                    assert(line@ == before.history[i + 1]);
                    self.set_input(line.as_str());
                } else {
                    self.history_idx = None;
                    let line: String = self.history_saved.clone();
                    self.set_input(line.as_str());
                }
            },
        }
        self.update_command_context();
    }

    /// Takes the selected completion over.
    pub fn accept_completion(&mut self)
        ensures
            final(self).edit() == accepted(old(self).edit()),
            final(self).frame() == old(self).frame(),
    {
        if self.completion_selected < self.completion_candidates.len() {
            let chosen: &'static str = self.completion_candidates[self.completion_selected].0;
            self.set_input(chosen);
        }
        self.clear_completion();
    }

    /// Goes to the next completion.
    pub fn next_completion(&mut self)
        requires
            edit_wf(old(self).edit()),
        ensures
            final(self).edit() == next(old(self).edit()),
            final(self).frame() == old(self).frame(),
    {
        proof {
            lemma_edit_wf(self.edit());
        }
        self.refresh_completions();
        if self.completion_candidates.len() == 0 {
            self.completion_active = false;
            return;
        }
        self.completion_hidden = false;
        let start: String = self.completion_prefix();
        let start_chars: Vec<char> = text::chars_of(start.as_str());
        let shared: String = longest_common_prefix(&self.completion_candidates);
        let shared_chars: Vec<char> = text::chars_of(shared.as_str());
        if shared_chars.len() > start_chars.len() {
            self.set_input(shared.as_str());
            self.compute_completions();
            if self.completion_candidates.len() == 1 {
                self.accept_completion();
            } else {
                self.completion_active = true;
            }
            return;
        }
        if self.completion_candidates.len() == 1 {
            self.accept_completion();
            return;
        }
        if !self.completion_active {
            self.completion_active = true;
            self.completion_selected = 0;
            return;
        }
        self.completion_selected = (self.completion_selected + 1)
            % self.completion_candidates.len();
    }

    /// Goes to the completion before.
    pub fn previous_completion(&mut self)
        requires
            edit_wf(old(self).edit()),
        ensures
            final(self).edit() == previous(old(self).edit()),
            final(self).frame() == old(self).frame(),
    {
        self.refresh_completions();
        if self.completion_candidates.len() > 0 {
            self.completion_hidden = false;
            self.completion_active = true;
            self.completion_selected = if self.completion_selected == 0 {
                self.completion_candidates.len() - 1
            } else {
                self.completion_selected - 1
            };
        }
    }

    /// Submits the input: the line to be carried out, if there is one. The
    /// line that quits also ends the shell.
    pub fn submit_input(&mut self) -> (out: Option<String>)
        requires
            old(self).history@.len() < usize::MAX,
        ensures
            final(self).edit() == submitted(old(self).edit()),
            text::opt_view(out) == submitted_line(old(self).edit()),
            final(self).frame() == after_line(old(self).frame(), submitted_line(old(self).edit())),
    {
        let ghost before = self.edit();
        let line: String = self.completion_prefix();
        proof {
            reveal_strlit("");
            assert(line@.len() == 0 ==> line@ =~= ""@);
        }
        if text::same(line.as_str(), "") {
            return None;
        }
        if text::same(line.as_str(), "/quit") {
            self.should_quit = true;
        }
        self.remember(line.as_str());
        self.input = String::new();
        self.cursor_pos = 0;
        self.history_idx = None;
        self.history_saved = String::new();
        assert(self.input@ =~= Seq::empty());
        assert(self.history_saved@ =~= Seq::empty());
        self.clear_completion();
        Some(line)
    }

    /// Remembers a line.
    fn remember(&mut self, line: &str)
        requires
            old(self).history@.len() < usize::MAX,
        ensures
            final(self).edit() == (EditView {
                history: remembered(old(self).edit().history, line@),
                ..old(self).edit()
            }),
            final(self).frame() == old(self).frame(),
    {
        let ghost before = text::views(self.history@);
        let len: usize = self.history.len();
        if len > 0 && text::same(self.history[len - 1].as_str(), line) {
            assert(before.last() == self.history@[len - 1]@);
            return;
        }
        assert(len > 0 ==> before.last() == self.history@[len - 1]@);
        text::add_text(&mut self.history, line);
        self.history = keep_history(&self.history);
    }

    /// Empties the input.
    fn clear_input(&mut self)
        ensures
            final(self).edit() == emptied(old(self).edit()),
            final(self).frame() == old(self).frame(),
    {
        self.input = String::new();
        self.cursor_pos = 0;
        self.history_idx = None;
        self.history_saved = String::new();
        assert(self.input@ =~= Seq::empty());
        assert(self.history_saved@ =~= Seq::empty());
    }
}

/// The line that a submission gives, if any.
pub open spec fn submitted_line(e: EditView) -> Option<Seq<char>> {
    if prefix(e).len() == 0 {
        None
    } else {
        Some(prefix(e))
    }
}

/// What is remembered besides after a line was submitted.
pub open spec fn after_line(f: FrameView, line: Option<Seq<char>>) -> FrameView {
    FrameView { should_quit: f.should_quit || line == Some("/quit"@), ..f }
}

/// The last of the remembered lines, as many as are kept.
pub fn keep_history(history: &Vec<String>) -> (out: Vec<String>)
    ensures
        text::views(out@) == kept_history(text::views(history@)),
{
    let ghost all = text::views(history@);
    let from: usize = if history.len() > MAX_HISTORY {
        history.len() - MAX_HISTORY
    } else {
        0
    };
    let mut out: Vec<String> = Vec::new();
    assert(text::views(out@) =~= all.subrange(from as int, from as int));
    let mut i: usize = from;
    while i < history.len()
        invariant
            from <= i <= history@.len(),
            all == text::views(history@),
            text::views(out@) == all.subrange(from as int, i as int),
        decreases history@.len() - i,
    {
        text::add_text(&mut out, history[i].as_str());
        assert(all.subrange(from as int, i + 1) =~= all.subrange(from as int, i as int).push(
            all[i as int],
        ));
        i = i + 1;
    }
    assert(all.subrange(from as int, i as int) =~= kept_history(all));
    out
}

/// How many characters two texts share at their start.
fn count_shared(a: &Vec<char>, b: &Vec<char>) -> (out: usize)
    ensures
        out == shared_len(a@, b@),
        out <= a@.len(),
{
    let mut i: usize = 0;
    assert(a@.skip(0) =~= a@);
    assert(b@.skip(0) =~= b@);
    while i < a.len() && i < b.len() && a[i] == b[i]
        invariant
            i <= a@.len(),
            i <= b@.len(),
            i + shared_len(a@.skip(i as int), b@.skip(i as int)) == shared_len(a@, b@),
        decreases a@.len() - i,
    {
        assert(a@.skip(i as int).skip(1) =~= a@.skip(i + 1));
        assert(b@.skip(i as int).skip(1) =~= b@.skip(i + 1));
        i = i + 1;
    }
    i
}

/// The longest start that all candidates share.
pub fn longest_common_prefix(candidates: &Vec<Completion>) -> (out: String)
    ensures
        out@ == shared_prefix(completion_views(candidates@)),
{
    let ghost list = completion_views(candidates@);
    if candidates.len() == 0 {
        let none: String = String::new();
        assert(none@ =~= Seq::empty());
        return none;
    }
    let first: Vec<char> = text::chars_of(candidates[0].0);
    assert(first@ == list[0].0);
    let mut end: usize = first.len();
    let mut i: usize = 1;
    while i < candidates.len()
        invariant
            1 <= i <= candidates@.len(),
            list == completion_views(candidates@),
            first@ == list[0].0,
            end <= first@.len(),
            end == shared_by_all(list, i as int),
        decreases candidates@.len() - i,
    {
        let other: Vec<char> = text::chars_of(candidates[i].0);
        assert(other@ == list[i as int].0);
        let here: usize = count_shared(&first, &other);
        if here < end {
            end = here;
        }
        i = i + 1;
    }
    let out: String = text::string_of(&first, 0, end);
    assert(out@ =~= shared_prefix(list));
    out
}

// ------------------------------------------------------------------ keys

/// A key.
#[derive(Debug, Clone, Copy, PartialEq, Eq, Structural)]
pub enum KeyCode {
    Char(char),
    Home,
    End,
    Left,
    Right,
    Up,
    Down,
    Backspace,
    Delete,
    Esc,
    Tab,
    BackTab,
    Enter,
    Other,
}

/// What is held down with a key.
#[derive(Debug, Clone, Copy, PartialEq, Eq, Structural)]
pub enum Modifiers {
    Plain,
    Shift,
    Control,
    Other,
}

/// What happens at the terminal.
#[derive(Debug, Clone, Copy, PartialEq, Eq, Structural)]
pub enum UiEvent {
    Resize,
    /// A key goes down.
    Press { code: KeyCode, modifiers: Modifiers },
    /// Anything else, such as a key that comes up.
    Other,
}

/// What is to be done after an event.
#[derive(Debug, Clone, PartialEq, Eq)]
pub struct Outcome {
    /// Draw the prompt anew.
    pub redraw: bool,
    /// Carry this line out.
    pub line: Option<String>,
    /// Answer the question that waited for a yes or a no.
    pub answer: Option<bool>,
    /// Answer the question that waited for a choice; nothing where it was
    /// called off.
    pub choice: Option<Option<usize>>,
}

/// The contents of what is to be done.
#[verifier::ext_equal]
pub struct OutcomeView {
    pub redraw: bool,
    pub line: Option<Seq<char>>,
    pub answer: Option<bool>,
    pub choice: Option<Option<usize>>,
}

impl View for Outcome {
    type V = OutcomeView;

    open spec fn view(&self) -> OutcomeView {
        OutcomeView {
            redraw: self.redraw,
            line: text::opt_view(self.line),
            answer: self.answer,
            choice: self.choice,
        }
    }
}

/// Nothing is to be done, or only drawing.
pub open spec fn drawn(redraw: bool) -> OutcomeView {
    OutcomeView { redraw, line: None, answer: None, choice: None }
}

/// A character in lower case, of the Latin letters.
pub open spec fn lower(c: char) -> char {
    if 'A' <= c <= 'Z' {
        ((c as u32) + 32) as char
    } else {
        c
    }
}

/// A character in lower case, of the Latin letters.
fn lower_char(c: char) -> (out: char)
    ensures
        out == lower(c),
{
    if 'A' <= c && c <= 'Z' {
        ((c as u8) + 32) as char
    } else {
        c
    }
}

/// What a key answers to a question: its keys in either case, the default by
/// Enter, no by Esc.
pub open spec fn answer_of(question: ConfirmationState, code: KeyCode) -> Option<bool> {
    match code {
        KeyCode::Char(c) => if question.accept_keys@.contains(lower(c)) {
            Some(true)
        } else if question.reject_keys@.contains(lower(c)) {
            Some(false)
        } else {
            None
        },
        KeyCode::Enter => Some(question.default),
        KeyCode::Esc => Some(false),
        _ => None,
    }
}

/// Whether a list of keys has a key.
fn has_key(keys: &Vec<char>, key: char) -> (out: bool)
    ensures
        out == keys@.contains(key),
{
    let mut i: usize = 0;
    while i < keys.len()
        invariant
            i <= keys@.len(),
            forall|k: int| 0 <= k < i ==> #[trigger] keys@[k] != key,
        decreases keys@.len() - i,
    {
        if keys[i] == key {
            return true;
        }
        i = i + 1;
    }
    false
}

/// What a key answers to a question.
fn read_answer(question: &ConfirmationState, code: KeyCode) -> (out: Option<bool>)
    ensures
        out == answer_of(*question, code),
{
    match code {
        KeyCode::Char(c) => {
            let key: char = lower_char(c);
            if has_key(&question.accept_keys, key) {
                Some(true)
            } else if has_key(&question.reject_keys, key) {
                Some(false)
            } else {
                None
            }
        },
        KeyCode::Enter => Some(question.default),
        KeyCode::Esc => Some(false),
        _ => None,
    }
}

/// What a key does to a choice: up and down go round the options, Enter takes
/// the one that is marked, Esc calls it off.
pub open spec fn choice_step(question: SelectionState, code: KeyCode) -> (
    int,
    Option<Option<usize>>,
) {
    let count = question.options@.len() as int;
    let at = question.selected as int;
    match code {
        KeyCode::Up => (if count == 0 || at >= count {
            0
        } else if at == 0 {
            count - 1
        } else {
            at - 1
        }, None),
        KeyCode::Down => (if count == 0 || at + 1 >= count {
            0
        } else {
            at + 1
        }, None),
        KeyCode::Enter => (at, Some(
            if at < count {
                Some(at as usize)
            } else {
                None
            },
        )),
        KeyCode::Esc => (at, Some(None)),
        _ => (at, None),
    }
}

/// What the editor works on after a key.
pub open spec fn key_edit(e: EditView, code: KeyCode, modifiers: Modifiers) -> EditView {
    if modifiers is Control && code == KeyCode::Char('a') || code is Home {
        EditView { cursor: 0, ..e }
    } else if modifiers is Control && code == KeyCode::Char('e') || code is End {
        EditView { cursor: e.input.len() as int, ..e }
    } else {
        match code {
            KeyCode::Left => EditView {
                cursor: if e.cursor == 0 {
                    0
                } else {
                    e.cursor - 1
                },
                ..e
            },
            KeyCode::Right => EditView {
                cursor: if e.cursor < e.input.len() {
                    e.cursor + 1
                } else {
                    e.cursor
                },
                ..e
            },
            KeyCode::Up => up(e, false),
            KeyCode::Down => down(e, false),
            KeyCode::Backspace => deleted_before(e),
            KeyCode::Delete => deleted_after(e),
            KeyCode::Esc => if popup(e, false) {
                EditView { active: false, hidden: true, ..e }
            } else {
                emptied(e)
            },
            KeyCode::Tab => next(e),
            KeyCode::BackTab => previous(e),
            KeyCode::Enter => if popup(e, false) {
                submitted(accepted(e))
            } else {
                submitted(e)
            },
            KeyCode::Char(ch) => if modifiers is Plain || modifiers is Shift {
                typed(e, ch)
            } else {
                e
            },
            _ => e,
        }
    }
}

/// The line that a key submits, if any.
pub open spec fn key_line(e: EditView, code: KeyCode) -> Option<Seq<char>> {
    if code is Enter {
        if popup(e, false) {
            submitted_line(accepted(e))
        } else {
            submitted_line(e)
        }
    } else {
        None
    }
}

/// Whether a key asks to quit.
pub open spec fn asks_to_quit(code: KeyCode, modifiers: Modifiers) -> bool {
    modifiers is Control && code == KeyCode::Char('c')
}

/// What is remembered besides after a key: the second request to quit counts.
pub open spec fn key_frame(
    f: FrameView,
    e: EditView,
    code: KeyCode,
    modifiers: Modifiers,
    now: Instant,
) -> FrameView {
    if asks_to_quit(code, modifiers) {
        if f.ctrl_c_pending {
            FrameView { should_quit: true, ..f }
        } else {
            FrameView { ctrl_c_pending: true, ctrl_c_at: Some(now), ..f }
        }
    } else {
        after_line(f, key_line(e, code))
    }
}

impl App {
    /// Edits by a key, while nothing is asked; the line that it submits.
    fn edit_key(&mut self, code: KeyCode, modifiers: Modifiers, now: Instant) -> (out: Option<
        String,
    >)
        requires
            edit_wf(old(self).edit()),
            old(self).confirmation is None,
            old(self).input@.len() < usize::MAX,
            old(self).history@.len() < usize::MAX,
        ensures
            final(self).edit() == if asks_to_quit(code, modifiers) {
                old(self).edit()
            } else {
                key_edit(old(self).edit(), code, modifiers)
            },
            final(self).frame() == key_frame(
                old(self).frame(),
                old(self).edit(),
                code,
                modifiers,
                now,
            ),
            text::opt_view(out) == key_line(old(self).edit(), code),
    {
        let control: bool = modifiers == Modifiers::Control;
        match code {
            KeyCode::Char(ch) => {
                if control && ch == 'c' {
                    if self.ctrl_c_pending {
                        self.should_quit = true;
                    } else {
                        self.ctrl_c_pending = true;
                        self.ctrl_c_at = Some(now);
                    }
                } else if control && ch == 'a' {
                    self.move_home();
                } else if control && ch == 'e' {
                    self.move_end();
                } else if modifiers == Modifiers::Plain || modifiers == Modifiers::Shift {
                    self.insert_char(ch);
                }
            },
            KeyCode::Home => self.move_home(),
            KeyCode::End => self.move_end(),
            KeyCode::Left => self.move_left(),
            KeyCode::Right => self.move_right(),
            KeyCode::Up => self.history_up(),
            KeyCode::Down => self.history_down(),
            KeyCode::Backspace => self.delete_before_cursor(),
            KeyCode::Delete => self.delete_after_cursor(),
            KeyCode::Esc => {
                if self.completion_popup_visible() {
                    self.hide_completion_popup();
                } else {
                    self.clear_input();
                }
            },
            KeyCode::Tab => self.next_completion(),
            KeyCode::BackTab => self.previous_completion(),
            KeyCode::Enter => {
                if self.completion_popup_visible() {
                    self.accept_completion();
                }
                return self.submit_input();
            },
            KeyCode::Other => {},
        }
        None
    }

    /// Handles what happens at the terminal.
    pub fn handle_event(&mut self, event: UiEvent, now: Instant) -> (out: Outcome)
        requires
            edit_wf(old(self).edit()),
            old(self).input@.len() < usize::MAX,
            old(self).history@.len() < usize::MAX,
        ensures
            handled(*old(self), event, now, *final(self), out@),
            edit_wf(final(self).edit()),
            final(self).history@.len() < usize::MAX,
    {
        let ghost before = *self;
        if self.suspended {
            return Outcome { redraw: false, line: None, answer: None, choice: None };
        }
        match event {
            UiEvent::Resize => Outcome { redraw: true, line: None, answer: None, choice: None },
            UiEvent::Other => Outcome { redraw: false, line: None, answer: None, choice: None },
            UiEvent::Press { code, modifiers } => {
                if self.confirmation.is_some() {
                    let answer: Option<bool> = match &self.confirmation {
                        Some(question) => read_answer(question, code),
                        None => None,
                    };
                    if answer.is_some() {
                        self.confirmation = None;
                    }
                    return Outcome {
                        redraw: !self.should_quit,
                        line: None,
                        answer,
                        choice: None,
                    };
                }
                if self.selection.is_some() {
                    let choice: Option<Option<usize>> = self.select_key(code);
                    assert(self.edit().history.len() == self.history@.len());
                    assert(before.edit().history.len() == before.history@.len());
                    return Outcome {
                        redraw: !self.should_quit,
                        line: None,
                        answer: None,
                        choice,
                    };
                }
                proof {
                    law_keys_stay_in_bounds(before.edit(), code, modifiers);
                    assert(before.edit().history.len() == before.history@.len());
                }
                let line: Option<String> = self.edit_key(code, modifiers, now);
                assert(self.edit().history.len() == self.history@.len());
                Outcome { redraw: !self.should_quit, line, answer: None, choice: None }
            },
        }
    }

    /// Goes through the options of a choice by a key.
    fn select_key(&mut self, code: KeyCode) -> (out: Option<Option<usize>>)
        requires
            old(self).selection is Some,
        ensures
            final(self).edit() == old(self).edit(),
            out == choice_step(old(self).selection->0, code).1,
            out is Some ==> final(self).frame() == (FrameView {
                selection: None,
                ..old(self).frame()
            }),
            out is None ==> final(self).frame() == (FrameView {
                selection: final(self).selection,
                ..old(self).frame()
            }) && still_choosing(
                old(self).selection->0,
                final(self).selection,
                choice_step(old(self).selection->0, code).0,
            ),
    {
        let taken: Option<SelectionState> = self.selection.take();
        match taken {
            None => None,
            Some(question) => {
                let count: usize = question.options.len();
                let at: usize = question.selected;
                let next_at: usize = match code {
                    KeyCode::Up => if count == 0 || at >= count {
                        0
                    } else if at == 0 {
                        count - 1
                    } else {
                        at - 1
                    },
                    KeyCode::Down => if count == 0 || at >= count - 1 {
                        0
                    } else {
                        at + 1
                    },
                    KeyCode::Enter => {
                        return Some(
                            if at < count {
                                Some(at)
                            } else {
                                None
                            },
                        );
                    },
                    KeyCode::Esc => {
                        return Some(None);
                    },
                    _ => at,
                };
                self.selection = Some(
                    SelectionState {
                        prompt: question.prompt,
                        options: question.options,
                        selected: next_at,
                    },
                );
                None
            },
        }
    }

    /// Calls off the request to quit once its time is over; whether the prompt
    /// is to be drawn anew.
    pub fn tick(&mut self, now: Instant) -> (out: bool)
        requires
            now.wf(),
            old(self).ctrl_c_at is Some ==> old(self).ctrl_c_at->0.wf(),
        ensures
            final(self).edit() == old(self).edit(),
            quit_lapsed(old(self).frame(), now) ==> final(self).frame() == (FrameView {
                ctrl_c_pending: false,
                ctrl_c_at: None,
                ..old(self).frame()
            }) && out == !old(self).suspended,
            !quit_lapsed(old(self).frame(), now) ==> final(self).frame() == old(self).frame()
                && !out,
    {
        let lapsed: bool = self.ctrl_c_pending && match self.ctrl_c_at {
            Some(at) => state_watcher::elapsed_since(at, now) >= QUIT_WINDOW_SECS,
            None => true,
        };
        if !lapsed {
            return false;
        }
        self.ctrl_c_pending = false;
        self.ctrl_c_at = None;
        !self.suspended
    }
}

/// Whether a request to quit has waited too long.
pub open spec fn quit_lapsed(f: FrameView, now: Instant) -> bool {
    f.ctrl_c_pending && match f.ctrl_c_at {
        Some(at) => state_watcher::elapsed(at, now) >= QUIT_WINDOW_SECS,
        None => true,
    }
}

/// Whether a choice goes on with another option marked.
pub open spec fn still_choosing(
    before: SelectionState,
    after: Option<SelectionState>,
    selected: int,
) -> bool {
    after matches Some(question) && question.prompt == before.prompt && question.options
        == before.options && question.selected == selected
}

/// What handling an event comes to.
pub open spec fn handled(
    before: App,
    event: UiEvent,
    now: Instant,
    after: App,
    out: OutcomeView,
) -> bool {
    if before.suspended {
        after == before && out == drawn(false)
    } else {
        match event {
            UiEvent::Resize => after == before && out == drawn(true),
            UiEvent::Other => after == before && out == drawn(false),
            UiEvent::Press { code, modifiers } => {
                if before.confirmation is Some {
                    let answer = answer_of(before.confirmation->0, code);
                    &&& after.edit() == before.edit()
                    &&& after.frame() == (FrameView {
                        confirmation: if answer is Some {
                            None
                        } else {
                            before.confirmation
                        },
                        ..before.frame()
                    })
                    &&& out == (OutcomeView { answer, ..drawn(!after.should_quit) })
                } else if before.selection is Some {
                    let step = choice_step(before.selection->0, code);
                    &&& after.edit() == before.edit()
                    &&& after.frame() == (FrameView {
                        selection: after.selection,
                        ..before.frame()
                    })
                    &&& if step.1 is Some {
                        after.selection is None
                    } else {
                        still_choosing(before.selection->0, after.selection, step.0)
                    }
                    &&& out == (OutcomeView { choice: step.1, ..drawn(!after.should_quit) })
                } else {
                    &&& after.edit() == if asks_to_quit(code, modifiers) {
                        before.edit()
                    } else {
                        key_edit(before.edit(), code, modifiers)
                    }
                    &&& after.frame() == key_frame(
                        before.frame(),
                        before.edit(),
                        code,
                        modifiers,
                        now,
                    )
                    &&& out == (OutcomeView {
                        line: key_line(before.edit(), code),
                        ..drawn(!after.should_quit)
                    })
                }
            },
        }
    }
}

// ------------------------------------------------------------------ told

/// The lines of a text in the transcript; an empty text is one empty line.
pub open spec fn transcript(s: Seq<char>, kind: TranscriptKind) -> Seq<LineView> {
    let lines = text::lines(s);
    if lines.len() == 0 {
        seq![LineView { text: Seq::empty(), kind }]
    } else {
        lines.map_values(|l: Seq<char>| LineView { text: l, kind })
    }
}

/// The lines of a text in the transcript.
pub fn split_transcript(s: &str, kind: TranscriptKind) -> (out: Vec<TranscriptLine>)
    ensures
        line_views(out@) == transcript(s@, kind),
{
    let lines: Vec<String> = text::line_strings(s);
    let mut out: Vec<TranscriptLine> = Vec::new();
    if lines.len() == 0 {
        out.push(TranscriptLine { text: String::new(), kind });
        assert(out@[0].text@ =~= Seq::empty());
        assert(line_views(out@) =~= transcript(s@, kind));
        return out;
    }
    let ghost all = text::views(lines@).map_values(|l: Seq<char>| LineView { text: l, kind });
    assert(line_views(out@) =~= all.take(0));
    let mut i: usize = 0;
    while i < lines.len()
        invariant
            i <= lines@.len(),
            all == text::views(lines@).map_values(|l: Seq<char>| LineView { text: l, kind }),
            line_views(out@) == all.take(i as int),
        decreases lines@.len() - i,
    {
        let ghost done = line_views(out@);
        out.push(TranscriptLine { text: lines[i].clone(), kind });
        assert(line_views(out@) =~= done.push(all[i as int]));
        assert(all.take(i + 1) =~= all.take(i as int).push(all[i as int]));
        i = i + 1;
    }
    assert(all.take(i as int) =~= all);
    out
}

/// The line of a change of state.
pub open spec fn transition_text(from: Option<Seq<char>>, to: Seq<char>) -> Seq<char> {
    match from {
        Some(name) => "── "@ + name + " → "@ + to + " ──"@,
        None => "── "@ + to + " ──"@,
    }
}

/// The lines that a message adds to the transcript.
pub open spec fn told(message: UiMessage) -> Seq<LineView> {
    match message {
        UiMessage::Info(s) => transcript(s@, TranscriptKind::Info),
        UiMessage::Tip(s) => transcript(s@, TranscriptKind::Tip),
        UiMessage::Muted(s) => transcript(s@, TranscriptKind::Muted),
        UiMessage::Error(s) => transcript(s@, TranscriptKind::Error),
        UiMessage::Transition { from, to } => seq![
            LineView {
                text: transition_text(text::opt_view(from), to@),
                kind: TranscriptKind::Transition,
            },
        ],
        _ => Seq::empty(),
    }
}

/// The lines that a message adds to the transcript.
fn message_lines(message: &UiMessage) -> (out: Vec<TranscriptLine>)
    ensures
        line_views(out@) == told(*message),
{
    match message {
        UiMessage::Info(s) => split_transcript(s.as_str(), TranscriptKind::Info),
        UiMessage::Tip(s) => split_transcript(s.as_str(), TranscriptKind::Tip),
        UiMessage::Muted(s) => split_transcript(s.as_str(), TranscriptKind::Muted),
        UiMessage::Error(s) => split_transcript(s.as_str(), TranscriptKind::Error),
        UiMessage::Transition { from, to } => {
            let mut line: String = "── ".to_owned();
            if let Some(name) = from {
                line.append(name.as_str());
                line.append(" → ");
            }
            line.append(to.as_str());
            line.append(" ──");
            assert(line@ =~= transition_text(text::opt_view(*from), to@));
            let mut out: Vec<TranscriptLine> = Vec::new();
            out.push(TranscriptLine { text: line, kind: TranscriptKind::Transition });
            assert(line_views(out@) =~= told(*message));
            out
        },
        _ => {
            let out: Vec<TranscriptLine> = Vec::new();
            assert(line_views(out@) =~= told(*message));
            out
        },
    }
}

/// What is to be done after a message.
#[derive(Debug, Clone, PartialEq, Eq)]
pub struct Told {
    /// Print these lines.
    pub lines: Vec<TranscriptLine>,
    /// Draw the prompt anew.
    pub redraw: bool,
    /// Give the terminal away, or take it back.
    pub terminal: Option<Terminal>,
}

/// What becomes of the terminal.
#[derive(Debug, Clone, Copy, PartialEq, Eq, Structural)]
pub enum Terminal {
    Leave,
    Enter,
}

/// What is remembered besides after a message.
pub open spec fn told_frame(f: FrameView, message: UiMessage) -> FrameView {
    match message {
        UiMessage::StatusUpdate(status) => FrameView { status: status@, ..f },
        UiMessage::Suspend => FrameView { suspended: true, ..f },
        UiMessage::Resume => FrameView { suspended: false, ..f },
        UiMessage::ConfirmationRequest {
            prompt,
            suffix,
            default,
            accept_keys,
            reject_keys,
        } => FrameView {
            confirmation: Some(
                ConfirmationState { prompt, suffix, default, accept_keys, reject_keys },
            ),
            ..f
        },
        UiMessage::SelectionRequest { prompt, options } => FrameView {
            selection: Some(SelectionState { prompt, options, selected: 0 }),
            ..f
        },
        _ => FrameView { messages: f.messages + told(message), ..f },
    }
}

/// Whether the prompt is drawn anew after a message.
pub open spec fn told_redraw(f: FrameView, message: UiMessage) -> bool {
    match message {
        UiMessage::StatusUpdate(_) => !f.suspended,
        UiMessage::ConfirmationRequest { .. } => !f.suspended,
        UiMessage::SelectionRequest { .. } => !f.suspended,
        UiMessage::Suspend => false,
        _ => true,
    }
}

impl App {
    /// Handles what the workflow tells.
    pub fn handle_message(&mut self, message: UiMessage) -> (out: Told)
        ensures
            final(self).edit() == old(self).edit(),
            final(self).frame() == told_frame(old(self).frame(), message),
            line_views(out.lines@) == told(message),
            out.redraw == told_redraw(old(self).frame(), message),
            out.terminal == match message {
                UiMessage::Suspend => Some(Terminal::Leave),
                UiMessage::Resume => Some(Terminal::Enter),
                _ => None::<Terminal>,
            },
    {
        let lines: Vec<TranscriptLine> = message_lines(&message);
        let ghost before = line_views(self.messages@);
        let mut redraw: bool = true;
        let mut terminal: Option<Terminal> = None;
        match message {
            UiMessage::StatusUpdate(status) => {
                self.status = status;
                redraw = !self.suspended;
            },
            UiMessage::Suspend => {
                self.suspended = true;
                redraw = false;
                terminal = Some(Terminal::Leave);
            },
            UiMessage::Resume => {
                self.suspended = false;
                terminal = Some(Terminal::Enter);
            },
            UiMessage::ConfirmationRequest {
                prompt,
                suffix,
                default,
                accept_keys,
                reject_keys,
            } => {
                self.confirmation = Some(
                    ConfirmationState { prompt, suffix, default, accept_keys, reject_keys },
                );
                redraw = !self.suspended;
            },
            UiMessage::SelectionRequest { prompt, options } => {
                self.selection = Some(SelectionState { prompt, options, selected: 0 });
                redraw = !self.suspended;
            },
            _ => {
                let mut i: usize = 0;
                let ghost all = line_views(lines@);
                let ghost start = *self;
                assert(before + all.take(0) =~= before);
                while i < lines.len()
                    invariant
                        i <= lines@.len(),
                        all == line_views(lines@),
                        line_views(self.messages@) == before + all.take(i as int),
                        self.edit() == start.edit(),
                        self.frame() == (FrameView {
                            messages: line_views(self.messages@),
                            ..start.frame()
                        }),
                    decreases lines@.len() - i,
                {
                    let ghost done = line_views(self.messages@);
                    self.messages.push(
                        TranscriptLine { text: lines[i].text.clone(), kind: lines[i].kind },
                    );
                    assert(line_views(self.messages@) =~= done.push(all[i as int]));
                    assert(all.take(i + 1) =~= all.take(i as int).push(all[i as int]));
                    assert(line_views(self.messages@) =~= before + all.take(i + 1));
                    i = i + 1;
                }
                assert(all.take(i as int) =~= all);
            },
        }
        Told { lines, redraw, terminal }
    }

    /// Shows a changed state; what is known of the agents stays.
    pub fn handle_state(&mut self, state: &StateData) -> (out: bool)
        ensures
            final(self).edit() == old(self).edit(),
            final(self).frame() == (FrameView {
                status: StatusView {
                    supervisor_status: old(self).status@.supervisor_status,
                    executor_status: old(self).status@.executor_status,
                    ..status_of(state@)
                },
                ..old(self).frame()
            }),
            out == !old(self).suspended,
    {
        let mut status: StatusSnapshot = StatusSnapshot::from_state_data(state);
        status.supervisor_status = self.status.supervisor_status.clone();
        status.executor_status = self.status.executor_status.clone();
        self.status = status;
        !self.suspended
    }
}

/// Quitting takes two requests: after one, the shell goes on.
pub proof fn law_quitting_takes_two(f: FrameView, e: EditView, now: Instant, later: Instant)
    requires
        !f.should_quit,
        !f.ctrl_c_pending,
    ensures
        ({
            let c = KeyCode::Char('c');
            let once = key_frame(f, e, c, Modifiers::Control, now);
            !once.should_quit && key_frame(
                once,
                e,
                c,
                Modifiers::Control,
                later,
            ).should_quit
        }),
{
}

/// While the terminal is given away no key does anything.
pub proof fn law_suspended_shell_is_still(
    before: App,
    event: UiEvent,
    now: Instant,
    after: App,
    out: OutcomeView,
)
    requires
        before.suspended,
        handled(before, event, now, after, out),
    ensures
        after == before,
        out.line is None,
        out.answer is None,
        out.choice is None,
        !out.redraw,
{
}

// ------------------------------------------------------------------ laws of the editor

/// Every completion that is offered starts with what was typed, and there are
/// never more of them than are shown at once.
pub proof fn law_offers_fit(start: Seq<char>)
    ensures
        all_start(offered(start), start),
        offered(start).len() <= MAX_COMPLETIONS,
{
    lemma_starting_with(start, commands());
    let all = starting_with(start, commands());
    assert forall|i: int| 0 <= i < offered(start).len() implies start.is_prefix_of(
        (#[trigger] offered(start)[i]).0,
    ) by {
        assert(offered(start)[i] == all[i]);
    }
}

proof fn lemma_starting_with(start: Seq<char>, all: Seq<CompletionView>)
    ensures
        all_start(starting_with(start, all), start),
    decreases all.len(),
{
    if all.len() > 0 {
        lemma_starting_with(start, all.drop_last());
    }
}

/// The selected completion is one that there is, also after refreshing.
proof fn lemma_edit_wf(e: EditView)
    requires
        edit_wf(e),
    ensures
        edit_wf(refreshed(e)),
        edit_wf(computed(e)),
{
}

/// Typing, deleting, completing and going through the history keep the cursor
/// in the input and the selected completion among the offered.
pub proof fn law_edits_stay_in_bounds(e: EditView, ch: char, asking: bool)
    requires
        edit_wf(e),
    ensures
        edit_wf(typed(e, ch)),
        edit_wf(deleted_before(e)),
        edit_wf(deleted_after(e)),
        edit_wf(next(e)),
        edit_wf(previous(e)),
        edit_wf(up(e, asking)),
        edit_wf(down(e, asking)),
        edit_wf(accepted(e)),
        edit_wf(submitted(e)),
        edit_wf(emptied(e)),
{
    lemma_edit_wf(e);
}

/// Whatever key is pressed, with or without another held, the cursor stays in the
/// input and the selected completion among the offered. The history gains at most
/// a line, and none where it is full.
pub proof fn law_keys_stay_in_bounds(e: EditView, code: KeyCode, modifiers: Modifiers)
    requires
        edit_wf(e),
    ensures
        edit_wf(key_edit(e, code, modifiers)),
        key_edit(e, code, modifiers).history.len() <= e.history.len() || key_edit(
            e,
            code,
            modifiers,
        ).history.len() <= MAX_HISTORY,
{
    lemma_history_kept(e);
    match code {
        KeyCode::Char(ch) => {
            law_edits_stay_in_bounds(e, ch, false);
            assert(typed(e, ch).history == e.history);
        },
        KeyCode::Enter => {
            lemma_submitted_bounded(e);
            lemma_submitted_bounded(accepted(e));
            law_edits_stay_in_bounds(e, ' ', false);
            law_edits_stay_in_bounds(accepted(e), ' ', false);
        },
        _ => {
            law_edits_stay_in_bounds(e, ' ', false);
        },
    }
}

/// Editing and completing keep the history.
proof fn lemma_history_kept(e: EditView)
    ensures
        next(e).history == e.history,
        previous(e).history == e.history,
        up(e, false).history == e.history,
        down(e, false).history == e.history,
        deleted_before(e).history == e.history,
        deleted_after(e).history == e.history,
        accepted(e).history == e.history,
        emptied(e).history == e.history,
{
}

/// A submitted line makes the history longer by one at most, and not where it is
/// full.
proof fn lemma_submitted_bounded(e: EditView)
    ensures
        submitted(e).history.len() <= e.history.len() || submitted(e).history.len() <= MAX_HISTORY,
{
}

/// A character that was typed and deleted again leaves the input and the
/// cursor as they were.
pub proof fn law_delete_undoes_typing(e: EditView, ch: char)
    requires
        edit_wf(e),
    ensures
        deleted_before(typed(e, ch)).input == e.input,
        deleted_before(typed(e, ch)).cursor == e.cursor,
{
    let after = typed(e, ch);
    assert(after.input == e.input.insert(e.cursor, ch));
    assert(after.cursor == e.cursor + 1);
    assert(after.input.remove(e.cursor) =~= e.input);
}

/// Going up in the history and down again gives back the input that was being
/// typed.
pub proof fn law_history_gives_input_back(e: EditView)
    requires
        edit_wf(e),
        e.history_idx is None,
        e.history.len() > 0,
        !popup(e, false),
        !popup(up(e, false), false),
    ensures
        down(up(e, false), false).input == e.input,
        down(up(e, false), false).history_idx is None,
{
}

/// The history never holds more lines than are kept, and its last line is the
/// one that was submitted last.
pub proof fn law_history_is_bounded(history: Seq<Seq<char>>, line: Seq<char>)
    requires
        history.len() <= MAX_HISTORY,
    ensures
        remembered(history, line).len() <= MAX_HISTORY,
        remembered(history, line).last() == line,
{
    let more = history.push(line);
    if more.len() > MAX_HISTORY {
        assert(more.skip(more.len() - MAX_HISTORY).last() == line);
    }
}

/// What all candidates share is a start of each of them.
pub proof fn law_shared_prefix_is_shared(list: Seq<CompletionView>, at: int)
    requires
        0 <= at < list.len(),
    ensures
        shared_prefix(list).is_prefix_of(list[at].0),
{
    lemma_shared_by_all(list, list.len() as int, at);
    let n = shared_by_all(list, list.len() as int);
    if at > 0 {
        lemma_shared_len(list[0].0, list[at].0);
        let m = shared_len(list[0].0, list[at].0);
        assert(list[0].0.take(n) =~= list[at].0.take(n)) by {
            assert forall|i: int| 0 <= i < n implies list[0].0[i] == list[at].0[i] by {
                assert(list[0].0.take(m)[i] == list[at].0.take(m)[i]);
            }
        }
        assert(shared_prefix(list) =~= list[at].0.subrange(0, n));
    } else {
        assert(shared_prefix(list) =~= list[0].0.subrange(0, n));
    }
}

/// What all candidates share is the longest such start: whatever is a start of
/// each of them is a start of it.
pub proof fn law_shared_prefix_is_longest(list: Seq<CompletionView>, start: Seq<char>)
    requires
        list.len() > 0,
        all_start(list, start),
    ensures
        start.is_prefix_of(shared_prefix(list)),
{
    assert(start.is_prefix_of(list[0].0));
    lemma_shared_at_least(list, start, list.len() as int);
    lemma_shared_by_all(list, list.len() as int, 0);
    let n = shared_by_all(list, list.len() as int);
    assert(start =~= shared_prefix(list).subrange(0, start.len() as int)) by {
        assert(start == list[0].0.subrange(0, start.len() as int));
    }
}

proof fn lemma_shared_len_at_least(a: Seq<char>, b: Seq<char>, start: Seq<char>)
    requires
        start.is_prefix_of(a),
        start.is_prefix_of(b),
    ensures
        shared_len(a, b) >= start.len(),
    decreases a.len(),
{
    lemma_shared_len(a, b);
    if start.len() > 0 {
        assert(a[0] == start[0] && b[0] == start[0]) by {
            assert(start == a.subrange(0, start.len() as int));
            assert(start == b.subrange(0, start.len() as int));
        }
        let rest = start.skip(1);
        assert(rest =~= a.skip(1).subrange(0, rest.len() as int));
        assert(rest =~= b.skip(1).subrange(0, rest.len() as int));
        lemma_shared_len_at_least(a.skip(1), b.skip(1), rest);
    }
}

proof fn lemma_shared_at_least(list: Seq<CompletionView>, start: Seq<char>, n: int)
    requires
        1 <= n <= list.len(),
        all_start(list, start),
    ensures
        shared_by_all(list, n) >= start.len(),
    decreases n,
{
    assert(start.is_prefix_of(list[0].0));
    if n > 1 {
        lemma_shared_at_least(list, start, n - 1);
        assert(start.is_prefix_of(list[n - 1].0));
        lemma_shared_len_at_least(list[0].0, list[n - 1].0, start);
    }
}

proof fn lemma_shared_len(a: Seq<char>, b: Seq<char>)
    ensures
        0 <= shared_len(a, b) <= a.len(),
        shared_len(a, b) <= b.len(),
        a.take(shared_len(a, b)) == b.take(shared_len(a, b)),
    decreases a.len(),
{
    if a.len() > 0 && b.len() > 0 && a[0] == b[0] {
        lemma_shared_len(a.skip(1), b.skip(1));
        let n = shared_len(a.skip(1), b.skip(1));
        assert(a.take(n + 1) =~= seq![a[0]] + a.skip(1).take(n));
        assert(b.take(n + 1) =~= seq![b[0]] + b.skip(1).take(n));
    } else {
        assert(a.take(0) =~= b.take(0));
    }
}

proof fn lemma_shared_by_all(list: Seq<CompletionView>, n: int, at: int)
    requires
        1 <= n <= list.len(),
        0 <= at < n,
    ensures
        0 <= shared_by_all(list, n) <= list[0].0.len(),
        at > 0 ==> shared_by_all(list, n) <= shared_len(list[0].0, list[at].0),
    decreases n,
{
    if n > 1 {
        lemma_shared_len(list[0].0, list[n - 1].0);
        if at < n - 1 {
            lemma_shared_by_all(list, n - 1, at);
        } else {
            lemma_shared_by_all(list, n - 1, 0);
        }
    }
}

// ------------------------------------------------------------------ laws of the keys

/// The commands that start with a text are in the list of those that do.
proof fn lemma_starting_with_all(start: Seq<char>, all: Seq<CompletionView>, i: int)
    requires
        0 <= i < all.len(),
        start.is_prefix_of(all[i].0),
    ensures
        starting_with(start, all).contains(all[i]),
    decreases all.len(),
{
    let found = starting_with(start, all);
    let front = starting_with(start, all.drop_last());
    if i == all.len() - 1 {
        assert(found.last() == all[i]);
    } else {
        lemma_starting_with_all(start, all.drop_last(), i);
        let at = choose|at: int| 0 <= at < front.len() && front[at] == all[i];
        assert(found[at] == all[i]);
    }
}

/// Every command that starts with what was typed is offered, as long as there is room
/// for it.
pub proof fn law_every_fitting_command_is_offered(start: Seq<char>, i: int)
    requires
        0 <= i < commands().len(),
        start.is_prefix_of(commands()[i].0),
    ensures
        offered(start).contains(commands()[i]) || offered(start).len() == MAX_COMPLETIONS,
{
    lemma_starting_with_all(start, commands(), i);
}

/// A question is answered by its keys in either case, by Enter with what it
/// suggests and by Esc with no; any other key leaves it waiting.
pub proof fn law_questions_are_answered(question: ConfirmationState, key: char)
    requires
        'a' <= key <= 'z',
    ensures
        question.accept_keys@.contains(key) ==> answer_of(question, KeyCode::Char(key)) == Some(
            true,
        ),
        question.reject_keys@.contains(key) && !question.accept_keys@.contains(key) ==> answer_of(
            question,
            KeyCode::Char(key),
        ) == Some(false),
        !question.accept_keys@.contains(key) && !question.reject_keys@.contains(key) ==> answer_of(
            question,
            KeyCode::Char(key),
        ) is None,
        answer_of(question, KeyCode::Char(((key as u32) - 32) as char)) == answer_of(
            question,
            KeyCode::Char(key),
        ),
        answer_of(question, KeyCode::Enter) == Some(question.default),
        answer_of(question, KeyCode::Esc) == Some(false),
        answer_of(question, KeyCode::Tab) is None,
        answer_of(question, KeyCode::Up) is None,
        answer_of(question, KeyCode::Down) is None,
        answer_of(question, KeyCode::Backspace) is None,
{
    let capital = ((key as u32) - 32) as char;
    assert('A' <= capital <= 'Z');
    assert(lower(capital) == key);
}

/// Down and up go to the option below and above, round at the ends, so that one undoes
/// the other. Enter takes the option that is marked, and Esc none; the options are not
/// left in any other way.
pub proof fn law_choices_go_round(
    question: SelectionState,
    below: SelectionState,
    above: SelectionState,
)
    requires
        question.selected < question.options@.len(),
        below.options == question.options,
        below.selected == choice_step(question, KeyCode::Down).0,
        above.options == question.options,
        above.selected == choice_step(question, KeyCode::Up).0,
    ensures
        question.selected + 1 < question.options@.len() ==> below.selected == question.selected + 1,
        question.selected + 1 == question.options@.len() ==> below.selected == 0,
        choice_step(below, KeyCode::Up).0 == question.selected,
        choice_step(above, KeyCode::Down).0 == question.selected,
        choice_step(question, KeyCode::Enter).1 == Some(Some(question.selected)),
        choice_step(question, KeyCode::Esc).1 == Some(None::<usize>),
        forall|code: KeyCode|
            !(code is Enter) && !(code is Esc) ==> (#[trigger] choice_step(question, code)).1
                is None,
{
}

/// A key writes its character at the cursor, which goes behind it, and nothing else in
/// the input changes; deleting takes the character before the cursor or behind it.
pub proof fn law_editing_is_at_the_cursor(e: EditView, ch: char)
    requires
        edit_wf(e),
    ensures
        typed(e, ch).input == e.input.take(e.cursor).push(ch) + e.input.skip(e.cursor),
        typed(e, ch).cursor == e.cursor + 1,
        e.cursor > 0 ==> deleted_before(e).input == e.input.take(e.cursor - 1) + e.input.skip(
            e.cursor,
        ) && deleted_before(e).cursor == e.cursor - 1,
        e.cursor == 0 ==> deleted_before(e).input == e.input,
        e.cursor < e.input.len() ==> deleted_after(e).input == e.input.take(e.cursor)
            + e.input.skip(e.cursor + 1) && deleted_after(e).cursor == e.cursor,
        e.cursor == e.input.len() ==> deleted_after(e).input == e.input,
        key_edit(e, KeyCode::Char(ch), Modifiers::Plain) == typed(e, ch),
        key_edit(e, KeyCode::Char(ch), Modifiers::Shift) == typed(e, ch),
        key_edit(e, KeyCode::Char(ch), Modifiers::Control).input == e.input,
        key_edit(e, KeyCode::Backspace, Modifiers::Plain) == deleted_before(e),
        key_edit(e, KeyCode::Delete, Modifiers::Plain) == deleted_after(e),
{
    assert(typed(e, ch).input =~= e.input.take(e.cursor).push(ch) + e.input.skip(e.cursor));
    if e.cursor > 0 {
        assert(deleted_before(e).input =~= e.input.take(e.cursor - 1) + e.input.skip(e.cursor));
    }
    if e.cursor < e.input.len() {
        assert(deleted_after(e).input =~= e.input.take(e.cursor) + e.input.skip(e.cursor + 1));
    }
}

/// The keys that move the cursor change nothing else: by a character to the left or
/// the right while there is one, or to either end.
pub proof fn law_cursor_moves_alone(e: EditView)
    requires
        edit_wf(e),
    ensures
        ({
            let left = key_edit(e, KeyCode::Left, Modifiers::Plain);
            let right = key_edit(e, KeyCode::Right, Modifiers::Plain);
            let home = key_edit(e, KeyCode::Home, Modifiers::Plain);
            let end = key_edit(e, KeyCode::End, Modifiers::Plain);
            &&& left == (EditView { cursor: left.cursor, ..e })
            &&& right == (EditView { cursor: right.cursor, ..e })
            &&& home == (EditView { cursor: 0, ..e })
            &&& end == (EditView { cursor: e.input.len() as int, ..e })
            &&& e.cursor > 0 ==> left.cursor == e.cursor - 1
            &&& e.cursor == 0 ==> left.cursor == 0
            &&& e.cursor < e.input.len() ==> right.cursor == e.cursor + 1
            &&& e.cursor == e.input.len() ==> right.cursor == e.cursor
            &&& key_edit(e, KeyCode::Char('a'), Modifiers::Control) == home
            &&& key_edit(e, KeyCode::Char('e'), Modifiers::Control) == end
        }),
{
}

/// Going up shows the line that was entered last, then each that was entered before
/// it, and stays at the first; going down goes back the same way.
pub proof fn law_history_is_gone_through(e: EditView)
    requires
        edit_wf(e),
        !popup(e, false),
        e.history.len() > 0,
    ensures
        e.history_idx is None ==> up(e, false).input == e.history.last() && up(e, false).saved
            == e.input,
        e.history_idx matches Some(i) ==> {
            &&& i > 0 ==> up(e, false).input == e.history[i - 1] && up(e, false).history_idx
                == Some(i - 1)
            &&& i == 0 ==> up(e, false).input == e.history[0]
            &&& up(e, false).saved == e.saved
            &&& i + 1 < e.history.len() ==> down(e, false).input == e.history[i + 1] && down(
                e,
                false,
            ).history_idx == Some(i + 1)
            &&& i + 1 == e.history.len() ==> down(e, false).input == e.saved && down(
                e,
                false,
            ).history_idx is None
        },
        e.history_idx is None ==> down(e, false).input == e.input,
        up(e, false).cursor == up(e, false).input.len(),
        up(e, false).history == e.history,
{
}

/// Enter hands on what was typed, without the white space round it, remembers it and
/// empties the input; of a blank input nothing is handed on. While completions are
/// shown it is the selected one that is handed on.
pub proof fn law_enter_hands_the_line_on(e: EditView)
    requires
        edit_wf(e),
        e.history.len() <= MAX_HISTORY,
    ensures
        ({
            let line = text::trim(e.input);
            let after = key_edit(e, KeyCode::Enter, Modifiers::Plain);
            &&& !popup(e, false) && line.len() == 0 ==> key_line(e, KeyCode::Enter) is None && after
                == e
            &&& !popup(e, false) && line.len() > 0 ==> {
                &&& key_line(e, KeyCode::Enter) == Some(line)
                &&& after.input.len() == 0
                &&& after.cursor == 0
                &&& after.history.last() == line
                &&& after.history_idx is None
                &&& after.candidates.len() == 0
            }
            &&& popup(e, false) && text::trim(e.candidates[e.selected].0).len() > 0 ==> {
                &&& key_line(e, KeyCode::Enter) == Some(text::trim(e.candidates[e.selected].0))
                &&& after.input.len() == 0
                &&& after.history.last() == text::trim(e.candidates[e.selected].0)
            }
        }),
        forall|code: KeyCode| !(code is Enter) ==> (#[trigger] key_line(e, code)) is None,
{
    let line = text::trim(e.input);
    if line.len() > 0 {
        law_history_is_bounded(e.history, line);
    }
    if popup(e, false) {
        law_history_is_bounded(e.history, text::trim(e.candidates[e.selected].0));
    }
}

/// What is remembered of the lines is the end of them, and all of them while there is
/// room; a line that is entered twice in a row is remembered once.
pub proof fn law_latest_lines_are_remembered(history: Seq<Seq<char>>, line: Seq<char>)
    ensures
        history.len() > 0 && history.last() == line ==> remembered(history, line) == history,
        (history.len() == 0 || history.last() != line) && history.len() < MAX_HISTORY
            ==> remembered(history, line) == history.push(line),
        remembered(history, line).is_suffix_of(history) || remembered(history, line).is_suffix_of(
            history.push(line),
        ),
        kept_history(history).is_suffix_of(history),
        history.len() <= MAX_HISTORY ==> kept_history(history) == history,
        history.len() > MAX_HISTORY ==> kept_history(history).len() == MAX_HISTORY,
{
    let more = history.push(line);
    assert(history.subrange(0, history.len() as int) =~= history);
    assert(more.subrange(0, more.len() as int) =~= more);
    if more.len() > MAX_HISTORY {
        assert(more.subrange(more.len() - MAX_HISTORY, more.len() as int) =~= more.skip(
            more.len() - MAX_HISTORY,
        ));
    }
    if history.len() > MAX_HISTORY {
        assert(history.subrange(history.len() - MAX_HISTORY, history.len() as int)
            =~= history.skip(history.len() - MAX_HISTORY));
    }
}

/// Taking a completion over makes it the input, with the cursor behind it and no
/// completions left. Where one alone fits it is taken over at once; of several what
/// they share is filled in first, then they are gone through one by one, round at the
/// end, and back the same way.
pub proof fn law_completions_are_gone_through(e: EditView)
    requires
        edit_wf(e),
        e.candidates.len() > 0,
        all_start(e.candidates, text::trim(e.input)),
    ensures
        accepted(e).input == e.candidates[e.selected].0,
        accepted(e).cursor == accepted(e).input.len(),
        accepted(e).candidates.len() == 0 && !accepted(e).active,
        e.candidates.len() == 1 && shared_prefix(e.candidates).len() <= text::trim(e.input).len()
            ==> next(e).input == e.candidates[0].0 && next(e).candidates.len() == 0,
        e.candidates.len() > 1 && shared_prefix(e.candidates).len() <= text::trim(e.input).len()
            && e.active ==> {
            &&& next(e).input == e.input
            &&& next(e).candidates == e.candidates
            &&& e.selected + 1 < e.candidates.len() ==> next(e).selected == e.selected + 1
            &&& e.selected + 1 == e.candidates.len() ==> next(e).selected == 0
            &&& previous(next(e)).selected == e.selected
        },
        e.candidates.len() > 1 && shared_prefix(e.candidates).len() > text::trim(e.input).len()
            && offered(text::trim(shared_prefix(e.candidates))).len() != 1 ==> next(e).input
            == shared_prefix(e.candidates),
        previous(e).input == e.input,
        previous(e).candidates == e.candidates,
{
    assert(refreshed(e) == e);
    if e.candidates.len() == 1 {
        assert(e.selected == 0);
    }
    if e.candidates.len() > 1 && shared_prefix(e.candidates).len() <= text::trim(e.input).len()
        && e.active {
        let after = next(e);
        assert(after.selected == (e.selected + 1) % (e.candidates.len() as int));
        if e.selected + 1 == e.candidates.len() {
            assert(after.selected == 0) by (nonlinear_arith)
                requires
                    after.selected == (e.selected + 1) % (e.candidates.len() as int),
                    e.selected + 1 == e.candidates.len() as int,
                    e.candidates.len() > 1,
            ;
        } else {
            assert(after.selected == e.selected + 1) by (nonlinear_arith)
                requires
                    after.selected == (e.selected + 1) % (e.candidates.len() as int),
                    0 <= e.selected,
                    e.selected + 1 < e.candidates.len() as int,
            ;
        }
        assert(after.input == e.input);
        assert(refreshed(after) == after);
    }
}

/// Completions are shown only for what starts with a slash, while nothing is asked and
/// nobody has put them away; Esc puts them away and keeps the input, and empties it
/// where none are shown.
pub proof fn law_escape_steps_back(e: EditView, asking: bool)
    ensures
        popup(e, asking) ==> !asking && text::trim(e.input).len() > 0 && text::trim(e.input)[0]
            == '/' && e.candidates.len() > 0,
        popup(e, false) ==> {
            let after = key_edit(e, KeyCode::Esc, Modifiers::Plain);
            after.input == e.input && !popup(after, false)
        },
        !popup(e, false) ==> key_edit(e, KeyCode::Esc, Modifiers::Plain).input.len() == 0
            && key_edit(e, KeyCode::Esc, Modifiers::Plain).history == e.history,
{
    reveal_strlit("/");
    if slashed(prefix(e)) {
        assert("/"@[0] == '/');
    }
}

/// The shell is left by the line that asks for it, and by the second of two requests;
/// a request that has waited two seconds no longer counts.
pub proof fn law_shell_is_left_on_request(
    f: FrameView,
    e: EditView,
    code: KeyCode,
    modifiers: Modifiers,
    now: Instant,
    line: Seq<char>,
)
    requires
        !f.should_quit,
    ensures
        after_line(f, Some(line)).should_quit <==> line == "/quit"@,
        !after_line(f, None).should_quit,
        after_line(f, Some(line)).messages == f.messages && after_line(f, Some(line)).status
            == f.status,
        key_frame(f, e, code, modifiers, now).should_quit ==> {
            ||| modifiers is Control && code == KeyCode::Char('c') && f.ctrl_c_pending
            ||| key_line(e, code) == Some("/quit"@)
        },
        quit_lapsed(f, now) ==> f.ctrl_c_pending,
        f.ctrl_c_pending && f.ctrl_c_at is Some ==> (quit_lapsed(f, now)
            <==> state_watcher::elapsed(f.ctrl_c_at->0, now) >= 2),
{
}

/// What is told stands in the transcript, each line under its kind and in order, and
/// what was there stays before it. A question or a status is not told but kept, and
/// the terminal is given away and taken back.
pub proof fn law_messages_are_told(f: FrameView, message: UiMessage)
    ensures
        message matches UiMessage::Info(s) ==> told(message) == transcript(
            s@,
            TranscriptKind::Info,
        ),
        message matches UiMessage::Tip(s) ==> told(message) == transcript(s@, TranscriptKind::Tip),
        message matches UiMessage::Muted(s) ==> told(message) == transcript(
            s@,
            TranscriptKind::Muted,
        ),
        message matches UiMessage::Error(s) ==> told(message) == transcript(
            s@,
            TranscriptKind::Error,
        ),
        told_frame(f, message).messages == f.messages + told(message),
        told_frame(f, message).should_quit == f.should_quit,
        message is Suspend ==> told_frame(f, message).suspended,
        message is Resume ==> !told_frame(f, message).suspended,
        !(message is Suspend) && !(message is Resume) ==> told_frame(f, message).suspended
            == f.suspended,
        message matches UiMessage::StatusUpdate(status) ==> told_frame(f, message).status
            == status@,
        !(message is StatusUpdate) ==> told_frame(f, message).status == f.status,
        !(message is ConfirmationRequest) ==> told_frame(f, message).confirmation
            == f.confirmation,
        !(message is SelectionRequest) ==> told_frame(f, message).selection == f.selection,
        message is ConfirmationRequest ==> told_frame(f, message).confirmation is Some,
        message matches UiMessage::SelectionRequest { prompt, options } ==> told_frame(
            f,
            message,
        ).selection matches Some(question) && question.options == options && question.selected == 0,
        f.suspended && (message is StatusUpdate || message is ConfirmationRequest
            || message is SelectionRequest) ==> !told_redraw(f, message),
{
    assert(f.messages + told(message) =~= told_frame(f, message).messages);
}

/// A text stands in the transcript line by line, and an empty one as an empty line.
pub proof fn law_transcript_keeps_lines(s: Seq<char>, kind: TranscriptKind, i: int)
    requires
        0 <= i < text::lines(s).len(),
    ensures
        transcript(s, kind).len() == text::lines(s).len(),
        transcript(s, kind)[i].text == text::lines(s)[i],
        transcript(s, kind)[i].kind == kind,
{
}

/// The line of a change of state names the states in the order in which they were.
pub proof fn law_change_is_one_line(from: Seq<char>, to: Seq<char>)
    ensures
        transition_text(Some(from), to) == "── "@ + (from + " → "@ + to) + " ──"@,
        transition_text(None, to) == "── "@ + to + " ──"@,
{
    assert(transition_text(Some(from), to) =~= "── "@ + (from + " → "@ + to) + " ──"@);
}

/// While a question waits every key goes to it and none to the editor; it is gone as
/// soon as a key answers it, and the answer is handed on. So it is with a choice, while
/// no question waits. Otherwise keys edit, and nothing is answered.
pub proof fn law_keys_go_where_they_are_awaited(
    before: App,
    code: KeyCode,
    modifiers: Modifiers,
    now: Instant,
    after: App,
    out: OutcomeView,
)
    requires
        !before.suspended,
        handled(before, UiEvent::Press { code, modifiers }, now, after, out),
    ensures
        before.confirmation is Some || before.selection is Some ==> {
            &&& after.edit() == before.edit()
            &&& after.should_quit == before.should_quit
            &&& out.line is None
        },
        before.confirmation matches Some(question) ==> {
            &&& out.answer == answer_of(question, code)
            &&& out.answer is Some ==> after.confirmation is None
            &&& out.answer is None ==> after.confirmation == before.confirmation
            &&& out.choice is None
            &&& after.selection == before.selection
        },
        before.confirmation is None && before.selection is Some ==> {
            &&& out.choice == choice_step(before.selection->0, code).1
            &&& out.choice is Some ==> after.selection is None
            &&& out.choice is None ==> after.selection is Some && after.selection->0.options
                == before.selection->0.options && after.selection->0.selected == choice_step(
                before.selection->0,
                code,
            ).0
            &&& out.answer is None
        },
        before.confirmation is None && before.selection is None ==> {
            &&& out.answer is None
            &&& out.choice is None
            &&& out.line == key_line(before.edit(), code)
            &&& after.confirmation is None
            &&& after.selection is None
        },
        out.redraw == !after.should_quit,
{
    assert(after.frame().confirmation == after.confirmation);
    assert(after.frame().selection == after.selection);
    assert(after.frame().should_quit == after.should_quit);
    assert(before.frame().confirmation == before.confirmation);
    assert(before.frame().selection == before.selection);
    assert(before.frame().should_quit == before.should_quit);
}

/// What the status line shows of a state says nothing of agents, and of the task what the
/// state says.
pub proof fn law_state_says_nothing_of_agents(state: state::StateView)
    ensures
        status_of(state).supervisor_status == "none"@,
        status_of(state).executor_status == "none"@,
        status_of(state).task_state == state::state_name(state.state),
        status_of(state).claimed_by == state.claimed_by,
        status_of(state).retries == state.check_retries,
        status_of(state).cycles == state.review_cycles,
{
}

} // verus!
